use portal::reader::zebra::TagData;
use portal::reader::zebra::window::{process_tags_at, ReadWindow, tag_to_read};
use portal::processor::ReadSaver;

fn sighting(tag: u128, rssi: i8, antenna: u16, portal_time: u128) -> TagData {
    TagData {
        tag,
        antenna,
        rssi,
        first_seen: portal_time,
        last_seen: portal_time,
        reader_time: portal_time + 7_000,
        portal_time,
    }
}

#[test]
fn sightings_within_a_window_keep_the_strongest() {
    let mut window = ReadWindow::new();
    let mut saver = ReadSaver::new();
    // read window of 2 tenths of a second: 200_000 microseconds
    let mut tags = vec![
        sighting(7, -60, 1, 1_000_000),
        sighting(7, -40, 2, 1_100_000),
        sighting(7, -50, 3, 1_150_000),
    ];
    let reads = process_tags_at(&mut window, &mut tags, 2, "DEC", &mut saver, "reader-1", 1_200_000);
    assert_eq!(0, reads.len());
    // the window closes a second past its width; at that time the strongest sighting comes out
    let reads = process_tags_at(&mut window, &mut Vec::new(), 2, "DEC", &mut saver, "reader-1", 2_200_001);
    assert_eq!(1, reads.len());
    assert_eq!("7", reads[0].chip());
    assert_eq!("-40", reads[0].rssi());
    assert_eq!(2, reads[0].antenna());
    assert_eq!(1, reads[0].seconds());
    assert_eq!(100, reads[0].milliseconds());
    assert_eq!(1, reads[0].reader_seconds());
    assert_eq!(107, reads[0].reader_milliseconds());
    assert_eq!("reader-1", reads[0].reader());
    assert_eq!(0, reads[0].status());
    assert_eq!(0, reads[0].uploaded());
    // nothing stays open
    let reads = process_tags_at(&mut window, &mut Vec::new(), 2, "DEC", &mut saver, "reader-1", 9_000_000);
    assert_eq!(0, reads.len());
}

#[test]
fn a_window_is_not_closed_before_a_second_past_its_width() {
    let mut window = ReadWindow::new();
    let mut saver = ReadSaver::new();
    let mut tags = vec![sighting(9, -30, 1, 1_000_000)];
    let reads = process_tags_at(&mut window, &mut tags, 2, "DEC", &mut saver, "r", 2_200_000);
    // 1_000_000 + 200_000 + 1_000_000 is not below 2_200_000
    assert_eq!(0, reads.len());
    let reads = process_tags_at(&mut window, &mut Vec::new(), 2, "DEC", &mut saver, "r", 2_200_001);
    assert_eq!(1, reads.len());
}

#[test]
fn a_sighting_after_the_window_hands_out_the_kept_one() {
    let mut window = ReadWindow::new();
    let mut saver = ReadSaver::new();
    let mut tags = vec![sighting(5, -70, 1, 1_000_000), sighting(5, -20, 4, 1_300_000)];
    let reads = process_tags_at(&mut window, &mut tags, 2, "HEX", &mut saver, "r", 1_300_000);
    assert_eq!(1, reads.len());
    assert_eq!("-70", reads[0].rssi());
    assert_eq!(1, reads[0].antenna());
    // the second sighting opened a new window
    let reads = process_tags_at(&mut window, &mut Vec::new(), 2, "HEX", &mut saver, "r", 3_000_000);
    assert_eq!(1, reads.len());
    assert_eq!("-20", reads[0].rssi());
    // and the reads were queued for saving
    assert_eq!(2, saver.take_pending().len());
}

#[test]
fn sightings_are_sorted_by_time_before_they_meet_the_windows() {
    let mut window = ReadWindow::new();
    let mut saver = ReadSaver::new();
    let mut tags = vec![
        sighting(3, -10, 1, 1_500_000),
        sighting(3, -90, 2, 1_000_000),
        sighting(4, -10, 1, 1_000_000),
    ];
    let reads = process_tags_at(&mut window, &mut tags, 2, "DEC", &mut saver, "r", 1_000_000);
    // sorted, the first sighting of tag 3 is at 1_000_000; the one at 1_500_000 is past its window
    assert_eq!(1, reads.len());
    assert_eq!("-90", reads[0].rssi());
    assert_eq!(1_000_000, tags[0].portal_time);
    assert_eq!(3, tags[0].tag);
    assert_eq!(4, tags[1].tag);
    assert_eq!(1_500_000, tags[2].portal_time);
}

#[test]
fn chip_numbers_follow_the_chip_type() {
    let t = sighting(255, -5, 1, 2_345_678);
    assert_eq!("255", tag_to_read(&t, true, "r").chip());
    assert_eq!("ff", tag_to_read(&t, false, "r").chip());
    let r = tag_to_read(&t, true, "r");
    assert_eq!(2, r.seconds());
    assert_eq!(345, r.milliseconds());
    assert_eq!("-5", r.rssi());
}

#[test]
fn open_windows_become_reads_on_request() {
    let mut window = ReadWindow::new();
    let mut saver = ReadSaver::new();
    let mut tags = vec![sighting(11, -30, 1, 1_000_000), sighting(12, 3, 2, 1_000_100)];
    process_tags_at(&mut window, &mut tags, 20, "DEC", &mut saver, "r", 1_000_200);
    let reads = window.window_reads("HEX", "r");
    assert_eq!(2, reads.len());
    assert_eq!("b", reads[0].chip());
    assert_eq!("c", reads[1].chip());
    assert_eq!("3", reads[1].rssi());
}

#[test]
fn sorting_keeps_every_sighting_once() {
    let mut window = ReadWindow::new();
    let mut saver = ReadSaver::new();
    let times = [5u128, 3, 9, 3, 1, 7, 5];
    let mut tags: Vec<TagData> = times.iter().enumerate().map(|(i, t)| sighting(i as u128, -1, 1, *t * 1_000_000)).collect();
    process_tags_at(&mut window, &mut tags, 2, "DEC", &mut saver, "r", 0);
    let sorted: Vec<u128> = tags.iter().map(|t| t.portal_time / 1_000_000).collect();
    assert_eq!(vec![1, 3, 3, 5, 5, 7, 9], sorted);
    // equal times keep their arrival order
    let ids: Vec<u128> = tags.iter().map(|t| t.tag).collect();
    assert_eq!(vec![4, 1, 3, 0, 6, 5, 2], ids);
}
