use portal::objects::read::{Read, READ_STATUS_USED, READ_UPLOADED_FALSE, READ_STATUS_UNUSED};
use portal::objects::bibchip::BibChip;
use portal::objects::participant::Participant;
use portal::network::api::Api;
use portal::control::socket::find_json_end;
use portal::control::sound::{SoundNotifier, SoundType};
use portal::processor::{ReadSaver, SaverAction};
use portal::database::memstore::MemStore;
use portal::reader::zebra::TagData;
use portal::reader::helpers::antenna_status_str;
use portal::remote::uploader::Status;
use portal::remote::uploader::info::UploadInfo;
use portal::text::{decimal, hexadecimal, signed_byte_decimal};

fn read(chip: &str, rssi: &str) -> Read {
    Read::new(0, String::from(chip), 10, 20, 30, 40, 1, String::from("r"), String::from(rssi), READ_STATUS_USED, READ_UPLOADED_FALSE)
}

#[test]
fn read_equality_ignores_id_and_signal() {
    let a = read("100", "-5");
    let mut b = read("100", "-9");
    b.set_id(42);
    assert!(a.equals(&b));
    b.set_status(READ_STATUS_UNUSED);
    assert!(!a.equals(&b));
    assert!(a.is_valid());
    assert_eq!("chip", a.ident_type());
    assert_eq!("reader", a.kind());
}

#[test]
fn records_compare_by_their_fields() {
    assert!(BibChip::new(String::from("1"), String::from("a")).equals(&BibChip::new(String::from("1"), String::from("a"))));
    assert!(!BibChip::new(String::from("1"), String::from("a")).equals(&BibChip::new(String::from("1"), String::from("b"))));
    let a = Api::new(1, String::from("n"), String::from("k"), String::from("t"), String::from("u"));
    let b = Api::new(2, String::from("n"), String::from("k"), String::from("t"), String::from("u"));
    assert!(a.equal(&b));
    assert_eq!(2, b.id());
    let p = Participant::new(1, String::from("10"), String::from("A"), String::from("B"), 30, String::from("F"), String::from("30-39"), String::from("5K"), String::from("c"), false);
    assert!(p.equals(&p.clone()));
    assert_eq!("30-39", p.age_group());
}

#[test]
fn json_ends() {
    assert_eq!(6, find_json_end(&String::from("{\"a\":1}{")));
    assert_eq!(7, find_json_end(&String::from("{\"a\":1}\n{\"b\":2}")));
    assert_eq!(12, find_json_end(&String::from("{\"a\":{\"b\":1}}")));
    assert_eq!(3, find_json_end(&String::from("abcd")));
    // an object not yet complete
    assert_eq!(8, find_json_end(&String::from("{\"a\":{\"b\"")));
    // text before the first brace is kept with the object
    assert_eq!(8, find_json_end(&String::from("xx{\"a\":1}yy")));
}

#[test]
fn numerals() {
    assert_eq!("0", decimal(0));
    assert_eq!("123456789012345678901234567890", decimal(123456789012345678901234567890));
    assert_eq!("deadbeef", hexadecimal(0xdeadbeef));
    assert_eq!("-128", signed_byte_decimal(-128));
    assert_eq!("127", signed_byte_decimal(127));
    assert_eq!("-", antenna_status_str(1));
    assert_eq!("x", antenna_status_str(2));
    assert_eq!("", antenna_status_str(0));
}

fn tag(t: u128) -> TagData {
    TagData { tag: t, antenna: 1, rssi: -1, first_seen: 0, last_seen: 0, reader_time: 0, portal_time: 0 }
}

#[test]
fn beeps_for_new_tags_and_recent_ones() {
    let mut n = SoundNotifier::new();
    n.notify_tags_at(&vec![tag(1)], 1000);
    assert!(n.take_beep());
    // heard again within a minute: no beep, and the stamp stays
    n.notify_tags_at(&vec![tag(1)], 1030);
    assert!(!n.take_beep());
    n.notify_tags_at(&vec![tag(1)], 1059);
    assert!(!n.take_beep());
    // a minute after the last beep: beeps again
    n.notify_tags_at(&vec![tag(1)], 1060);
    assert!(n.take_beep());
    n.notify_tags_at(&vec![tag(1)], 1100);
    assert!(!n.take_beep());
    // a tag idle for 100 s beeps
    n.notify_tags_at(&vec![tag(1)], 1160);
    assert!(n.take_beep());
    n.notify_one();
    assert!(n.take_beep());
    n.notify_custom(SoundType::Connected);
    n.notify_custom(SoundType::Volume);
    assert_eq!(vec![SoundType::Connected, SoundType::Volume], n.take_sounds());
    assert!(n.take_sounds().is_empty());
}

#[test]
fn notifying_wakes_the_sound_loop() {
    let mut n = SoundNotifier::new();
    assert!(!n.notified());
    n.notify_tags(&vec![tag(7)]);
    assert!(n.notified());
    // a tag never heard asks for a beep
    assert!(n.take_beep());
    assert!(n.take_sounds().is_empty());
    assert!(!n.notified());
    n.notify_tags(&vec![]);
    assert!(n.notified());
    assert!(!n.take_beep());
    n.take_sounds();
    n.notify_one();
    assert!(n.notified());
    n.take_sounds();
    n.notify_custom(SoundType::Malfunction);
    assert!(n.notified());
}

#[test]
fn read_saver_hands_out_reads_in_order() {
    let mut saver = ReadSaver::new();
    assert!(!saver.running());
    saver.save_reads(&vec![read("1", "-1"), read("2", "-2")]).unwrap();
    saver.save_reads(&vec![read("3", "-3")]).unwrap();
    let taken = saver.take_pending();
    assert_eq!(3, taken.len());
    assert_eq!("1", taken[0].chip());
    assert_eq!("3", taken[2].chip());
    saver.save_reads(&vec![read("4", "-4")]).unwrap();
    saver.restore(taken);
    let again = saver.take_pending();
    assert_eq!(4, again.len());
    assert_eq!("4", again[0].chip());
    assert_eq!("1", again[1].chip());
    saver.start();
    assert!(saver.running());
    saver.stop();
    assert!(!saver.running());
}

#[test]
fn upload_info_updates() {
    let mut info = UploadInfo::new(Status::Stopped, 0);
    info.update_status(Status::Running, 3);
    assert_eq!(Status::Running, info.status);
    assert_eq!(3, info.errors);
}

#[test]
fn read_saver_loop_stores_reads_and_stops() {
    let mut store = MemStore::new();
    let mut saver = ReadSaver::new();
    saver.start();
    saver.save_reads(&vec![read("1", "-1"), read("2", "-2")]).unwrap();
    assert_eq!(SaverAction::Wait, saver.step(&mut store, true));
    assert!(saver.running());
    assert_eq!(2, store.get_all_reads().unwrap().len());
    assert_eq!(0, saver.take_pending().len());
    // A wake-up with nothing new changes nothing.
    assert_eq!(SaverAction::Wait, saver.step(&mut store, true));
    assert_eq!(2, store.get_all_reads().unwrap().len());
    // Reads still waiting when the program stops are written on the way out.
    saver.save_reads(&vec![read("3", "-3")]).unwrap();
    assert_eq!(SaverAction::Stop, saver.step(&mut store, false));
    assert!(!saver.running());
    let stored = store.get_all_reads().unwrap();
    assert_eq!(3, stored.len());
    assert_eq!("3", stored[2].chip());
    // A stopped saver ends its loop on the next turn too.
    let mut other = ReadSaver::new();
    other.start();
    other.stop();
    assert_eq!(SaverAction::Stop, other.step(&mut store, true));
    assert!(!other.running());
}

#[test]
fn setters_keep_a_new_read_a_chip_read() {
    let mut r = read("7", "-3");
    for step in 0..6u8 {
        r.set_status(step % 3);
        r.set_uploaded(step % 2);
        r.set_id(step as u64 * 10);
        assert_eq!("chip", r.ident_type());
        assert_eq!("reader", r.kind());
        assert!(r.is_valid());
    }
    assert_eq!(2, r.status());
    assert_eq!(1, r.uploaded());
    assert_eq!(50, r.id());
}

#[test]
fn a_saver_runs_only_between_start_and_the_turn_that_ends_it() {
    let mut store = MemStore::new();
    let mut saver = ReadSaver::new();
    assert!(!saver.running());
    saver.start();
    assert!(saver.running());
    assert_eq!(SaverAction::Wait, saver.step(&mut store, true));
    assert!(saver.running());
    saver.stop();
    assert!(!saver.running());
    saver.start();
    assert_eq!(SaverAction::Stop, saver.step(&mut store, false));
    assert!(!saver.running());
    assert_eq!(SaverAction::Stop, saver.step(&mut store, true));
    assert!(!saver.running());
}
