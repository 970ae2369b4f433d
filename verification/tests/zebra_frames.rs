use portal::llrp::message_types::KEEPALIVE;
use portal::reader::zebra::frames::{scan_batch, take_leftover, Span};
use portal::reader::zebra::BUFFER_SIZE;

fn keepalive(id: u8) -> [u8; 10] {
    [0x04, KEEPALIVE as u8, 0, 0, 0, 10, 0, 0, 0, id]
}

#[test]
fn a_batch_is_cut_into_messages_and_a_cut_off_one_waits() {
    let mut buf = Box::new([0u8; BUFFER_SIZE]);
    buf[0..10].copy_from_slice(&keepalive(1));
    buf[10..20].copy_from_slice(&keepalive(2));
    buf[20..27].copy_from_slice(&keepalive(3)[0..7]);
    let mut leftover = Box::new([0u8; BUFFER_SIZE]);
    let mut leftover_num = 0usize;
    let (lead, start) = take_leftover(&mut leftover, &mut leftover_num, &buf, 27);
    assert_eq!(None, lead);
    assert_eq!(0, start);
    let (spans, error) = scan_batch(&buf, 27, start, &mut leftover, &mut leftover_num);
    assert_eq!(None, error);
    assert_eq!(
        vec![
            Span { in_leftover: false, kind: KEEPALIVE, id: 1, start: 10, end: 10 },
            Span { in_leftover: false, kind: KEEPALIVE, id: 2, start: 20, end: 20 },
        ],
        spans
    );
    assert_eq!(7, leftover_num);
    assert_eq!(&keepalive(3)[0..7], &leftover[0..7]);

    // the next read brings the rest of the third message and a fourth one
    let mut next = Box::new([0u8; BUFFER_SIZE]);
    next[0..3].copy_from_slice(&keepalive(3)[7..10]);
    next[3..13].copy_from_slice(&keepalive(4));
    let (lead, start) = take_leftover(&mut leftover, &mut leftover_num, &next, 13);
    let lead = lead.unwrap();
    assert!(lead.in_leftover);
    assert_eq!(KEEPALIVE, lead.kind);
    assert_eq!((10, 10), (lead.start, lead.end));
    assert_eq!(&keepalive(3)[..], &leftover[0..10]);
    assert_eq!(3, start);
    assert_eq!(0, leftover_num);
    let (spans, error) = scan_batch(&next, 13, start, &mut leftover, &mut leftover_num);
    assert_eq!(None, error);
    assert_eq!(vec![Span { in_leftover: false, kind: KEEPALIVE, id: 4, start: 13, end: 13 }], spans);
    assert_eq!(0, leftover_num);
}

#[test]
fn a_header_cut_before_its_length_reads_as_empty() {
    let mut buf = Box::new([0u8; BUFFER_SIZE]);
    buf[0..5].copy_from_slice(&keepalive(3)[0..5]);
    let mut leftover = Box::new([0u8; BUFFER_SIZE]);
    let mut leftover_num = 0usize;
    let (spans, error) = scan_batch(&buf, 5, 0, &mut leftover, &mut leftover_num);
    assert!(spans.is_empty());
    assert_eq!(Some("message of length zero"), error);
}

#[test]
fn bytes_that_start_no_message_stop_the_scan() {
    let mut buf = Box::new([0u8; BUFFER_SIZE]);
    buf[0..10].copy_from_slice(&keepalive(1));
    buf[10..20].copy_from_slice(&[0xFF, 0, 0, 0, 0, 10, 0, 0, 0, 2]);
    let mut leftover = Box::new([0u8; BUFFER_SIZE]);
    let mut leftover_num = 0usize;
    let (spans, error) = scan_batch(&buf, 20, 0, &mut leftover, &mut leftover_num);
    assert_eq!(1, spans.len());
    assert_eq!(Some("invalid reserved field"), error);
    buf[10..20].copy_from_slice(&[0x04, KEEPALIVE as u8, 0, 0, 0, 0, 0, 0, 0, 2]);
    let (spans, error) = scan_batch(&buf, 20, 0, &mut leftover, &mut leftover_num);
    assert_eq!(1, spans.len());
    assert_eq!(Some("message of length zero"), error);
}
