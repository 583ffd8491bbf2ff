use rumbac::error::Violation;
use rumbac::line::{
    check_ack, strip_terminators, ExactReader, LineReader, LineStep, Sender, LINE_CAPACITY,
};

fn strip(text: &[u8]) -> Vec<u8> {
    let mut line = text.to_vec();
    strip_terminators(&mut line);
    line
}

fn read_line(chunks: &[&[u8]]) -> Option<Result<Vec<u8>, Violation>> {
    let mut reader = LineReader::new();
    for chunk in chunks {
        match reader.accept(chunk) {
            Ok(LineStep::More(next)) => reader = next,
            Ok(LineStep::Line(payload)) => return Some(Ok(payload)),
            Err(violation) => return Some(Err(violation)),
        }
    }
    None
}

#[test]
fn strips_terminators_in_the_order_a_device_appends_them() {
    assert_eq!(strip(b"DATA\n\r\0"), b"DATA".to_vec());
    assert_eq!(strip(b"DATA\n\r"), b"DATA".to_vec());
    assert_eq!(strip(b"DATA\n"), b"DATA".to_vec());
    assert_eq!(strip(b"DATA\r"), b"DATA".to_vec());
    assert_eq!(strip(b"DATA\0"), b"DATA".to_vec());
    assert_eq!(strip(b"DATA\n\0"), b"DATA".to_vec());
    assert_eq!(strip(b"DATA\r\0"), b"DATA".to_vec());
}

#[test]
fn leaves_text_without_terminators_unchanged() {
    assert_eq!(strip(b"DATA"), b"DATA".to_vec());
    assert_eq!(strip(b""), Vec::<u8>::new());
    assert_eq!(strip(b"\rDATA"), b"\rDATA".to_vec());
}

#[test]
fn strips_each_terminator_once() {
    assert_eq!(strip(b"DATA\0\0"), b"DATA\0".to_vec());
    assert_eq!(strip(b"DATA\n\n\r\r\0"), b"DATA\n\n\r".to_vec());
    assert_eq!(strip(b"\n\r\0"), Vec::<u8>::new());
}

#[test]
fn carriage_return_before_line_feed_stays() {
    assert_eq!(strip(b"DATA\r\n\0"), b"DATA\r".to_vec());
    assert_eq!(strip(b"DATA\r\n"), b"DATA\r".to_vec());
}

#[test]
fn stripping_twice_changes_nothing_once_no_terminator_is_left() {
    for text in [&b"DATA\n\r\0"[..], b"DATA", b"", b"x\r", b"nRF52840-QIAA\n\r"] {
        let once = strip(text);
        assert_eq!(strip(&once), once);
    }
    let once = strip(b"DATA\r\n");
    assert_ne!(strip(&once), once);
}

#[test]
fn reads_line_up_to_the_terminator() {
    assert_eq!(read_line(&[b"nRF52840-QIAA\n\r\0"]), Some(Ok(b"nRF52840-QIAA".to_vec())));
    assert_eq!(read_line(&[b"\0"]), Some(Ok(Vec::new())));
}

#[test]
fn reads_line_that_comes_in_pieces() {
    let chunks: [&[u8]; 4] = [b"nRF", b"", b"52840-QI", b"AA\n\r\0"];
    assert_eq!(read_line(&chunks), Some(Ok(b"nRF52840-QIAA".to_vec())));
    let split: [&[u8]; 3] = [b"abc\n", b"\r", b"\0"];
    assert_eq!(read_line(&split), Some(Ok(b"abc".to_vec())));
}

#[test]
fn drops_what_follows_the_terminator() {
    assert_eq!(read_line(&[b"abc\0def\0"]), Some(Ok(b"abc".to_vec())));
}

#[test]
fn line_without_terminator_stays_open() {
    assert_eq!(read_line(&[b"abc", b"def"]), None);
    assert_eq!(read_line(&[]), None);
}

#[test]
fn line_reader_reports_its_room() {
    let reader = LineReader::new();
    assert_eq!(LINE_CAPACITY, 256);
    assert_eq!(reader.room(), 256);
    match reader.accept(b"abcde") {
        Ok(LineStep::More(next)) => assert_eq!(next.room(), 251),
        other => panic!("unexpected step {:?}", other),
    }
}

#[test]
fn reply_that_fills_the_buffer_overflows() {
    let full = vec![b'a'; 256];
    assert_eq!(read_line(&[&full]), Some(Err(Violation::ReplyTooLong)));
    let half = vec![b'a'; 128];
    assert_eq!(read_line(&[&half, &half]), Some(Err(Violation::ReplyTooLong)));
    let long = vec![b'a'; 300];
    assert_eq!(read_line(&[&long]), Some(Err(Violation::ReplyTooLong)));
}

#[test]
fn terminator_in_the_last_slot_closes_the_reply() {
    let mut text = vec![b'a'; 255];
    text.push(0);
    assert_eq!(read_line(&[&text]), Some(Ok(vec![b'a'; 255])));
    let mut late = vec![b'a'; 256];
    late.push(0);
    assert_eq!(read_line(&[&late]), Some(Err(Violation::ReplyTooLong)));
}

#[test]
fn collects_exactly_what_is_waited_for() {
    let reader = ExactReader::new(5);
    assert_eq!(reader.missing(), 5);
    let reader = reader.accept(b"ab");
    assert_eq!(reader.missing(), 3);
    let reader = reader.accept(b"");
    assert_eq!(reader.missing(), 3);
    let reader = reader.accept(b"cde");
    assert_eq!(reader.missing(), 0);
    assert_eq!(reader.into_bytes(), b"abcde".to_vec());
}

#[test]
fn exact_reader_takes_no_more_than_is_missing() {
    let reader = ExactReader::new(3).accept(b"ab").accept(b"cdef");
    assert_eq!(reader.missing(), 0);
    assert_eq!(reader.into_bytes(), b"abc".to_vec());
    let empty = ExactReader::new(0);
    assert_eq!(empty.missing(), 0);
    assert_eq!(empty.accept(b"x").into_bytes(), Vec::<u8>::new());
}

#[test]
fn accepts_matching_acknowledgement_only() {
    assert_eq!(check_ack(b"Y\n\r", b"Y\n\r"), Ok(()));
    assert_eq!(check_ack(b"\n\r", b"\n\r"), Ok(()));
    assert_eq!(check_ack(b"Y\r\n", b"Y\n\r"), Err(Violation::UnexpectedAck));
    assert_eq!(check_ack(b"Y\n", b"Y\n\r"), Err(Violation::UnexpectedAck));
    assert_eq!(check_ack(b"", b"\n\r"), Err(Violation::UnexpectedAck));
}

#[test]
fn sender_offers_the_rest_until_all_is_accepted() {
    let mut sender = Sender::new(b"S00000000,00001000#".to_vec());
    assert!(!sender.is_done());
    assert_eq!(sender.pending(), b"S00000000,00001000#");
    sender.advance(1);
    assert_eq!(sender.pending(), b"00000000,00001000#");
    sender.advance(0);
    assert_eq!(sender.pending(), b"00000000,00001000#");
    sender.advance(9);
    assert_eq!(sender.pending(), b"00001000#");
    assert!(!sender.is_done());
    sender.advance(9);
    assert!(sender.is_done());
    assert_eq!(sender.pending(), b"");
}

#[test]
fn sender_counts_an_excessive_count_as_all() {
    let mut sender = Sender::new(b"V#".to_vec());
    sender.advance(5);
    assert!(sender.is_done());
    let empty = Sender::new(Vec::new());
    assert!(empty.is_done());
}
