use omnisec_agent::tail::TailReader;

fn bytes_of(lines: &[&str]) -> Vec<Vec<u8>> {
    lines.iter().map(|line| line.as_bytes().to_vec()).collect()
}

#[test]
fn complete_lines_are_reported_without_their_line_feed() {
    let mut reader = TailReader::at_end(0);
    let lines = reader.feed(b"hello\nworld\n");
    assert_eq!(lines, bytes_of(&["hello", "world"]));
    assert_eq!(reader.offset(), 12);
    assert_eq!(reader.pending_len(), 0);
}

#[test]
fn a_reader_begins_at_the_end_of_the_file() {
    let reader = TailReader::at_end(4096);
    assert_eq!(reader.start(), 4096);
    assert_eq!(reader.offset(), 4096);
    assert_eq!(reader.pending_len(), 0);
}

#[test]
fn an_unfinished_line_waits_for_its_line_feed() {
    let mut reader = TailReader::at_end(10);
    assert_eq!(reader.feed(b"hel"), Vec::<Vec<u8>>::new());
    assert_eq!(reader.pending_len(), 3);
    assert_eq!(reader.offset(), 13);
    assert_eq!(reader.feed(b"lo"), Vec::<Vec<u8>>::new());
    assert_eq!(reader.pending_len(), 5);
    assert_eq!(reader.feed(b"\nwor"), bytes_of(&["hello"]));
    assert_eq!(reader.pending_len(), 3);
    assert_eq!(reader.feed(b"ld\n"), bytes_of(&["world"]));
    assert_eq!(reader.pending_len(), 0);
    assert_eq!(reader.offset(), 22);
    assert_eq!(reader.start(), 10);
}

#[test]
fn reading_in_pieces_gives_the_same_lines_as_reading_at_once() {
    let appended: &[u8] = b"one\ntwo\r\n\nthree and more\nrest";
    let mut whole = TailReader::at_end(0);
    let at_once = whole.feed(appended);
    for cut in 0..=appended.len() {
        let mut pieces = TailReader::at_end(0);
        let mut lines = pieces.feed(&appended[..cut]);
        lines.extend(pieces.feed(&appended[cut..]));
        assert_eq!(lines, at_once);
        assert_eq!(pieces.pending_len(), whole.pending_len());
        assert_eq!(pieces.offset(), whole.offset());
    }
    let mut bytewise = TailReader::at_end(0);
    let mut lines = Vec::new();
    for byte in appended {
        lines.extend(bytewise.feed(&[*byte]));
    }
    assert_eq!(lines, at_once);
    assert_eq!(at_once, bytes_of(&["one", "two", "", "three and more"]));
    assert_eq!(whole.pending_len(), 4);
}

#[test]
fn one_carriage_return_before_the_line_feed_is_dropped() {
    let mut reader = TailReader::at_end(0);
    let lines = reader.feed(b"dos\r\ntwice\r\r\n\r\nmid\rdle\n\r");
    assert_eq!(lines, vec![
        b"dos".to_vec(),
        b"twice\r".to_vec(),
        b"".to_vec(),
        b"mid\rdle".to_vec(),
    ]);
    assert_eq!(reader.pending_len(), 1);
}

#[test]
fn a_carriage_return_split_from_its_line_feed_is_still_dropped() {
    let mut reader = TailReader::at_end(0);
    assert_eq!(reader.feed(b"line\r"), Vec::<Vec<u8>>::new());
    assert_eq!(reader.feed(b"\n"), bytes_of(&["line"]));
}

#[test]
fn empty_lines_are_lines() {
    let mut reader = TailReader::at_end(0);
    assert_eq!(reader.feed(b"\n\n\n"), bytes_of(&["", "", ""]));
}

#[test]
fn an_empty_read_changes_nothing() {
    let mut reader = TailReader::at_end(5);
    assert_eq!(reader.feed(b"ab"), Vec::<Vec<u8>>::new());
    assert_eq!(reader.feed(b""), Vec::<Vec<u8>>::new());
    assert_eq!(reader.offset(), 7);
    assert_eq!(reader.pending_len(), 2);
}

#[test]
fn the_offset_has_room_up_to_the_end_of_u64() {
    let reader = TailReader::at_end(u64::MAX - 3);
    assert!(reader.has_room_for(0));
    assert!(reader.has_room_for(3));
    assert!(!reader.has_room_for(4));
    let mut last = TailReader::at_end(u64::MAX - 3);
    assert_eq!(last.feed(b"ab\n"), bytes_of(&["ab"]));
    assert_eq!(last.offset(), u64::MAX);
    assert!(!last.has_room_for(1));
}

#[test]
fn bytes_that_are_no_text_are_split_like_any_others() {
    let mut reader = TailReader::at_end(0);
    let lines = reader.feed(&[0xff, 0xfe, 10, 0xc3, 10]);
    assert_eq!(lines, vec![vec![0xff, 0xfe], vec![0xc3]]);
}
