use scrings::strings::{is_printable, IterStrings, IterUtf16leStrings, StringsIterator, Width};

fn all(mut it: StringsIterator) -> Vec<(u64, String)> {
    let mut out = Vec::new();
    while let Some(item) = it.next() {
        out.push(item);
    }
    out
}

fn wide(text: &str) -> Vec<u8> {
    let mut out = Vec::new();
    for c in text.encode_utf16() {
        out.extend_from_slice(&c.to_le_bytes());
    }
    out
}

#[test]
fn printable_set() {
    assert!(is_printable(0x0d));
    assert!(is_printable(0x0a));
    assert!(is_printable(0x20));
    assert!(is_printable(0x7e));
    assert!(!is_printable(0x09));
    assert!(!is_printable(0x7f));
    assert!(!is_printable(0x1f));
    assert!(!is_printable(0x4100));
}

#[test]
fn narrow_run_found_with_offset() {
    let mut data = vec![0u8; 7];
    data.extend_from_slice(b"hello world!!");
    data.extend_from_slice(&[0u8; 5]);
    let found = all(data.iter_strings(4));
    assert_eq!(found, vec![(7, String::from("hello world!!"))]);
}

#[test]
fn run_keeps_line_breaks() {
    let mut data = vec![1u8, 2, 3];
    data.extend_from_slice(b"a = 1\r\nb = 2\n");
    data.push(0);
    let found = all(StringsIterator::new(data, 3, Width::Narrow));
    assert_eq!(found, vec![(3, String::from("a = 1\r\nb = 2\n"))]);
}

#[test]
fn quiet_stream_yields_nothing() {
    let mut data = Vec::new();
    for _ in 0..20 {
        data.extend_from_slice(b"abcde");
        data.push(0xff);
    }
    assert!(all(data.iter_strings(5)).is_empty());
    assert!(all(Vec::new().iter_strings(0)).is_empty());
}

#[test]
fn every_candidate_longer_than_step() {
    let mut data = Vec::new();
    let runs = ["ab", "abcdefgh", "xyz", "0123456789", "qq", "a long run of text here"];
    for r in runs.iter() {
        data.extend_from_slice(&[0u8, 0xfe, 0x01]);
        data.extend_from_slice(r.as_bytes());
    }
    data.push(0);
    let found = all(data.iter_strings(6));
    assert!(!found.is_empty());
    for (_, text) in found.iter() {
        assert!(text.len() > 6);
    }
    let texts: Vec<&str> = found.iter().map(|(_, t)| t.as_str()).collect();
    assert_eq!(texts, vec!["abcdefgh", "0123456789", "a long run of text here"]);
}

#[test]
fn unaligned_start_recovered() {
    let mut data = vec![0x01u8; 13];
    data.extend_from_slice(b"unaligned run");
    data.extend_from_slice(&[0u8; 9]);
    let found = all(data.iter_strings(5));
    assert_eq!(found, vec![(13, String::from("unaligned run"))]);
}

#[test]
fn run_at_end_of_buffer() {
    let mut data = vec![0u8; 4];
    data.extend_from_slice(b"tail text");
    let found = all(data.iter_strings(3));
    assert_eq!(found, vec![(4, String::from("tail text"))]);
}

#[test]
fn wide_short_run_discarded() {
    let mut data = vec![0u8; 8];
    data.extend_from_slice(&wide("fifteen chars!!"));
    data.extend_from_slice(&[0u8; 8]);
    assert!(all(data.iter_utf16le_strings(20)).is_empty());
}

#[test]
fn wide_run_found() {
    let mut data = vec![0u8; 3];
    data.extend_from_slice(&wide("hello wide world"));
    data.extend_from_slice(&[0u8; 4]);
    let found = all(data.iter_utf16le_strings(5));
    assert_eq!(found, vec![(3, String::from("hello wide world"))]);
}

#[test]
fn finished_iterator_stays_finished() {
    let mut it = StringsIterator::new(b"\x00\x00abcdefgh\x00".to_vec(), 2, Width::Narrow);
    assert_eq!(it.next(), Some((2, String::from("abcdefgh"))));
    assert_eq!(it.next(), None);
    assert_eq!(it.next(), None);
}
