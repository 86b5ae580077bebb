use scrings::bash::{bash_kinds, Bash};
use scrings::error::Error;
use scrings::parser::{accept, report, Detector, IterScrings, Parsable};
use scrings::php::{php_kinds, Php};
use scrings::python::{python_kinds, Python};
use scrings::sql::{sql_kinds, Sql};
use scrings::strings::Width;

#[test]
fn bash_if_detected() {
    let src = "if [ -f x ]; then echo hi; fi";
    assert_eq!(Bash.parse(src).unwrap(), Some((0, String::from(src))));
}

#[test]
fn bash_plain_words_not_code() {
    assert_eq!(Bash.parse("hello there").unwrap(), None);
}

#[test]
fn python_for_detected() {
    let src = "for i in range(10):\n    print(i)\n";
    let (off, text) = Python.parse(src).unwrap().unwrap();
    assert_eq!(off, 0);
    assert!(text.starts_with("for i in range(10):"));
}

#[test]
fn python_sensitive_call_detected() {
    let src = "os.system('ls')";
    assert_eq!(Python.parse(src).unwrap(), Some((0, String::from(src))));
}

#[test]
fn python_prose_not_code() {
    assert_eq!(String::from("this is only some english text").is(&mut Python).unwrap(), None);
}

#[test]
fn python_detection_is_idempotent() {
    let src = "xx = = $ junk ;; import os\nif a > 1:\n    b = 2\n";
    if let Some((_, first)) = Python.parse(src).unwrap() {
        let again = Python.parse(&first).unwrap();
        assert_eq!(again, Some((0, first.clone())));
    } else {
        panic!("no match on the first run");
    }
}

#[test]
fn sql_statement_detected() {
    let src = "SELECT name FROM users WHERE id = 1;";
    let (off, text) = Sql.parse(src).unwrap().unwrap();
    assert_eq!(off, 0);
    assert!(text.starts_with("SELECT name FROM users"));
}

#[test]
fn php_echo_detected() {
    let src = "<?php echo 'hello'; ?>";
    let (off, text) = Php.parse(src).unwrap().unwrap();
    assert!(text.contains("echo 'hello';"));
    assert_eq!(&src[off as usize..off as usize + text.len()], text);
}

#[test]
fn end_to_end_narrow_stream() {
    let mut data = Vec::new();
    let mut seed: u32 = 7;
    for _ in 0..100 {
        seed = seed.wrapping_mul(1103515245).wrapping_add(12345);
        data.push(((seed >> 16) % 8) as u8 + 0x80);
    }
    let code_at = data.len() as u64;
    data.extend_from_slice(b"if x > 1:\n    y = 2\n");
    for _ in 0..100 {
        seed = seed.wrapping_mul(1103515245).wrapping_add(12345);
        data.push(((seed >> 16) % 8) as u8 + 0xf0);
    }
    let mut found = data.iter_scrings(10, Width::Narrow, Python);
    let mut all = Vec::new();
    while let Some(item) = found.next() {
        all.push(item);
    }
    assert_eq!(all.len(), 1);
    assert_eq!(all[0].0, code_at);
    assert!(all[0].1.starts_with("if x > 1:"));
}

#[test]
fn report_span_text() {
    assert_eq!(report("hello world", true, Some((6, 11))), Ok(Some((6, String::from("world")))));
}

#[test]
fn report_without_match_is_none() {
    assert_eq!(report("hello world", false, Some((6, 11))), Ok(None));
}

#[test]
fn report_without_span_gives_whole_text() {
    assert_eq!(report("abc", true, None), Ok(Some((0, String::from("abc")))));
}

#[test]
fn report_span_outside_text_is_error() {
    assert_eq!(report("abc", true, Some((1, 10))), Err(Error::Text));
    assert_eq!(report("abc", true, Some((2, 1))), Err(Error::Text));
}

#[test]
fn kind_tables() {
    assert_eq!(bash_kinds().len(), 7);
    assert_eq!(php_kinds().len(), 23);
    assert_eq!(python_kinds().len(), 16);
    assert_eq!(sql_kinds(), vec![String::from("statement"), String::from("transaction")]);
}

#[test]
fn accept_adds_offsets() {
    assert_eq!(accept(100, Ok(Some((5, String::from("x = 1"))))), Some((105, String::from("x = 1"))));
    assert_eq!(accept(100, Ok(None)), None);
    assert_eq!(accept(100, Err(Error::Grammar)), None);
    assert_eq!(accept(u64::MAX, Ok(Some((1, String::from("y"))))), None);
}
