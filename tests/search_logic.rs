use searcher::{
    decode_lines, render_colored, render_header, render_plain, split_lines, EntryAction,
    LineMatch, PatternError, Searcher,
};

fn make(regex: &str, filter: &str) -> Searcher {
    match Searcher::new(regex, filter, false) {
        Ok(s) => s,
        Err(_) => panic!("patterns should compile"),
    }
}

fn all_matches(s: &Searcher, lines: &Vec<&str>) -> Vec<LineMatch> {
    let mut out = Vec::new();
    let mut from = 0;
    while let Some(m) = s.next_match(lines, from) {
        from = m.line_number;
        out.push(m);
    }
    out
}

#[test]
fn split_keeps_terminators() {
    let lines = split_lines("foo\nbar baz\n");
    assert_eq!(lines, vec!["foo\n", "bar baz\n"]);
}

#[test]
fn split_last_line_without_newline() {
    let lines = split_lines("a\r\nb\n\nc");
    assert_eq!(lines, vec!["a\r\n", "b\n", "\n", "c"]);
}

#[test]
fn split_empty_text_has_no_lines() {
    assert!(split_lines("").is_empty());
}

#[test]
fn split_multibyte_text() {
    let lines = split_lines("héllo\nwörld");
    assert_eq!(lines, vec!["héllo\n", "wörld"]);
}

#[test]
fn decode_rejects_invalid_utf8() {
    let data: Vec<u8> = vec![b'a', 0xff, b'\n', 0xfe];
    assert!(decode_lines(&data).is_err());
}

#[test]
fn decode_valid_text_into_lines() {
    let data = b"one\ntwo\n".to_vec();
    match decode_lines(&data) {
        Ok(lines) => assert_eq!(lines, vec!["one\n", "two\n"]),
        Err(_) => panic!("valid text"),
    }
}

#[test]
fn case_insensitive_name_and_content() {
    let s = make("ABC", "ABC");
    assert!(s.name_matches("xabcx"));
    assert_eq!(s.first_match("xAbCx"), Some((1, 4)));
}

#[test]
fn only_first_occurrence_is_reported() {
    let s = make("foo", ".*");
    assert_eq!(s.first_match("a foo and foo\n"), Some((2, 5)));
}

#[test]
fn compiling_twice_gives_same_matches() {
    let a = make("b+", r"\.rs$");
    let b = make("b+", r"\.rs$");
    for line in ["abbbc", "none", "b"] {
        assert_eq!(a.first_match(line), b.first_match(line));
    }
    for name in ["x.rs", "x.rsx", "RS.RS"] {
        assert_eq!(a.name_matches(name), b.name_matches(name));
    }
}

#[test]
fn invalid_content_pattern_is_reported_first() {
    assert!(matches!(Searcher::new("(", "(", true), Err(PatternError::Content(_))));
}

#[test]
fn invalid_filename_pattern() {
    assert!(matches!(Searcher::new("ok", "[", true), Err(PatternError::FileName(_))));
}

#[test]
fn colored_flag_is_kept() {
    match Searcher::new("a", "b", true) {
        Ok(s) => assert!(s.colored()),
        Err(_) => panic!("patterns should compile"),
    }
}

#[test]
fn entry_actions() {
    let s = make("foo", r"\.txt$");
    assert_eq!(s.entry_action(true, Some("dir.log")), EntryAction::Descend);
    assert_eq!(s.entry_action(false, Some("a.txt")), EntryAction::Scan);
    assert_eq!(s.entry_action(false, Some("A.TXT")), EntryAction::Scan);
    assert_eq!(s.entry_action(false, Some("b.log")), EntryAction::Skip);
    assert_eq!(s.entry_action(false, None), EntryAction::Skip);
}

#[test]
fn txt_filter_finds_one_match() {
    let s = make("foo", r"\.txt$");
    assert_eq!(s.entry_action(false, Some("b.log")), EntryAction::Skip);
    assert_eq!(s.entry_action(false, Some("a.txt")), EntryAction::Scan);
    let lines = split_lines("foo\nbar baz\n");
    let found = all_matches(&s, &lines);
    assert_eq!(found, vec![LineMatch { line_number: 1, start: 0, end: 3 }]);
    assert_eq!(lines[found[0].line_number - 1], "foo\n");
    assert_eq!(render_plain("a.txt", 1, lines[0]), b"a.txt:1:foo\n".to_vec());
}

#[test]
fn no_match_emits_nothing() {
    let s = make("nomatch", ".*");
    let lines = split_lines("foo\nbar\nbaz");
    assert!(all_matches(&s, &lines).is_empty());
    assert_eq!(s.next_match(&lines, 0), None);
}

#[test]
fn line_numbers_follow_every_line() {
    let s = make("x", ".*");
    let lines = split_lines("x\n\ny\nax\nz\nxx");
    let found = all_matches(&s, &lines);
    let numbers: Vec<usize> = found.iter().map(|m| m.line_number).collect();
    assert_eq!(numbers, vec![1, 4, 6]);
    assert_eq!(found[1], LineMatch { line_number: 4, start: 1, end: 2 });
}

#[test]
fn next_match_past_the_end() {
    let s = make("a", ".*");
    let lines = split_lines("a\n");
    assert_eq!(s.next_match(&lines, 1), None);
    assert_eq!(s.next_match(&lines, 7), None);
}

#[test]
fn plain_rendering_is_exact() {
    let out = render_plain("/tmp/x.txt", 3, "hello world\n");
    assert_eq!(out, b"/tmp/x.txt:3:hello world\n".to_vec());
}

#[test]
fn header_with_multi_digit_numbers() {
    assert_eq!(render_header("p", 0), b"p:0:".to_vec());
    assert_eq!(render_header("p", 10), b"p:10:".to_vec());
    assert_eq!(render_header("dir/f.rs", 12345), b"dir/f.rs:12345:".to_vec());
}

#[test]
fn colored_rendering_cuts_around_match() {
    let s = make("world", ".*");
    let line = "hello world!\n";
    let (start, end) = match s.first_match(line) {
        Some(span) => span,
        None => panic!("should match"),
    };
    let c = render_colored("/tmp/x.txt", 3, line, start, end);
    assert_eq!(c.header, b"/tmp/x.txt:3:".to_vec());
    assert_eq!(c.before, b"hello ".to_vec());
    assert_eq!(c.matched, b"world".to_vec());
    assert_eq!(c.after, b"!\n".to_vec());
}

#[test]
fn colored_rendering_of_multibyte_match() {
    let s = make("ö", ".*");
    let line = "wÖrld\n";
    assert_eq!(s.first_match(line), Some((1, 3)));
    let c = render_colored("f", 1, line, 1, 3);
    assert_eq!(c.matched, "Ö".as_bytes().to_vec());
}
