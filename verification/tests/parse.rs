use dictstore::parse::{parse_cc_cedict, parse_cc_cedict_line, ParseError};

#[test]
fn parses_valid_line() {
    let w = parse_cc_cedict_line("中國 中国 [Zhong1 guo2] /China/country/").unwrap();
    assert_eq!(w.traditional, "中國");
    assert_eq!(w.simplified, "中国");
    assert_eq!(w.pinyin, vec!["Zhong1".to_string(), "guo2".to_string()]);
    assert_eq!(w.defs, vec!["China".to_string(), "country".to_string()]);
}

#[test]
fn missing_bracket_is_rejected() {
    let e = parse_cc_cedict_line("中國 中国 Zhong1 guo2] /China/").unwrap_err();
    assert!(matches!(e, ParseError::ExpectedBracket));
    assert_eq!(e.message(), "Expected [");
}

#[test]
fn missing_space_is_rejected() {
    let e = parse_cc_cedict_line("word-without-spaces").unwrap_err();
    assert!(matches!(e, ParseError::MissingSimplified));
    assert_eq!(e.message(), "Could not read simplified");
}

#[test]
fn missing_second_space_is_rejected() {
    let e = parse_cc_cedict_line("中國 中国[Zhong1]/China/").unwrap_err();
    assert!(matches!(e, ParseError::MissingSimplified));
}

#[test]
fn missing_pinyin_delimiter_is_rejected() {
    let e = parse_cc_cedict_line("中國 中国 [Zhong1 guo2 /China/").unwrap_err();
    assert!(matches!(e, ParseError::MissingPinyin));
    assert_eq!(e.message(), "Could not read pinyin");
}

#[test]
fn empty_definition_segments_are_dropped() {
    let w = parse_cc_cedict_line("a b [c1] /x//y/").unwrap();
    assert_eq!(w.defs, vec!["x".to_string(), "y".to_string()]);
}

#[test]
fn pinyin_splits_on_runs_of_whitespace() {
    let w = parse_cc_cedict_line("a b [c1  c2\tc3] /x/").unwrap();
    assert_eq!(
        w.pinyin,
        vec!["c1".to_string(), "c2".to_string(), "c3".to_string()]
    );
}

#[test]
fn empty_pinyin_field_gives_no_syllables() {
    let w = parse_cc_cedict_line("a b [] /x/").unwrap();
    assert_eq!(w.pinyin, Vec::<String>::new());
}

#[test]
fn leading_comments_are_skipped() {
    let text = "# comment one\n# comment two\n中國 中国 [Zhong1 guo2] /China/country/";
    let ws = parse_cc_cedict(text).unwrap();
    assert_eq!(ws.len(), 1);
    assert_eq!(ws[0].simplified, "中国");
    assert_eq!(ws[0].pinyin, vec!["Zhong1".to_string(), "guo2".to_string()]);
}

#[test]
fn error_line_index_counts_comment_lines() {
    let text = "# comment one\n# comment two\n中國 中国 Zhong1 guo2] /China/";
    let e = parse_cc_cedict(text).unwrap_err();
    assert_eq!(e.line, 2);
    assert!(matches!(e.cause, ParseError::ExpectedBracket));
    assert_eq!(e.cause.message(), "Expected [");
}

#[test]
fn later_comment_lines_are_not_skipped() {
    let text = "a b [c1] /x/\n# not a leading comment";
    let e = parse_cc_cedict(text).unwrap_err();
    assert_eq!(e.line, 1);
    assert!(matches!(e.cause, ParseError::ExpectedBracket));
}

#[test]
fn empty_text_parses_to_no_entries() {
    assert_eq!(parse_cc_cedict("").unwrap().len(), 0);
}

#[test]
fn all_comment_text_parses_to_no_entries() {
    assert_eq!(parse_cc_cedict("# a\n# b\n").unwrap().len(), 0);
}

#[test]
fn crlf_line_endings_are_handled() {
    let text = "# c\r\na b [c1] /x/\r\nd e [f1] /y/\r\n";
    let ws = parse_cc_cedict(text).unwrap();
    assert_eq!(ws.len(), 2);
    assert_eq!(ws[0].traditional, "a");
    assert_eq!(ws[0].defs, vec!["x".to_string()]);
    assert_eq!(ws[1].traditional, "d");
    assert_eq!(ws[1].defs, vec!["y".to_string()]);
}

#[test]
fn failure_reports_first_bad_line() {
    let text = "a b [c1] /x/\nbroken\nd e [f1] /y/";
    let e = parse_cc_cedict(text).unwrap_err();
    assert_eq!(e.line, 1);
    assert!(matches!(e.cause, ParseError::MissingSimplified));
}
