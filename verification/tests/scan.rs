use stream_resolver::scan::{
    between, between_range, cut_after_js, cut_chars, regex_may_start_at, scan_step, Literal,
    ScanState,
};

#[test]
fn between_takes_the_text_between_two_delimiters() {
    assert_eq!(between("a=b=c", "a=", "=c"), "b");
}

#[test]
fn between_is_empty_without_the_left_delimiter() {
    assert_eq!(between("a=b=c", "x=", "=c"), "");
}

#[test]
fn between_is_empty_without_the_right_delimiter() {
    assert_eq!(between("a=b=c", "a=", "=d"), "");
}

#[test]
fn between_wants_the_right_delimiter_behind_the_left_one() {
    assert_eq!(between("=c a=", "a=", "=c"), "");
}

#[test]
fn between_stops_at_the_first_right_delimiter() {
    assert_eq!(between("x(one)(two)", "(", ")"), "one");
    assert_eq!(between("k=codecs=\"vp9\"; q=\"hi\"", "codecs=\"", "\""), "vp9");
}

#[test]
fn between_starts_at_the_first_left_delimiter() {
    assert_eq!(between("[a][b]", "[", "]"), "a");
}

#[test]
fn between_may_find_nothing_between() {
    assert_eq!(between("ab", "a", "b"), "");
}

#[test]
fn between_counts_characters_not_bytes() {
    assert_eq!(between("é<ü>ö", "<", ">"), "ü");
}

#[test]
fn cut_after_js_stops_at_the_first_balanced_brace() {
    assert_eq!(cut_after_js("{\"a\":1}{\"b\":2}"), Some("{\"a\":1}".to_string()));
}

#[test]
fn cut_after_js_skips_a_brace_inside_a_string() {
    assert_eq!(cut_after_js("{\"a\":\"}\"}"), Some("{\"a\":\"}\"}".to_string()));
}

#[test]
fn cut_after_js_needs_an_opening_bracket() {
    assert_eq!(cut_after_js("abc"), None);
    assert_eq!(cut_after_js(""), None);
    assert_eq!(cut_after_js("\"{}\""), None);
    assert_eq!(cut_after_js("}{"), None);
}

#[test]
fn cut_after_js_cuts_arrays() {
    assert_eq!(cut_after_js("[1,[2,3]],4]"), Some("[1,[2,3]]".to_string()));
}

#[test]
fn cut_after_js_counts_only_the_bracket_it_started_with() {
    assert_eq!(cut_after_js("[{]}"), Some("[{]".to_string()));
    assert_eq!(cut_after_js("{[}]"), Some("{[}".to_string()));
}

#[test]
fn cut_after_js_counts_nested_braces() {
    assert_eq!(cut_after_js("{a:{b:{}}}}"), Some("{a:{b:{}}}".to_string()));
}

#[test]
fn cut_after_js_is_none_for_an_unclosed_region() {
    assert_eq!(cut_after_js("{\"a\":1"), None);
    assert_eq!(cut_after_js("{\"a\":\"}"), None);
    assert_eq!(cut_after_js("[[]"), None);
}

#[test]
fn cut_after_js_skips_single_quotes_and_backticks() {
    assert_eq!(cut_after_js("{a:'}'}x"), Some("{a:'}'}".to_string()));
    assert_eq!(cut_after_js("{a:`}`}x"), Some("{a:`}`}".to_string()));
}

#[test]
fn cut_after_js_keeps_an_escaped_quote_inside_a_string() {
    assert_eq!(cut_after_js("{\"a\":\"\\\"}\"}x"), Some("{\"a\":\"\\\"}\"}".to_string()));
}

#[test]
fn cut_after_js_ends_a_string_behind_an_escaped_backslash() {
    assert_eq!(cut_after_js("{\"a\":\"\\\\\"}x"), Some("{\"a\":\"\\\\\"}".to_string()));
}

#[test]
fn cut_after_js_does_not_count_an_escaped_bracket() {
    assert_eq!(cut_after_js("{\\}}"), Some("{\\}}".to_string()));
}

#[test]
fn cut_after_js_skips_a_regex_literal_behind_a_colon() {
    assert_eq!(cut_after_js("{a:/}/}x"), Some("{a:/}/}".to_string()));
}

#[test]
fn cut_after_js_skips_a_regex_literal_behind_a_colon_and_a_blank() {
    assert_eq!(cut_after_js("{a: /}/}x"), Some("{a: /}/}".to_string()));
}

#[test]
fn cut_after_js_takes_a_slash_behind_a_number_for_a_division() {
    assert_eq!(cut_after_js("{a:1/2}/}"), Some("{a:1/2}".to_string()));
}

#[test]
fn cut_after_js_takes_a_slash_behind_two_blanks_for_a_division() {
    assert_eq!(cut_after_js("{a:  /}/}"), Some("{a:  /}".to_string()));
}

#[test]
fn cut_after_js_looks_back_no_further_than_the_start() {
    assert_eq!(cut_after_js("{/}/}"), Some("{/}/}".to_string()));
    assert_eq!(cut_after_js("[/]/]"), Some("[/]/]".to_string()));
}

#[test]
fn cut_after_js_looks_back_behind_ten_characters() {
    assert_eq!(cut_after_js("{abcdefghijk,/}/}x"), Some("{abcdefghijk,/}/}".to_string()));
    assert_eq!(cut_after_js("{abcdefghijk/}/}x"), Some("{abcdefghijk/}".to_string()));
}

#[test]
fn cut_after_js_returns_a_prefix_of_non_ascii_text() {
    assert_eq!(cut_after_js("{\"é\":\"ü}\"}ö"), Some("{\"é\":\"ü}\"}".to_string()));
}

fn chars(s: &str) -> Vec<char> {
    s.chars().collect()
}

fn outside(depth: usize) -> ScanState {
    ScanState { escaped: false, literal: None, depth }
}

#[test]
fn between_range_gives_the_bounds_of_the_text_between() {
    assert_eq!(between_range(&chars("a=b=c"), &chars("a="), &chars("=c")), (2, 3));
    assert_eq!(between_range(&chars("a=b=c"), &chars("x"), &chars("=c")), (0, 0));
    assert_eq!(between_range(&chars("ab"), &chars("a"), &chars("b")), (1, 1));
}

#[test]
fn cut_chars_gives_the_length_of_the_region() {
    assert_eq!(cut_chars(&chars("{a}{b}")), Some(3));
    assert_eq!(cut_chars(&chars("[]")), Some(2));
    assert_eq!(cut_chars(&chars("{")), None);
    assert_eq!(cut_chars(&chars("x{}")), None);
}

#[test]
fn scan_step_counts_brackets_outside_literals() {
    assert_eq!(scan_step(outside(0), '{', '{', '}', false), Some(outside(1)));
    assert_eq!(scan_step(outside(1), '{', '{', '}', false), Some(outside(2)));
    assert_eq!(scan_step(outside(2), '}', '{', '}', false), Some(outside(1)));
    assert_eq!(scan_step(outside(1), '}', '{', '}', false), None);
    assert_eq!(scan_step(outside(1), ']', '{', '}', false), Some(outside(1)));
    assert_eq!(scan_step(outside(1), 'x', '{', '}', true), Some(outside(1)));
    assert_eq!(scan_step(outside(0), 'x', '{', '}', false), None);
    assert_eq!(scan_step(outside(0), '}', '{', '}', false), None);
}

#[test]
fn scan_step_enters_and_leaves_literals() {
    let inside = |l| ScanState { escaped: false, literal: Some(l), depth: 1 };
    assert_eq!(scan_step(outside(1), '"', '{', '}', false), Some(inside(Literal::Double)));
    assert_eq!(scan_step(outside(1), '\'', '{', '}', false), Some(inside(Literal::Single)));
    assert_eq!(scan_step(outside(1), '`', '{', '}', false), Some(inside(Literal::Backtick)));
    assert_eq!(scan_step(outside(1), '/', '{', '}', true), Some(inside(Literal::Regex)));
    assert_eq!(scan_step(outside(1), '/', '{', '}', false), Some(outside(1)));
    assert_eq!(scan_step(inside(Literal::Double), '"', '{', '}', false), Some(outside(1)));
    assert_eq!(
        scan_step(inside(Literal::Double), '\'', '{', '}', false),
        Some(inside(Literal::Double))
    );
    assert_eq!(
        scan_step(inside(Literal::Double), '}', '{', '}', false),
        Some(inside(Literal::Double))
    );
    assert_eq!(scan_step(inside(Literal::Regex), '/', '{', '}', true), Some(outside(1)));
}

#[test]
fn scan_step_skips_an_escaped_character() {
    let escaped = |literal| ScanState { escaped: true, literal, depth: 1 };
    let unescaped = |literal| ScanState { escaped: false, literal, depth: 1 };
    assert_eq!(scan_step(outside(1), '\\', '{', '}', false), Some(escaped(None)));
    assert_eq!(scan_step(escaped(None), '}', '{', '}', false), Some(unescaped(None)));
    assert_eq!(scan_step(escaped(None), '\\', '{', '}', false), Some(unescaped(None)));
    assert_eq!(scan_step(escaped(None), '"', '{', '}', false), Some(unescaped(None)));
    let double = Some(Literal::Double);
    assert_eq!(scan_step(unescaped(double), '\\', '{', '}', false), Some(escaped(double)));
    assert_eq!(scan_step(escaped(double), '"', '{', '}', false), Some(unescaped(double)));
}

#[test]
fn regex_may_start_at_looks_at_the_text_before() {
    assert!(regex_may_start_at(&chars("/"), 0));
    assert!(regex_may_start_at(&chars("a,/"), 2));
    assert!(regex_may_start_at(&chars("a;\t/"), 3));
    assert!(regex_may_start_at(&chars(" /"), 1));
    assert!(!regex_may_start_at(&chars("a/"), 1));
    assert!(!regex_may_start_at(&chars("a) /"), 3));
    assert!(!regex_may_start_at(&chars(",  /"), 3));
    assert!(!regex_may_start_at(&chars("0123456789 /"), 11));
    assert!(regex_may_start_at(&chars("0123456789: /"), 12));
}
