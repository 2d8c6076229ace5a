use sieve::runtime::comparator::{
    order_chars, Comparator, MatchType, NumericOrder, Order, RelationalMatch,
};
use sieve::runtime::glob::{glob_match, glob_match_capture, select};
use sieve::runtime::matching::{apply_regex, regex_is_valid, RegexResult};

fn numeric(a: &str, b: &str) -> NumericOrder {
    match (a.parse::<f64>(), b.parse::<f64>()) {
        (Ok(x), Ok(y)) => match x.partial_cmp(&y) {
            Some(std::cmp::Ordering::Less) => NumericOrder::Ordered(Order::Less),
            Some(std::cmp::Ordering::Equal) => NumericOrder::Ordered(Order::Equal),
            Some(std::cmp::Ordering::Greater) => NumericOrder::Ordered(Order::Greater),
            None => NumericOrder::Unordered,
        },
        _ => NumericOrder::NotNumbers,
    }
}

fn stale() -> Vec<(usize, String)> {
    vec![(9, "stale".to_string())]
}

#[test]
fn octet_is_case_sensitive_and_casemap_is_not() {
    assert!(!Comparator::Octet.is("ABC", "abc", numeric("ABC", "abc")));
    assert!(Comparator::AsciiCaseMap.is("ABC", "abc", numeric("ABC", "abc")));
    assert!(Comparator::Octet.is("abc", "abc", NumericOrder::NotNumbers));
    assert!(!Comparator::AsciiCaseMap.is("abc", "abd", NumericOrder::NotNumbers));
    assert!(Comparator::Other("i;custom".to_string()).is("ABC", "abc", NumericOrder::NotNumbers));
    assert!(!Comparator::Octet.is("abc", "abcd", NumericOrder::NotNumbers));
    assert!(Comparator::Octet.is("", "", NumericOrder::NotNumbers));
}

#[test]
fn ascii_numeric_never_matches_texts_that_are_no_numbers() {
    assert!(!Comparator::AsciiNumeric.is("abc", "abc", numeric("abc", "abc")));
    assert!(Comparator::AsciiNumeric.is("1.0", "1", numeric("1.0", "1")));
    assert!(!Comparator::AsciiNumeric.is("1", "2", numeric("1", "2")));
    assert!(!Comparator::AsciiNumeric.is("NaN", "NaN", numeric("NaN", "NaN")));
    for relation in [
        RelationalMatch::Gt,
        RelationalMatch::Ge,
        RelationalMatch::Lt,
        RelationalMatch::Le,
        RelationalMatch::Eq,
        RelationalMatch::Ne,
    ] {
        assert!(!Comparator::AsciiNumeric.relational(&relation, "abc", "abc", numeric("abc", "abc")));
    }
    assert!(Comparator::AsciiNumeric.relational(&RelationalMatch::Gt, "10", "9", numeric("10", "9")));
    assert!(!Comparator::Octet.relational(&RelationalMatch::Gt, "10", "9", numeric("10", "9")));
    assert!(Comparator::AsciiNumeric.relational(&RelationalMatch::Ne, "NaN", "1", numeric("NaN", "1")));
    assert!(!Comparator::AsciiNumeric.relational(&RelationalMatch::Eq, "NaN", "NaN", numeric("NaN", "NaN")));
}

#[test]
fn contains_under_comparators() {
    assert!(Comparator::Octet.contains("hello world", "lo w"));
    assert!(!Comparator::Octet.contains("hello world", "LO W"));
    assert!(Comparator::AsciiCaseMap.contains("hello world", "LO W"));
    assert!(Comparator::AsciiNumeric.contains("Hello", "ELL"));
    assert!(Comparator::Octet.contains("abc", ""));
    assert!(Comparator::Octet.contains("", ""));
    assert!(!Comparator::Octet.contains("ab", "abc"));
    assert!(Comparator::Octet.contains("aab", "ab"));
}

#[test]
fn relational_orders_texts() {
    let n = NumericOrder::NotNumbers;
    assert!(Comparator::Octet.relational(&RelationalMatch::Lt, "abc", "abd", n));
    assert!(Comparator::Octet.relational(&RelationalMatch::Lt, "ab", "abc", n));
    assert!(Comparator::Octet.relational(&RelationalMatch::Gt, "b", "abc", n));
    assert!(Comparator::Octet.relational(&RelationalMatch::Lt, "B", "a", n));
    assert!(Comparator::AsciiCaseMap.relational(&RelationalMatch::Gt, "B", "a", n));
    assert!(Comparator::AsciiCaseMap.relational(&RelationalMatch::Eq, "ABC", "abc", n));
    assert!(Comparator::Octet.relational(&RelationalMatch::Ne, "ABC", "abc", n));
    assert!(Comparator::Octet.relational(&RelationalMatch::Ge, "abc", "abc", n));
    assert!(Comparator::Octet.relational(&RelationalMatch::Le, "abc", "abc", n));
    assert!(!Comparator::Octet.relational(&RelationalMatch::Le, "abd", "abc", n));
}

#[test]
fn order_of_characters_is_lexicographic() {
    let chars = |s: &str| s.chars().collect::<Vec<char>>();
    assert_eq!(order_chars(&chars(""), &chars("")), Order::Equal);
    assert_eq!(order_chars(&chars(""), &chars("a")), Order::Less);
    assert_eq!(order_chars(&chars("a"), &chars("")), Order::Greater);
    assert_eq!(order_chars(&chars("é"), &chars("z")), Order::Greater);
    assert!(Comparator::AsciiCaseMap.is("ÀbC", "àBc", NumericOrder::NotNumbers));
}

#[test]
fn glob_matches_wildcards() {
    assert!(glob_match("hello", "he*lo", false));
    assert!(glob_match("hello", "h?llo", false));
    assert!(glob_match("hello", "*", false));
    assert!(glob_match("", "*", false));
    assert!(glob_match("", "", false));
    assert!(!glob_match("", "?", false));
    assert!(!glob_match("hello", "he*la", false));
    assert!(!glob_match("hello", "hello?", false));
    assert!(!glob_match("HELLO", "he*lo", false));
    assert!(glob_match("HELLO", "he*LO", true));
    assert!(glob_match("aXbXc", "a*b*c", false));
    assert!(glob_match("abcbc", "a*bc", false));
    assert!(!glob_match("abcbcd", "a*bc", false));
}

#[test]
fn glob_capture_of_bit_one_is_first_wildcard() {
    let mut captured = stale();
    assert!(glob_match_capture("hello", "he*lo", false, 0b10, &mut captured));
    assert_eq!(captured, vec![(1, "l".to_string())]);
}

#[test]
fn glob_capture_replaces_only_on_match() {
    let mut captured = stale();
    assert!(!glob_match_capture("hello", "he*la", false, 0b10, &mut captured));
    assert_eq!(captured, stale());
    assert!(glob_match_capture("hello", "hello", false, 0b10, &mut captured));
    assert!(captured.is_empty());
}

#[test]
fn glob_captures_are_shortest_first() {
    let mut captured = Vec::new();
    assert!(glob_match_capture("ab-cd-ef", "*-*", false, 0b111, &mut captured));
    assert_eq!(
        captured,
        vec![(0, "ab-cd-ef".to_string()), (1, "ab".to_string()), (2, "cd-ef".to_string())]
    );
    assert!(glob_match_capture("coyote@desert.example.com", "*@**.com", false, 0b1110, &mut captured));
    assert_eq!(
        captured,
        vec![(1, "coyote".to_string()), (2, "".to_string()), (3, "desert.example".to_string())]
    );
    assert!(glob_match_capture("AbC", "?b?", true, 0b1010, &mut captured));
    assert_eq!(captured, vec![(1, "a".to_string())]);
    assert!(glob_match_capture("abc", "a?c", false, 1 << 63, &mut captured));
    assert!(captured.is_empty());
}

#[test]
fn comparator_matches_folds_only_for_casemap() {
    let mut captured = stale();
    assert!(Comparator::AsciiCaseMap.matches("HeLLo", "h*O", 0, &mut captured));
    assert_eq!(captured, stale());
    assert!(!Comparator::Octet.matches("HeLLo", "h*O", 0, &mut captured));
    assert!(!Comparator::Other("x".to_string()).matches("HeLLo", "h*O", 0, &mut captured));
    assert!(Comparator::AsciiCaseMap.matches("HeLLo", "h*O", 0b11, &mut captured));
    assert_eq!(captured, vec![(0, "hello".to_string()), (1, "ell".to_string())]);
}

#[test]
fn regex_publishes_asked_groups() {
    let mut captured = stale();
    assert!(Comparator::Octet.regex("user@example.com", "^(.+)@(.+)$", 0b101, &mut captured));
    assert_eq!(
        captured,
        vec![(0, "user@example.com".to_string()), (2, "example.com".to_string())]
    );
    assert!(Comparator::Octet.regex("ab", "(a)|(x)(b)", 0b1110, &mut captured));
    assert_eq!(captured, vec![(1, "a".to_string())]);
}

#[test]
fn regex_clears_on_match_and_keeps_on_no_match() {
    let mut captured = stale();
    assert!(!Comparator::Octet.regex("hello", "^x+$", 0b10, &mut captured));
    assert_eq!(captured, stale());
    assert!(Comparator::Octet.regex("hello", "^h", 0b10, &mut captured));
    assert!(captured.is_empty());
    let mut captured = stale();
    assert!(Comparator::Octet.regex("hello", "l+", 0, &mut captured));
    assert_eq!(captured, stale());
}

#[test]
fn regex_that_does_not_compile_matches_nothing() {
    let mut captured = stale();
    assert!(!Comparator::Octet.regex("hello", "(unclosed", 0b1, &mut captured));
    assert_eq!(captured, stale());
    assert!(!regex_is_valid("(unclosed"));
    assert!(regex_is_valid("^a+$"));
}

#[test]
fn apply_regex_goes_by_the_outcome() {
    let mut captured = stale();
    assert!(!apply_regex(RegexResult::Invalid, 1, &mut captured));
    assert!(!apply_regex(RegexResult::NoMatch, 1, &mut captured));
    assert_eq!(captured, stale());
    let groups = vec![Some("ab".to_string()), None, Some("b".to_string())];
    assert!(apply_regex(RegexResult::Groups(groups), 0b1111, &mut captured));
    assert_eq!(captured, vec![(0, "ab".to_string()), (2, "b".to_string())]);
}

#[test]
fn select_goes_by_bits() {
    let groups = vec![Some("zero".to_string()), Some("one".to_string()), None];
    assert!(select(&groups, 0).is_empty());
    assert_eq!(select(&groups, 0b10), vec![(1, "one".to_string())]);
    assert_eq!(
        select(&groups, u64::MAX),
        vec![(0, "zero".to_string()), (1, "one".to_string())]
    );
}

#[test]
fn match_value_dispatches_on_match_type() {
    let mut captured = stale();
    let n = NumericOrder::NotNumbers;
    let casemap = Comparator::AsciiCaseMap;
    assert!(MatchType::Is.match_value("ABC", "abc", &casemap, n, &mut captured));
    assert!(MatchType::Contains.match_value("xABCx", "abc", &casemap, n, &mut captured));
    assert!(MatchType::Value(RelationalMatch::Lt).match_value("a", "b", &casemap, n, &mut captured));
    assert!(!MatchType::Count(RelationalMatch::Eq).match_value("1", "1", &casemap, n, &mut captured));
    assert!(!MatchType::List.match_value("a", "a", &casemap, n, &mut captured));
    assert_eq!(captured, stale());
    assert!(MatchType::Matches(0b10).match_value("Hello", "h*", &casemap, n, &mut captured));
    assert_eq!(captured, vec![(1, "ello".to_string())]);
    assert!(MatchType::Regex(0b10).match_value("Hello", "H(.)", &Comparator::Octet, n, &mut captured));
    assert_eq!(captured, vec![(1, "e".to_string())]);
    assert!(!MatchType::Regex(0b10).match_value("Hello", "x", &Comparator::Octet, n, &mut captured));
    assert_eq!(captured, vec![(1, "e".to_string())]);
}
