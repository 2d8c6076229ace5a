use sieve::compiler::error::{CompileError, ErrorType, Expectation};
use sieve::compiler::predicates::{compose_index, AddressPart, MimeOpts};
use sieve::compiler::state::{CompilerState, Test};
use sieve::compiler::tokens::{StringItem, Token, TokenInfo, Word};
use sieve::runtime::comparator::{Comparator, MatchType, RelationalMatch};

fn tok(token: Token, line_pos: usize) -> TokenInfo {
    TokenInfo { token, line_num: 3, line_pos }
}

fn tag(word: Word, line_pos: usize) -> TokenInfo {
    tok(Token::Tag(word), line_pos)
}

fn text(s: &str, line_pos: usize) -> TokenInfo {
    tok(Token::String(StringItem::Text(s.to_string())), line_pos)
}

fn is_texts(items: &[StringItem], expected: &[&str]) -> bool {
    items.len() == expected.len()
        && items.iter().zip(expected).all(|(i, e)| matches!(i, StringItem::Text(t) if t == e))
}

fn compile_header(tokens: Vec<TokenInfo>) -> Result<Test, CompileError> {
    CompilerState::new(tokens, Vec::new()).parse_test_header()
}

#[test]
fn index_followed_by_last_is_negative_index() {
    assert_eq!(compose_index(Some(2), true), Some(-2));
    assert_eq!(compose_index(None, true), Some(-1));
    assert_eq!(compose_index(Some(2), false), Some(2));
    assert_eq!(compose_index(None, false), None);
    assert_eq!(compose_index(Some(65535), true), Some(-65535));
    assert_eq!(compose_index(Some(0), true), Some(0));
}

#[test]
fn header_test_with_index_and_last() {
    let tokens = vec![
        tag(Word::Index, 1),
        tok(Token::Number(2), 2),
        tag(Word::Last, 3),
        text("X", 4),
        text("key", 5),
    ];
    match compile_header(tokens) {
        Ok(Test::Header(t)) => {
            assert_eq!(t.index, Some(-2));
            assert!(is_texts(&t.header_list, &["X"]));
            assert!(is_texts(&t.key_list, &["key"]));
            assert_eq!(t.match_type, MatchType::Is);
            assert!(matches!(t.comparator, Comparator::AsciiCaseMap));
            assert!(matches!(t.mime_opts, MimeOpts::Absent));
            assert!(!t.mime_anychild);
            assert!(!t.is_not);
        }
        other => panic!("unexpected {:?}", other),
    }
    match compile_header(vec![tag(Word::Last, 1), text("X", 2), text("k", 3)]) {
        Ok(Test::Header(t)) => assert_eq!(t.index, Some(-1)),
        other => panic!("unexpected {:?}", other),
    }
    match compile_header(vec![tag(Word::Last, 1), tag(Word::Index, 2), tok(Token::Number(7), 3), text("X", 4), text("k", 5)]) {
        Ok(Test::Header(t)) => assert_eq!(t.index, Some(-7)),
        other => panic!("unexpected {:?}", other),
    }
    match compile_header(vec![tag(Word::Index, 2), tok(Token::Number(1), 3), text("X", 4), text("k", 5)]) {
        Ok(Test::Header(t)) => assert_eq!(t.index, Some(1)),
        other => panic!("unexpected {:?}", other),
    }
}

#[test]
fn header_test_reads_match_type_comparator_and_mime() {
    let tokens = vec![
        tag(Word::Mime, 1),
        tag(Word::AnyChild, 2),
        tag(Word::Param, 3),
        tok(Token::BracketOpen, 4),
        text("charset", 5),
        tok(Token::Comma, 6),
        text("name", 7),
        tok(Token::BracketClose, 8),
        tag(Word::Value, 9),
        text("GE", 10),
        tag(Word::Comparator, 11),
        text("i;ascii-numeric", 12),
        tok(Token::BracketOpen, 13),
        text("Content-Type", 14),
        tok(Token::BracketClose, 15),
        text("5", 16),
        tok(Token::Semicolon, 17),
    ];
    let mut state = CompilerState::new(tokens, Vec::new());
    match state.parse_test_header() {
        Ok(Test::Header(t)) => {
            assert_eq!(t.match_type, MatchType::Value(RelationalMatch::Ge));
            assert!(matches!(t.comparator, Comparator::AsciiNumeric));
            assert!(matches!(&t.mime_opts, MimeOpts::Param(p) if is_texts(p, &["charset", "name"])));
            assert!(t.mime_anychild);
            assert!(is_texts(&t.header_list, &["Content-Type"]));
            assert!(is_texts(&t.key_list, &["5"]));
            assert_eq!(t.index, None);
        }
        other => panic!("unexpected {:?}", other),
    }
    assert!(matches!(state.tokens.unwrap_next(), Ok(TokenInfo { token: Token::Semicolon, .. })));
}

#[test]
fn header_test_needs_mime_tag_for_mime_options() {
    let tokens = vec![tag(Word::Type, 1), text("Content-Type", 2), text("text", 3), tok(Token::Semicolon, 4)];
    assert_eq!(
        compile_header(tokens).unwrap_err(),
        CompileError { line_num: 3, line_pos: 4, error_type: ErrorType::MissingMimeTag }
    );
    let tokens = vec![tag(Word::AnyChild, 1), text("X", 2), text("k", 3)];
    assert_eq!(
        compile_header(tokens).unwrap_err(),
        CompileError { line_num: 3, line_pos: 3, error_type: ErrorType::UnexpectedEnd }
    );
    let tokens = vec![tag(Word::Mime, 1), tag(Word::Subtype, 2), text("X", 3), text("k", 4)];
    assert!(matches!(compile_header(tokens), Ok(Test::Header(t)) if matches!(t.mime_opts, MimeOpts::Subtype)));
}

#[test]
fn header_test_rejects_what_it_cannot_read() {
    let tokens = vec![tag(Word::Count, 1), text("about", 2), text("X", 3), text("k", 4)];
    assert_eq!(
        compile_header(tokens).unwrap_err(),
        CompileError { line_num: 3, line_pos: 1, error_type: ErrorType::Expected(Expectation::Relation) }
    );
    assert_eq!(
        Expectation::Relation.message(),
        "\"gt\", \"ge\", \"lt\", \"le\", \"eq\" or \"ne\""
    );
    let tokens = vec![tag(Word::Index, 1), tok(Token::Number(65536), 2), text("X", 3), text("k", 4)];
    assert_eq!(
        compile_header(tokens).unwrap_err(),
        CompileError { line_num: 3, line_pos: 2, error_type: ErrorType::Expected(Expectation::Number) }
    );
    let tokens = vec![tag(Word::Domain, 1), text("X", 2), text("k", 3)];
    assert_eq!(
        compile_header(tokens).unwrap_err(),
        CompileError { line_num: 3, line_pos: 1, error_type: ErrorType::Expected(Expectation::Text) }
    );
    assert_eq!(
        compile_header(vec![text("X", 2)]).unwrap_err(),
        CompileError { line_num: 3, line_pos: 2, error_type: ErrorType::UnexpectedEnd }
    );
}

#[test]
fn address_test_reads_part_and_flags() {
    let tokens = vec![
        tag(Word::Domain, 1),
        tag(Word::List, 2),
        tag(Word::Matches, 3),
        tag(Word::Comparator, 4),
        text("I;Octet", 5),
        tag(Word::Index, 6),
        tok(Token::Number(3), 7),
        tag(Word::Last, 8),
        tag(Word::Mime, 9),
        tag(Word::AnyChild, 10),
        text("From", 11),
        text("*.example.com", 12),
    ];
    match CompilerState::new(tokens, Vec::new()).parse_test_address() {
        Ok(Test::Address(t)) => {
            assert_eq!(t.address_part, AddressPart::Domain);
            assert!(t.list);
            assert_eq!(t.match_type, MatchType::Matches(0));
            assert!(matches!(t.comparator, Comparator::Octet));
            assert_eq!(t.index, Some(-3));
            assert!(t.mime);
            assert!(t.mime_anychild);
            assert!(is_texts(&t.header_list, &["From"]));
            assert!(is_texts(&t.key_list, &["*.example.com"]));
        }
        other => panic!("unexpected {:?}", other),
    }
    match CompilerState::new(vec![text("To", 1), text("me", 2)], Vec::new()).parse_test_address() {
        Ok(Test::Address(t)) => {
            assert_eq!(t.address_part, AddressPart::All);
            assert_eq!(t.index, None);
            assert!(!t.list);
        }
        other => panic!("unexpected {:?}", other),
    }
}

#[test]
fn string_test_reads_source_and_keys() {
    let tokens = vec![
        tag(Word::List, 1),
        text("${var}", 2),
        tag(Word::Comparator, 3),
        text("i;custom", 4),
        tag(Word::Regex, 5),
        tok(Token::BracketOpen, 6),
        text("a", 7),
        tok(Token::Comma, 8),
        text("b", 9),
        tok(Token::BracketClose, 10),
    ];
    match CompilerState::new(tokens, Vec::new()).parse_test_string() {
        Ok(Test::String(t)) => {
            assert_eq!(t.match_type, MatchType::Regex(0));
            assert!(matches!(&t.comparator, Comparator::Other(name) if name == "i;custom"));
            assert!(is_texts(&t.source, &["${var}"]));
            assert!(is_texts(&t.key_list, &["a", "b"]));
        }
        other => panic!("unexpected {:?}", other),
    }
    let tokens = vec![tag(Word::Index, 1), tok(Token::Number(1), 2), text("a", 3), text("b", 4)];
    assert_eq!(
        CompilerState::new(tokens, Vec::new()).parse_test_string().unwrap_err(),
        CompileError { line_num: 3, line_pos: 1, error_type: ErrorType::Expected(Expectation::Text) }
    );
}
