use sieve::compiler::error::{Capability, CompileError, ErrorType, Expectation};
use sieve::compiler::redirect::{parse_notify_items, ByMode, ByTime, Notify, NotifyItem, Ret};
use sieve::compiler::state::{CompilerState, Instruction, Test};
use sieve::compiler::tokens::{Fragment, StringItem, Token, TokenInfo, Tokens, Word};

fn tok(token: Token, line_pos: usize) -> TokenInfo {
    TokenInfo { token, line_num: 1, line_pos }
}

fn tag(word: Word, line_pos: usize) -> TokenInfo {
    tok(Token::Tag(word), line_pos)
}

fn text(s: &str, line_pos: usize) -> TokenInfo {
    tok(Token::String(StringItem::Text(s.to_string())), line_pos)
}

fn all_capabilities() -> Vec<Capability> {
    vec![
        Capability::Copy,
        Capability::ExtLists,
        Capability::RedirectDeliverBy,
        Capability::RedirectDsn,
    ]
}

fn redirect_of(state: &CompilerState) -> &sieve::compiler::redirect::Redirect {
    match state.instructions.last() {
        Some(Instruction::Redirect(r)) => r,
        other => panic!("no redirect: {:?}", other),
    }
}

fn is_text(item: &StringItem, expected: &str) -> bool {
    matches!(item, StringItem::Text(t) if t == expected)
}

#[test]
fn redirect_plain_address() {
    let mut state = CompilerState::new(vec![text("a@b.c", 10)], Vec::new());
    assert_eq!(state.parse_redirect(), Ok(()));
    let r = redirect_of(&state);
    assert!(is_text(&r.address, "a@b.c"));
    assert!(!r.copy);
    assert!(!r.list);
    assert!(matches!(r.notify, Notify::Default));
    assert_eq!(r.return_of_content, Ret::Default);
    assert!(matches!(r.by_time, ByTime::Unlimited));
    assert!(state.tokens.is_empty());
}

#[test]
fn redirect_all_clauses() {
    let tokens = vec![
        tag(Word::Copy, 1),
        tag(Word::List, 2),
        tag(Word::ByTrace, 3),
        tag(Word::ByMode, 4),
        text("RETURN", 5),
        tag(Word::ByTimeRelative, 6),
        tok(Token::Number(3600), 7),
        tag(Word::Ret, 8),
        text("Hdrs", 9),
        tag(Word::Notify, 10),
        text("success, bogus ,DELAY", 11),
        text("a@b.c", 12),
        tok(Token::Semicolon, 13),
    ];
    let mut state = CompilerState::new(tokens, all_capabilities());
    assert_eq!(state.parse_redirect(), Ok(()));
    let r = redirect_of(&state);
    assert!(r.copy);
    assert!(r.list);
    assert_eq!(r.return_of_content, Ret::Hdrs);
    match &r.notify {
        Notify::Items(items) => assert_eq!(items, &vec![NotifyItem::Success, NotifyItem::Delay]),
        other => panic!("unexpected {:?}", other),
    }
    match &r.by_time {
        ByTime::Relative { rlimit, mode, trace } => {
            assert_eq!(*rlimit, 3600);
            assert_eq!(*mode, ByMode::Return);
            assert!(*trace);
        }
        other => panic!("unexpected {:?}", other),
    }
    assert!(!state.tokens.is_empty());
    assert!(matches!(
        state.tokens.unwrap_next(),
        Ok(TokenInfo { token: Token::Semicolon, .. })
    ));
}

#[test]
fn redirect_absolute_limit_wins_over_relative() {
    let tokens = vec![
        tag(Word::ByTimeAbsolute, 1),
        text("2024-01-01T00:00:00Z", 2),
        tag(Word::ByTimeRelative, 3),
        tok(Token::Number(5), 4),
        tag(Word::ByMode, 5),
        text("notify", 6),
        text("a@b.c", 7),
    ];
    let mut state = CompilerState::new(tokens, all_capabilities());
    assert_eq!(state.parse_redirect(), Ok(()));
    match &redirect_of(&state).by_time {
        ByTime::Absolute { alimit, mode, trace } => {
            assert!(is_text(alimit, "2024-01-01T00:00:00Z"));
            assert_eq!(*mode, ByMode::Notify);
            assert!(!*trace);
        }
        other => panic!("unexpected {:?}", other),
    }
}

#[test]
fn redirect_clause_without_capability_fails() {
    let cases = [
        (Word::Copy, Capability::Copy, 1usize),
        (Word::List, Capability::ExtLists, 2),
        (Word::ByTrace, Capability::RedirectDeliverBy, 3),
        (Word::ByMode, Capability::RedirectDeliverBy, 4),
        (Word::ByTimeRelative, Capability::RedirectDeliverBy, 5),
        (Word::ByTimeAbsolute, Capability::RedirectDeliverBy, 5),
        (Word::Ret, Capability::RedirectDsn, 6),
        (Word::Notify, Capability::RedirectDsn, 7),
    ];
    for (word, capability, argument) in cases {
        let granted: Vec<Capability> = all_capabilities()
            .into_iter()
            .filter(|c| *c != capability)
            .collect();
        let mut state = CompilerState::new(vec![tag(word, 7), text("a@b.c", 9)], granted);
        assert_eq!(
            state.parse_redirect(),
            Err(CompileError {
                line_num: 1,
                line_pos: 7,
                error_type: ErrorType::UndeclaredCapability { capability, argument },
            })
        );
        assert!(state.instructions.is_empty());
    }
}

#[test]
fn redirect_clause_with_capability_succeeds() {
    let mut state = CompilerState::new(
        vec![tag(Word::Copy, 1), text("a@b.c", 2)],
        vec![Capability::Copy],
    );
    assert_eq!(state.parse_redirect(), Ok(()));
    assert!(redirect_of(&state).copy);
}

#[test]
fn redirect_unknown_keywords_name_the_alternatives() {
    let mut state = CompilerState::new(
        vec![tag(Word::ByMode, 3), text("later", 4), text("a@b.c", 5)],
        all_capabilities(),
    );
    let err = state.parse_redirect().unwrap_err();
    assert_eq!(
        err,
        CompileError { line_num: 1, line_pos: 3, error_type: ErrorType::Expected(Expectation::ByMode) }
    );
    assert_eq!(Expectation::ByMode.message(), "\"notify\" or \"return\"");

    let mut state = CompilerState::new(
        vec![tag(Word::Ret, 3), text("body", 4), text("a@b.c", 5)],
        all_capabilities(),
    );
    let err = state.parse_redirect().unwrap_err();
    assert_eq!(err.error_type, ErrorType::Expected(Expectation::Ret));
    assert_eq!(Expectation::Ret.message(), "\"FULL\" or \"HDRS\"");

    for list in ["", "bogus", " , ,"] {
        let mut state = CompilerState::new(
            vec![tag(Word::Notify, 3), text(list, 4), text("a@b.c", 5)],
            all_capabilities(),
        );
        let err = state.parse_redirect().unwrap_err();
        assert_eq!(err.error_type, ErrorType::Expected(Expectation::NotifyItems));
    }
    assert_eq!(
        Expectation::NotifyItems.message(),
        "\"NEVER\" or \"SUCCESS, FAILURE, DELAY, ..\""
    );
}

#[test]
fn redirect_notify_never() {
    let mut state = CompilerState::new(
        vec![tag(Word::Notify, 3), text("Never", 4), text("a@b.c", 5)],
        all_capabilities(),
    );
    assert_eq!(state.parse_redirect(), Ok(()));
    assert!(matches!(redirect_of(&state).notify, Notify::Never));
}

#[test]
fn redirect_errors_on_missing_or_wrong_tokens() {
    let mut state = CompilerState::new(Vec::new(), Vec::new());
    assert_eq!(
        state.parse_redirect(),
        Err(CompileError { line_num: 0, line_pos: 0, error_type: ErrorType::UnexpectedEnd })
    );
    let mut state = CompilerState::new(vec![tag(Word::Copy, 4)], all_capabilities());
    assert_eq!(
        state.parse_redirect(),
        Err(CompileError { line_num: 1, line_pos: 4, error_type: ErrorType::UnexpectedEnd })
    );
    let mut state = CompilerState::new(vec![tok(Token::Number(1), 2)], Vec::new());
    assert_eq!(
        state.parse_redirect(),
        Err(CompileError { line_num: 1, line_pos: 2, error_type: ErrorType::Expected(Expectation::Text) })
    );
    let mut state = CompilerState::new(
        vec![tag(Word::ByTimeRelative, 1), text("soon", 2)],
        all_capabilities(),
    );
    assert_eq!(
        state.parse_redirect(),
        Err(CompileError { line_num: 1, line_pos: 2, error_type: ErrorType::Expected(Expectation::Number) })
    );
    let parts = StringItem::Parts(vec![Fragment::Variable("x".to_string())]);
    let mut state = CompilerState::new(
        vec![tag(Word::ByMode, 1), tok(Token::String(parts), 2)],
        all_capabilities(),
    );
    assert_eq!(
        state.parse_redirect(),
        Err(CompileError {
            line_num: 1,
            line_pos: 2,
            error_type: ErrorType::Expected(Expectation::StaticText)
        })
    );
}

#[test]
fn notify_items_are_read_in_order() {
    assert_eq!(
        parse_notify_items("SUCCESS,failure , Delay"),
        vec![NotifyItem::Success, NotifyItem::Failure, NotifyItem::Delay]
    );
    assert_eq!(
        parse_notify_items("delay,,delay,other"),
        vec![NotifyItem::Delay, NotifyItem::Delay]
    );
    assert_eq!(parse_notify_items("\u{a0}failure\u{2003}"), vec![NotifyItem::Failure]);
    assert!(parse_notify_items("suc cess").is_empty());
    assert!(parse_notify_items("").is_empty());
}

#[test]
fn convert_action_and_test() {
    let tokens = vec![
        text("image/tiff", 1),
        text("image/jpeg", 2),
        tok(Token::BracketOpen, 3),
        text("pix-x=320", 4),
        tok(Token::Comma, 5),
        text("pix-y=240", 6),
        tok(Token::BracketClose, 7),
    ];
    let mut state = CompilerState::new(tokens, Vec::new());
    assert_eq!(state.parse_convert(), Ok(()));
    match state.instructions.last() {
        Some(Instruction::Convert(c)) => {
            assert!(is_text(&c.from_media_type, "image/tiff"));
            assert!(is_text(&c.to_media_type, "image/jpeg"));
            assert_eq!(c.transcoding_params.len(), 2);
            assert!(is_text(&c.transcoding_params[0], "pix-x=320"));
            assert!(is_text(&c.transcoding_params[1], "pix-y=240"));
            assert!(!c.is_not);
        }
        other => panic!("unexpected {:?}", other),
    }

    let tokens = vec![text("a/b", 1), text("c/d", 2), text("q=1", 3)];
    let mut state = CompilerState::new(tokens, Vec::new());
    match state.parse_test_convert() {
        Ok(Test::Convert(c)) => {
            assert!(is_text(&c.from_media_type, "a/b"));
            assert_eq!(c.transcoding_params.len(), 1);
            assert!(!c.is_not);
        }
        other => panic!("unexpected {:?}", other),
    }
    assert!(state.instructions.is_empty());
}

#[test]
fn convert_rejects_malformed_lists() {
    let tokens = vec![
        text("a/b", 1),
        text("c/d", 2),
        tok(Token::BracketOpen, 3),
        text("x", 4),
        text("y", 5),
    ];
    let mut state = CompilerState::new(tokens, Vec::new());
    assert_eq!(
        state.parse_convert(),
        Err(CompileError {
            line_num: 1,
            line_pos: 5,
            error_type: ErrorType::Expected(Expectation::ListSeparator)
        })
    );
    let mut state = CompilerState::new(vec![text("a/b", 1)], Vec::new());
    assert_eq!(
        state.parse_convert(),
        Err(CompileError { line_num: 1, line_pos: 1, error_type: ErrorType::UnexpectedEnd })
    );
}

#[test]
fn tokens_are_handed_out_in_order() {
    let mut tokens = Tokens::new(vec![tok(Token::Number(1), 1), tok(Token::Number(2), 2)]);
    assert!(matches!(tokens.unwrap_next(), Ok(TokenInfo { token: Token::Number(1), .. })));
    assert_eq!(tokens.expect_number(1).unwrap_err().line_pos, 2);
    assert!(tokens.is_empty());
}
