//! Tokens and the stream that hands them to the grammar.

use vstd::prelude::*;
use crate::compiler::error::{CompileError, ErrorType, Expectation};

verus! {

/// A keyword of the language.
#[derive(Clone, Copy, Debug, PartialEq, Eq, Structural, Hash)]
pub enum Word {
    Copy,
    List,
    ByTrace,
    ByMode,
    ByTimeRelative,
    ByTimeAbsolute,
    Ret,
    Notify,
    Index,
    Last,
    Mime,
    AnyChild,
    Type,
    Subtype,
    ContentType,
    Param,
    Is,
    Contains,
    Matches,
    Value,
    Count,
    Regex,
    Comparator,
    LocalPart,
    Domain,
    All,
    User,
    Detail,
}

/// A piece of a string literal.
#[derive(Debug)]
pub enum Fragment {
    /// Literal text.
    Text(String),
    /// A reference to a variable by name.
    Variable(String),
    /// A reference to a capture of the last match by number.
    Match(usize),
}

/// A string literal: constant text, or pieces to be put together when the
/// script runs.
#[derive(Debug)]
pub enum StringItem {
    Text(String),
    Parts(Vec<Fragment>),
}

/// A classified lexeme.
#[derive(Debug)]
pub enum Token {
    Tag(Word),
    String(StringItem),
    Number(usize),
    BracketOpen,
    BracketClose,
    Comma,
    Semicolon,
}

/// A token with its place in the script.
#[derive(Debug)]
pub struct TokenInfo {
    pub token: Token,
    pub line_num: usize,
    pub line_pos: usize,
}

impl TokenInfo {
    /// The error that says what was expected in place of this token.
    pub open spec fn spec_expected(self, what: Expectation) -> CompileError {
        CompileError {
            line_num: self.line_num,
            line_pos: self.line_pos,
            error_type: ErrorType::Expected(what),
        }
    }

    /// The error that says what was expected in place of this token.
    #[verifier::when_used_as_spec(spec_expected)]
    pub fn expected(self, what: Expectation) -> (r: CompileError)
        ensures
            r == self.spec_expected(what),
    {
        CompileError {
            line_num: self.line_num,
            line_pos: self.line_pos,
            error_type: ErrorType::Expected(what),
        }
    }
}

/// The model of a token stream: the tokens still to come, and the place of
/// the token handed out last.
pub struct Stream {
    pub rest: Seq<TokenInfo>,
    pub line_num: usize,
    pub line_pos: usize,
}

impl Stream {
    /// The error for a stream that has ended.
    pub open spec fn ended(self) -> CompileError {
        CompileError {
            line_num: self.line_num,
            line_pos: self.line_pos,
            error_type: ErrorType::UnexpectedEnd,
        }
    }

    /// The stream after its first token was handed out.
    pub open spec fn advance(self) -> Stream
        recommends
            self.rest.len() > 0,
    {
        Stream {
            rest: self.rest.drop_first(),
            line_num: self.rest[0].line_num,
            line_pos: self.rest[0].line_pos,
        }
    }

    /// The next token and the stream after it.
    pub open spec fn next(self) -> Result<(TokenInfo, Stream), CompileError> {
        if self.rest.len() == 0 {
            Err(self.ended())
        } else {
            Ok((self.rest[0], self.advance()))
        }
    }

    /// The next token as a string without variables.
    pub open spec fn static_string(self) -> Result<(String, Stream), CompileError> {
        match self.next() {
            Ok((info, rest)) => match info.token {
                Token::String(StringItem::Text(text)) => Ok((text, rest)),
                _ => Err(info.spec_expected(Expectation::StaticText)),
            },
            Err(e) => Err(e),
        }
    }

    /// The next token as a number of at most `max`.
    pub open spec fn number(self, max: usize) -> Result<(usize, Stream), CompileError> {
        match self.next() {
            Ok((info, rest)) => match info.token {
                Token::Number(n) => if n <= max {
                    Ok((n, rest))
                } else {
                    Err(info.spec_expected(Expectation::Number))
                },
                _ => Err(info.spec_expected(Expectation::Number)),
            },
            Err(e) => Err(e),
        }
    }
}

/// A token as a string.
pub open spec fn string_of(info: TokenInfo) -> Result<StringItem, CompileError> {
    match info.token {
        Token::String(item) => Ok(item),
        _ => Err(info.spec_expected(Expectation::Text)),
    }
}

/// The tokens of a script, handed out one by one.
pub struct Tokens {
    /// The tokens still to come, the next one last.
    stack: Vec<TokenInfo>,
    line_num: usize,
    line_pos: usize,
}

impl View for Tokens {
    type V = Stream;

    closed spec fn view(&self) -> Stream {
        Stream { rest: self.stack@.reverse(), line_num: self.line_num, line_pos: self.line_pos }
    }
}

impl Tokens {
    /// A stream over `tokens`, in their order.
    pub fn new(tokens: Vec<TokenInfo>) -> (r: Tokens)
        ensures
            r@ == (Stream { rest: tokens@, line_num: 0, line_pos: 0 }),
    {
        let mut tokens = tokens;
        let ghost all = tokens@;
        let mut stack: Vec<TokenInfo> = Vec::new();
        while tokens.len() > 0
            invariant
                tokens@.len() + stack@.len() == all.len(),
                tokens@ == all.take(tokens@.len() as int),
                forall|i: int| 0 <= i < stack@.len() ==> stack@[i] == all[all.len() - 1 - i],
            decreases tokens.len(),
        {
            let info = tokens.pop().unwrap();
            stack.push(info);
        }
        assert(stack@.reverse() =~= all);
        Tokens { stack, line_num: 0, line_pos: 0 }
    }

    /// Whether no token is left.
    pub fn is_empty(&self) -> (r: bool)
        ensures
            r == (self@.rest.len() == 0),
    {
        self.stack.len() == 0
    }

    /// Hands out the next token; the end of the script is an error.
    pub fn unwrap_next(&mut self) -> (r: Result<TokenInfo, CompileError>)
        ensures
            match old(self)@.next() {
                Ok((info, rest)) => r == Ok::<TokenInfo, CompileError>(info) && final(self)@ == rest,
                Err(e) => r == Err::<TokenInfo, CompileError>(e) && final(self)@ == old(self)@,
            },
    {
        let ghost before = self.stack@;
        match self.stack.pop() {
            Some(info) => {
                self.line_num = info.line_num;
                self.line_pos = info.line_pos;
                assert(self.stack@.reverse() =~= before.reverse().drop_first());
                Ok(info)
            },
            None => Err(
                CompileError {
                    line_num: self.line_num,
                    line_pos: self.line_pos,
                    error_type: ErrorType::UnexpectedEnd,
                },
            ),
        }
    }

    /// Hands out the next token, which must be a string without variables.
    pub fn expect_static_string(&mut self) -> (r: Result<String, CompileError>)
        ensures
            match old(self)@.static_string() {
                Ok((text, rest)) => r == Ok::<String, CompileError>(text) && final(self)@ == rest,
                Err(e) => r == Err::<String, CompileError>(e),
            },
    {
        let info = match self.unwrap_next() {
            Ok(info) => info,
            Err(e) => {
                return Err(e);
            },
        };
        match info.token {
            Token::String(StringItem::Text(text)) => Ok(text),
            token => Err(
                TokenInfo {
                    token,
                    line_num: info.line_num,
                    line_pos: info.line_pos,
                }.expected(Expectation::StaticText),
            ),
        }
    }

    /// Hands out the next token, which must be a number of at most `max`.
    pub fn expect_number(&mut self, max: usize) -> (r: Result<usize, CompileError>)
        ensures
            match old(self)@.number(max) {
                Ok((n, rest)) => r == Ok::<usize, CompileError>(n) && final(self)@ == rest,
                Err(e) => r == Err::<usize, CompileError>(e),
            },
    {
        let info = match self.unwrap_next() {
            Ok(info) => info,
            Err(e) => {
                return Err(e);
            },
        };
        match info.token {
            Token::Number(n) => {
                if n <= max {
                    Ok(n)
                } else {
                    Err(
                        TokenInfo {
                            token: Token::Number(n),
                            line_num: info.line_num,
                            line_pos: info.line_pos,
                        }.expected(Expectation::Number),
                    )
                }
            },
            token => Err(
                TokenInfo {
                    token,
                    line_num: info.line_num,
                    line_pos: info.line_pos,
                }.expected(Expectation::Number),
            ),
        }
    }
}

} // verus!
