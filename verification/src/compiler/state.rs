//! The state of a compilation and the parsing steps that every command
//! shares.

use vstd::prelude::*;
use crate::compiler::convert::Convert;
use crate::compiler::error::{Capability, CompileError, ErrorType, Expectation};
use crate::compiler::predicates::{
    TestAddress, TestCurrentDate, TestDate, TestHeader, TestString,
};
use crate::compiler::redirect::Redirect;
use crate::compiler::tokens::{string_of, Stream, StringItem, Token, TokenInfo, Tokens};

verus! {

/// A compiled action.
#[derive(Debug)]
pub enum Instruction {
    Redirect(Redirect),
    Convert(Convert),
}

/// A compiled test.
#[derive(Debug)]
pub enum Test {
    Convert(Convert),
    Header(TestHeader),
    Address(TestAddress),
    String(TestString),
    Date(TestDate),
    CurrentDate(TestCurrentDate),
    Ihave(TestIhave),
    MailboxExists(TestMailboxExists),
    True,
    False,
    /// A construct that could be read but not understood; it fails when the
    /// script comes to it.
    Invalid(Invalid),
}

/// A test on whether extensions are at hand.
#[derive(Debug)]
pub struct TestIhave {
    pub capabilities: Vec<Capability>,
    pub is_not: bool,
}

/// A test on whether mailboxes exist.
#[derive(Debug)]
pub struct TestMailboxExists {
    pub mailbox_names: Vec<StringItem>,
    pub is_not: bool,
}

/// What is known of a construct that was not understood.
#[derive(Debug)]
pub struct Invalid {
    pub name: String,
    pub line_num: usize,
    pub line_pos: usize,
}

impl Clone for Invalid {
    fn clone(&self) -> (r: Self)
        ensures
            r == *self,
    {
        Invalid { name: self.name.clone(), line_num: self.line_num, line_pos: self.line_pos }
    }
}

/// The result of the check of an optional clause: an error when the clause
/// belongs to an extension that was not granted.
pub open spec fn validated(
    granted: Seq<Capability>,
    arg_num: usize,
    capability: Option<Capability>,
    line_num: usize,
    line_pos: usize,
) -> Result<(), CompileError> {
    match capability {
        Some(c) => if granted.contains(c) {
            Ok(())
        } else {
            Err(
                CompileError {
                    line_num,
                    line_pos,
                    error_type: ErrorType::UndeclaredCapability {
                        capability: c,
                        argument: arg_num,
                    },
                },
            )
        },
        None => Ok(()),
    }
}

/// The strings of a list after its opening bracket, added to `acc`: strings
/// with commas between them, up to the closing bracket.
pub open spec fn list_items(s: Stream, acc: Seq<StringItem>) -> Result<
    (Seq<StringItem>, Stream),
    CompileError,
>
    decreases s.rest.len(),
{
    match s.next() {
        Err(e) => Err(e),
        Ok((info, s1)) => match string_of(info) {
            Err(e) => Err(e),
            Ok(item) => match s1.next() {
                Err(e) => Err(e),
                Ok((sep, s2)) => match sep.token {
                    Token::Comma => list_items(s2, acc.push(item)),
                    Token::BracketClose => Ok((acc.push(item), s2)),
                    _ => Err(sep.spec_expected(Expectation::ListSeparator)),
                },
            },
        },
    }
}

/// The strings that start with the token `info`: one string, or a bracketed
/// list of them.
pub open spec fn strings_of(info: TokenInfo, s: Stream) -> Result<
    (Seq<StringItem>, Stream),
    CompileError,
> {
    match info.token {
        Token::String(item) => Ok((seq![item], s)),
        Token::BracketOpen => list_items(s, Seq::empty()),
        _ => Err(info.spec_expected(Expectation::Text)),
    }
}

/// A list of strings never gives tokens back: the stream after it is no
/// longer than the stream before it.
pub proof fn lemma_list_items_consume(s: Stream, acc: Seq<StringItem>)
    ensures
        list_items(s, acc) matches Ok((_, rest)) ==> rest.rest.len() <= s.rest.len(),
    decreases s.rest.len(),
{
    if let Ok((info, s1)) = s.next() {
        if let Ok(item) = string_of(info) {
            if let Ok((sep, s2)) = s1.next() {
                if sep.token is Comma {
                    lemma_list_items_consume(s2, acc.push(item));
                }
            }
        }
    }
}

/// One string or a list of strings never gives tokens back.
pub proof fn lemma_strings_consume(info: TokenInfo, s: Stream)
    ensures
        strings_of(info, s) matches Ok((_, rest)) ==> rest.rest.len() <= s.rest.len(),
{
    lemma_list_items_consume(s, Seq::empty());
}

impl Stream {
    /// The next token as a string.
    pub open spec fn string(self) -> Result<(StringItem, Stream), CompileError> {
        match self.next() {
            Ok((info, rest)) => match string_of(info) {
                Ok(item) => Ok((item, rest)),
                Err(e) => Err(e),
            },
            Err(e) => Err(e),
        }
    }

    /// The next tokens as one string or a bracketed list of strings.
    pub open spec fn strings(self) -> Result<(Seq<StringItem>, Stream), CompileError> {
        match self.next() {
            Ok((info, rest)) => strings_of(info, rest),
            Err(e) => Err(e),
        }
    }
}

/// A compilation under way: the tokens to come, the capabilities that the
/// script was granted, and the instructions compiled so far.
pub struct CompilerState {
    pub tokens: Tokens,
    pub capabilities: Vec<Capability>,
    pub instructions: Vec<Instruction>,
}

impl CompilerState {
    /// A compilation of `tokens` under the granted `capabilities`.
    pub fn new(tokens: Vec<TokenInfo>, capabilities: Vec<Capability>) -> (r: CompilerState)
        ensures
            r.tokens@ == (Stream { rest: tokens@, line_num: 0, line_pos: 0 }),
            r.capabilities == capabilities,
            r.instructions@.len() == 0,
    {
        CompilerState { tokens: Tokens::new(tokens), capabilities, instructions: Vec::new() }
    }

    /// Whether the script was granted `capability`.
    pub fn has_capability(&self, capability: Capability) -> (r: bool)
        ensures
            r == self.capabilities@.contains(capability),
    {
        let mut i: usize = 0;
        while i < self.capabilities.len()
            invariant
                i <= self.capabilities.len(),
                forall|j: int| 0 <= j < i ==> self.capabilities@[j] != capability,
            decreases self.capabilities.len() - i,
        {
            if self.capabilities[i] == capability {
                return true;
            }
            i += 1;
        }
        false
    }

    /// Checks an optional clause that stands in the slot `arg_num` of its
    /// command: a clause of an extension needs that extension granted.
    pub fn validate_argument(
        &self,
        arg_num: usize,
        capability: Option<Capability>,
        line_num: usize,
        line_pos: usize,
    ) -> (r: Result<(), CompileError>)
        ensures
            r == validated(self.capabilities@, arg_num, capability, line_num, line_pos),
    {
        match capability {
            Some(c) => {
                if self.has_capability(c) {
                    Ok(())
                } else {
                    Err(
                        CompileError {
                            line_num,
                            line_pos,
                            error_type: ErrorType::UndeclaredCapability {
                                capability: c,
                                argument: arg_num,
                            },
                        },
                    )
                }
            },
            None => Ok(()),
        }
    }

    /// Reads the token `info` as a string.
    pub fn parse_string_token(&mut self, info: TokenInfo) -> (r: Result<StringItem, CompileError>)
        ensures
            r == string_of(info),
            *final(self) == *old(self),
    {
        match info.token {
            Token::String(item) => Ok(item),
            token => Err(
                TokenInfo {
                    token,
                    line_num: info.line_num,
                    line_pos: info.line_pos,
                }.expected(Expectation::Text),
            ),
        }
    }

    /// Reads the next token as a string.
    pub fn parse_string(&mut self) -> (r: Result<StringItem, CompileError>)
        ensures
            final(self).capabilities == old(self).capabilities,
            final(self).instructions == old(self).instructions,
            match old(self).tokens@.string() {
                Ok((item, rest)) => r == Ok::<StringItem, CompileError>(item) && final(self).tokens@ == rest,
                Err(e) => r == Err::<StringItem, CompileError>(e),
            },
    {
        match self.tokens.unwrap_next() {
            Ok(info) => self.parse_string_token(info),
            Err(e) => Err(e),
        }
    }

    /// Reads the strings that start with the token `info`: one string, or a
    /// bracketed list.
    pub fn parse_strings_token(&mut self, info: TokenInfo) -> (r: Result<
        Vec<StringItem>,
        CompileError,
    >)
        ensures
            final(self).capabilities == old(self).capabilities,
            final(self).instructions == old(self).instructions,
            match strings_of(info, old(self).tokens@) {
                Ok((items, rest)) => r is Ok && r->Ok_0@ == items && final(self).tokens@ == rest,
                Err(e) => r == Err::<Vec<StringItem>, CompileError>(e),
            },
    {
        match info.token {
            Token::String(item) => {
                let mut items = Vec::new();
                items.push(item);
                assert(items@ =~= seq![item]);
                Ok(items)
            },
            Token::BracketOpen => {
                let mut items: Vec<StringItem> = Vec::new();
                loop
                    invariant
                        self.capabilities == old(self).capabilities,
                        self.instructions == old(self).instructions,
                        list_items(self.tokens@, items@) == strings_of(info, old(self).tokens@),
                    decreases self.tokens@.rest.len(),
                {
                    let item = match self.tokens.unwrap_next() {
                        Ok(info) => match self.parse_string_token(info) {
                            Ok(item) => item,
                            Err(e) => {
                                return Err(e);
                            },
                        },
                        Err(e) => {
                            return Err(e);
                        },
                    };
                    let sep = match self.tokens.unwrap_next() {
                        Ok(sep) => sep,
                        Err(e) => {
                            return Err(e);
                        },
                    };
                    items.push(item);
                    match sep.token {
                        Token::Comma => {},
                        Token::BracketClose => {
                            return Ok(items);
                        },
                        token => {
                            return Err(
                                TokenInfo {
                                    token,
                                    line_num: sep.line_num,
                                    line_pos: sep.line_pos,
                                }.expected(Expectation::ListSeparator),
                            );
                        },
                    }
                }
            },
            token => Err(
                TokenInfo {
                    token,
                    line_num: info.line_num,
                    line_pos: info.line_pos,
                }.expected(Expectation::Text),
            ),
        }
    }

    /// Reads the next tokens as one string or a bracketed list of strings.
    pub fn parse_strings(&mut self) -> (r: Result<Vec<StringItem>, CompileError>)
        ensures
            final(self).capabilities == old(self).capabilities,
            final(self).instructions == old(self).instructions,
            match old(self).tokens@.strings() {
                Ok((items, rest)) => r is Ok && r->Ok_0@ == items && final(self).tokens@ == rest,
                Err(e) => r == Err::<Vec<StringItem>, CompileError>(e),
            },
    {
        match self.tokens.unwrap_next() {
            Ok(info) => self.parse_strings_token(info),
            Err(e) => Err(e),
        }
    }
}

} // verus!
