//! The `redirect` action.

use vstd::prelude::*;
use crate::compiler::error::{Capability, CompileError, ErrorType, Expectation};
use crate::compiler::state::{validated, CompilerState, Instruction};
use crate::compiler::tokens::{string_of, Stream, StringItem, Token, Word};
use crate::text::{
    eq_ignore_case, range_eq_ignore_case, text_eq_ignore_case, to_chars, trim, trim_range,
};

verus! {

/// A delivery event that a report is asked for.
#[derive(Clone, Copy, Debug, PartialEq, Eq, Structural, Hash)]
pub enum NotifyItem {
    Success,
    Failure,
    Delay,
}

/// When delivery reports are wanted.
#[derive(Debug)]
pub enum Notify {
    Never,
    Items(Vec<NotifyItem>),
    Default,
}

/// How much of the message a delivery report returns.
#[derive(Clone, Copy, Debug, PartialEq, Eq, Structural, Hash)]
pub enum Ret {
    Full,
    Hdrs,
    Default,
}

/// The time limit of a delivery.
#[derive(Debug)]
pub enum ByTime<T> {
    Relative { rlimit: u64, mode: ByMode, trace: bool },
    Absolute { alimit: T, mode: ByMode, trace: bool },
    /// No time limit.
    Unlimited,
}

/// What happens when the time limit of a delivery passes.
#[derive(Clone, Copy, Debug, PartialEq, Eq, Structural, Hash)]
pub enum ByMode {
    Notify,
    Return,
    Default,
}

/// A compiled `redirect`.
#[derive(Debug)]
pub struct Redirect {
    pub copy: bool,
    pub address: StringItem,
    pub notify: Notify,
    pub return_of_content: Ret,
    pub by_time: ByTime<StringItem>,
    pub list: bool,
}

/// The model of a [`Notify`].
pub enum NotifyView {
    Never,
    Items(Seq<NotifyItem>),
    Default,
}

impl View for Notify {
    type V = NotifyView;

    open spec fn view(&self) -> NotifyView {
        match self {
            Notify::Never => NotifyView::Never,
            Notify::Items(items) => NotifyView::Items(items@),
            Notify::Default => NotifyView::Default,
        }
    }
}

impl Clone for Notify {
    fn clone(&self) -> (r: Self)
        ensures
            r@ == self@,
    {
        match self {
            Notify::Never => Notify::Never,
            Notify::Items(items) => {
                let mut copy: Vec<NotifyItem> = Vec::new();
                let mut i: usize = 0;
                while i < items.len()
                    invariant
                        i <= items.len(),
                        copy@ == items@.take(i as int),
                    decreases items.len() - i,
                {
                    copy.push(items[i]);
                    assert(copy@ =~= items@.take(i + 1));
                    i += 1;
                }
                assert(items@.take(items@.len() as int) == items@);
                Notify::Items(copy)
            },
            Notify::Default => Notify::Default,
        }
    }
}

/// The model of a [`Redirect`].
pub struct RedirectView {
    pub copy: bool,
    pub address: StringItem,
    pub notify: NotifyView,
    pub return_of_content: Ret,
    pub by_time: ByTime<StringItem>,
    pub list: bool,
}

impl View for Redirect {
    type V = RedirectView;

    open spec fn view(&self) -> RedirectView {
        RedirectView {
            copy: self.copy,
            address: self.address,
            notify: self.notify@,
            return_of_content: self.return_of_content,
            by_time: self.by_time,
            list: self.list,
        }
    }
}

/// The place of the first comma of `text`, or its length when it has none.
pub open spec fn first_comma(text: Seq<char>) -> nat
    decreases text.len(),
{
    if text.len() == 0 || text[0] == ',' {
        0
    } else {
        1 + first_comma(text.drop_first())
    }
}

/// The delivery event that a piece of a list names, white space at its ends
/// and ASCII case aside.
pub open spec fn notify_item(piece: Seq<char>) -> Option<NotifyItem> {
    let word = trim(piece);
    if eq_ignore_case(word, "success"@) {
        Some(NotifyItem::Success)
    } else if eq_ignore_case(word, "failure"@) {
        Some(NotifyItem::Failure)
    } else if eq_ignore_case(word, "delay"@) {
        Some(NotifyItem::Delay)
    } else {
        None
    }
}

/// The delivery events that a comma-separated list names, in its order;
/// pieces that name none are passed over.
pub open spec fn notify_items(text: Seq<char>) -> Seq<NotifyItem>
    decreases text.len(),
{
    let i = first_comma(text) as int;
    let head = match notify_item(text.take(i)) {
        Some(item) => seq![item],
        None => Seq::empty(),
    };
    if i < text.len() {
        head + notify_items(text.skip(i + 1))
    } else {
        head
    }
}

/// The first comma stands at `i` when no comma stands before `i` and `i` is
/// a comma or the end.
pub proof fn lemma_first_comma(text: Seq<char>, i: int)
    requires
        0 <= i <= text.len(),
        forall|j: int| 0 <= j < i ==> text[j] != ',',
        i == text.len() || text[i] == ',',
    ensures
        first_comma(text) == i,
    decreases text.len(),
{
    if i > 0 {
        let rest = text.drop_first();
        assert forall|j: int| 0 <= j < i - 1 implies rest[j] != ',' by {
            assert(rest[j] == text[j + 1]);
        }
        lemma_first_comma(rest, i - 1);
    }
}

/// Reads a comma-separated list of delivery events.
pub fn parse_notify_items(text: &str) -> (r: Vec<NotifyItem>)
    ensures
        r@ == notify_items(text@),
{
    let chars = to_chars(text);
    let mut items: Vec<NotifyItem> = Vec::new();
    let mut start: usize = 0;
    assert(chars@.skip(0) == chars@);
    assert(items@ + notify_items(text@) =~= notify_items(text@));
    loop
        invariant
            chars@ == text@,
            start <= chars.len(),
            notify_items(text@) == items@ + notify_items(chars@.skip(start as int)),
        decreases chars.len() - start,
    {
        let ghost rest = chars@.skip(start as int);
        let mut end = start;
        while end < chars.len() && chars[end] != ','
            invariant
                start <= end <= chars.len(),
                forall|j: int| start <= j < end ==> chars@[j] != ',',
            decreases chars.len() - end,
        {
            end += 1;
        }
        proof {
            lemma_first_comma(rest, end - start);
            assert(rest.take(end - start) == chars@.subrange(start as int, end as int));
            if end < chars.len() {
                assert(rest.skip(end - start + 1) == chars@.skip(end + 1));
            }
        }
        let (a, b) = trim_range(&chars, start, end);
        let ghost before = items@;
        if range_eq_ignore_case(&chars, a, b, "success") {
            items.push(NotifyItem::Success);
            assert(items@ =~= before + seq![NotifyItem::Success]);
        } else if range_eq_ignore_case(&chars, a, b, "failure") {
            items.push(NotifyItem::Failure);
            assert(items@ =~= before + seq![NotifyItem::Failure]);
        } else if range_eq_ignore_case(&chars, a, b, "delay") {
            items.push(NotifyItem::Delay);
            assert(items@ =~= before + seq![NotifyItem::Delay]);
        } else {
            assert(items@ =~= before + Seq::empty());
        }
        if end < chars.len() {
            proof {
                let head = match notify_item(rest.take(end - start)) {
                    Some(item) => seq![item],
                    None => Seq::empty(),
                };
                assert(before + (head + notify_items(chars@.skip(end + 1))) =~= (before + head)
                    + notify_items(chars@.skip(end + 1)));
            }
            start = end + 1;
        } else {
            return items;
        }
    }
}

/// What the optional clauses of a `redirect` have set.
pub struct Clauses {
    pub copy: bool,
    pub list: bool,
    pub ret: Ret,
    pub notify: NotifyView,
    pub by_mode: ByMode,
    pub by_trace: bool,
    pub by_rlimit: Option<u64>,
    pub by_alimit: Option<StringItem>,
}

impl Clauses {
    /// Nothing set.
    pub open spec fn start() -> Clauses {
        Clauses {
            copy: false,
            list: false,
            ret: Ret::Default,
            notify: NotifyView::Default,
            by_mode: ByMode::Default,
            by_trace: false,
            by_rlimit: None,
            by_alimit: None,
        }
    }

    /// The time limit: the absolute one if it was set, else the relative one,
    /// else none.
    pub open spec fn by_time(self) -> ByTime<StringItem> {
        match self.by_alimit {
            Some(alimit) => ByTime::Absolute { alimit, mode: self.by_mode, trace: self.by_trace },
            None => match self.by_rlimit {
                Some(rlimit) => ByTime::Relative {
                    rlimit,
                    mode: self.by_mode,
                    trace: self.by_trace,
                },
                None => ByTime::Unlimited,
            },
        }
    }

    /// The redirect to `address` with these clauses.
    pub open spec fn redirect(self, address: StringItem) -> RedirectView {
        RedirectView {
            copy: self.copy,
            address,
            notify: self.notify,
            return_of_content: self.ret,
            by_time: self.by_time(),
            list: self.list,
        }
    }
}

/// The slot of an optional clause of `redirect` and the capability that it
/// needs; nothing for a word that opens no such clause.
pub open spec fn clause_of(word: Word) -> Option<(usize, Capability)> {
    match word {
        Word::Copy => Some((1usize, Capability::Copy)),
        Word::List => Some((2usize, Capability::ExtLists)),
        Word::ByTrace => Some((3usize, Capability::RedirectDeliverBy)),
        Word::ByMode => Some((4usize, Capability::RedirectDeliverBy)),
        Word::ByTimeRelative => Some((5usize, Capability::RedirectDeliverBy)),
        Word::ByTimeAbsolute => Some((5usize, Capability::RedirectDeliverBy)),
        Word::Ret => Some((6usize, Capability::RedirectDsn)),
        Word::Notify => Some((7usize, Capability::RedirectDsn)),
        _ => None,
    }
}

/// The delivery mode that `text` names.
pub open spec fn by_mode_of(text: Seq<char>) -> Option<ByMode> {
    if eq_ignore_case(text, "notify"@) {
        Some(ByMode::Notify)
    } else if eq_ignore_case(text, "return"@) {
        Some(ByMode::Return)
    } else {
        None
    }
}

/// The content of a delivery report that `text` names.
pub open spec fn ret_of(text: Seq<char>) -> Option<Ret> {
    if eq_ignore_case(text, "full"@) {
        Some(Ret::Full)
    } else if eq_ignore_case(text, "hdrs"@) {
        Some(Ret::Hdrs)
    } else {
        None
    }
}

/// The wish for delivery reports that `text` states: `never`, or a list that
/// names at least one delivery event.
pub open spec fn notify_of(text: Seq<char>) -> Option<NotifyView> {
    if eq_ignore_case(text, "never"@) {
        Some(NotifyView::Never)
    } else if notify_items(text).len() > 0 {
        Some(NotifyView::Items(notify_items(text)))
    } else {
        None
    }
}

/// The error that says what was expected at a place in the script.
pub open spec fn expected_at(line_num: usize, line_pos: usize, what: Expectation) -> CompileError {
    CompileError { line_num, line_pos, error_type: ErrorType::Expected(what) }
}

/// The keyword that the next token, a string without variables, names under
/// `meaning`; a text that names none is the error `what` at the given place.
pub open spec fn keyword<T>(
    s: Stream,
    meaning: spec_fn(Seq<char>) -> Option<T>,
    line_num: usize,
    line_pos: usize,
    what: Expectation,
) -> Result<(T, Stream), CompileError> {
    match s.static_string() {
        Err(e) => Err(e),
        Ok((text, rest)) => match meaning(text@) {
            Some(value) => Ok((value, rest)),
            None => Err(expected_at(line_num, line_pos, what)),
        },
    }
}

/// The clauses after the clause that the tag `word`, found at the given
/// place, opens was read from `s`.
pub open spec fn clause(
    granted: Seq<Capability>,
    line_num: usize,
    line_pos: usize,
    word: Word,
    s: Stream,
    c: Clauses,
) -> Result<(Clauses, Stream), CompileError>
    recommends
        clause_of(word) is Some,
{
    let (slot, capability) = clause_of(word).unwrap();
    match validated(granted, slot, Some(capability), line_num, line_pos) {
        Err(e) => Err(e),
        Ok(_) => match word {
            Word::Copy => Ok((Clauses { copy: true, ..c }, s)),
            Word::List => Ok((Clauses { list: true, ..c }, s)),
            Word::ByTrace => Ok((Clauses { by_trace: true, ..c }, s)),
            Word::ByMode => match keyword(
                s,
                |t: Seq<char>| by_mode_of(t),
                line_num,
                line_pos,
                Expectation::ByMode,
            ) {
                Err(e) => Err(e),
                Ok((by_mode, rest)) => Ok((Clauses { by_mode, ..c }, rest)),
            },
            Word::ByTimeRelative => match s.number(usize::MAX) {
                Err(e) => Err(e),
                Ok((n, rest)) => Ok((Clauses { by_rlimit: Some(n as u64), ..c }, rest)),
            },
            Word::ByTimeAbsolute => match s.string() {
                Err(e) => Err(e),
                Ok((alimit, rest)) => Ok((Clauses { by_alimit: Some(alimit), ..c }, rest)),
            },
            Word::Ret => match keyword(
                s,
                |t: Seq<char>| ret_of(t),
                line_num,
                line_pos,
                Expectation::Ret,
            ) {
                Err(e) => Err(e),
                Ok((ret, rest)) => Ok((Clauses { ret, ..c }, rest)),
            },
            _ => match keyword(
                s,
                |t: Seq<char>| notify_of(t),
                line_num,
                line_pos,
                Expectation::NotifyItems,
            ) {
                Err(e) => Err(e),
                Ok((notify, rest)) => Ok((Clauses { notify, ..c }, rest)),
            },
        },
    }
}

/// The word of a token that opens an optional clause of `redirect`.
pub open spec fn clause_word(token: Token) -> Option<Word> {
    match token {
        Token::Tag(word) => if clause_of(word) is Some {
            Some(word)
        } else {
            None
        },
        _ => None,
    }
}

/// The redirect that the tokens of `s` describe, after the clauses `c`:
/// optional clauses in any order, each checked against the granted
/// capabilities, and then the address.
pub open spec fn redirect_from(granted: Seq<Capability>, s: Stream, c: Clauses) -> Result<
    (RedirectView, Stream),
    CompileError,
>
    decreases s.rest.len(),
{
    match s.next() {
        Err(e) => Err(e),
        Ok((info, s1)) => match clause_word(info.token) {
            Some(word) => match clause(granted, info.line_num, info.line_pos, word, s1, c) {
                Err(e) => Err(e),
                Ok((c2, s2)) => redirect_from(granted, s2, c2),
            },
            None => match string_of(info) {
                Err(e) => Err(e),
                Ok(address) => Ok((c.redirect(address), s1)),
            },
        },
    }
}

/// What the optional clauses of a `redirect` have set, while it is compiled.
struct ClauseState {
    copy: bool,
    list: bool,
    ret: Ret,
    notify: Notify,
    by_mode: ByMode,
    by_trace: bool,
    by_rlimit: Option<u64>,
    by_alimit: Option<StringItem>,
}

impl ClauseState {
    spec fn view(&self) -> Clauses {
        Clauses {
            copy: self.copy,
            list: self.list,
            ret: self.ret,
            notify: self.notify@,
            by_mode: self.by_mode,
            by_trace: self.by_trace,
            by_rlimit: self.by_rlimit,
            by_alimit: self.by_alimit,
        }
    }

    /// The redirect to `address` with these clauses.
    fn redirect(self, address: StringItem) -> (r: Redirect)
        ensures
            r@ == self@.redirect(address),
    {
        let by_time = match self.by_alimit {
            Some(alimit) => ByTime::Absolute {
                alimit,
                mode: self.by_mode,
                trace: self.by_trace,
            },
            None => match self.by_rlimit {
                Some(rlimit) => ByTime::Relative {
                    rlimit,
                    mode: self.by_mode,
                    trace: self.by_trace,
                },
                None => ByTime::Unlimited,
            },
        };
        Redirect {
            address,
            copy: self.copy,
            notify: self.notify,
            return_of_content: self.ret,
            by_time,
            list: self.list,
        }
    }
}

/// The error that says what was expected at a place in the script.
fn expected(line_num: usize, line_pos: usize, what: Expectation) -> (r: CompileError)
    ensures
        r == expected_at(line_num, line_pos, what),
{
    CompileError { line_num, line_pos, error_type: ErrorType::Expected(what) }
}

impl CompilerState {
    /// Reads the delivery mode after `:bymode`.
    fn parse_by_mode(&mut self, line_num: usize, line_pos: usize) -> (r: Result<
        ByMode,
        CompileError,
    >)
        ensures
            final(self).capabilities == old(self).capabilities,
            final(self).instructions == old(self).instructions,
            match keyword(
                old(self).tokens@,
                |t: Seq<char>| by_mode_of(t),
                line_num,
                line_pos,
                Expectation::ByMode,
            ) {
                Ok((v, rest)) => r == Ok::<ByMode, CompileError>(v) && final(self).tokens@ == rest,
                Err(e) => r == Err::<ByMode, CompileError>(e),
            },
    {
        let text = match self.tokens.expect_static_string() {
            Ok(text) => text,
            Err(e) => {
                return Err(e);
            },
        };
        if text_eq_ignore_case(text.as_str(), "notify") {
            Ok(ByMode::Notify)
        } else if text_eq_ignore_case(text.as_str(), "return") {
            Ok(ByMode::Return)
        } else {
            Err(expected(line_num, line_pos, Expectation::ByMode))
        }
    }

    /// Reads the report content after `:ret`.
    fn parse_ret(&mut self, line_num: usize, line_pos: usize) -> (r: Result<Ret, CompileError>)
        ensures
            final(self).capabilities == old(self).capabilities,
            final(self).instructions == old(self).instructions,
            match keyword(
                old(self).tokens@,
                |t: Seq<char>| ret_of(t),
                line_num,
                line_pos,
                Expectation::Ret,
            ) {
                Ok((v, rest)) => r == Ok::<Ret, CompileError>(v) && final(self).tokens@ == rest,
                Err(e) => r == Err::<Ret, CompileError>(e),
            },
    {
        let text = match self.tokens.expect_static_string() {
            Ok(text) => text,
            Err(e) => {
                return Err(e);
            },
        };
        if text_eq_ignore_case(text.as_str(), "full") {
            Ok(Ret::Full)
        } else if text_eq_ignore_case(text.as_str(), "hdrs") {
            Ok(Ret::Hdrs)
        } else {
            Err(expected(line_num, line_pos, Expectation::Ret))
        }
    }

    /// Reads the wish for delivery reports after `:notify`.
    fn parse_notify(&mut self, line_num: usize, line_pos: usize) -> (r: Result<
        Notify,
        CompileError,
    >)
        ensures
            final(self).capabilities == old(self).capabilities,
            final(self).instructions == old(self).instructions,
            match keyword(
                old(self).tokens@,
                |t: Seq<char>| notify_of(t),
                line_num,
                line_pos,
                Expectation::NotifyItems,
            ) {
                Ok((v, rest)) => r is Ok && r->Ok_0@ == v && final(self).tokens@ == rest,
                Err(e) => r == Err::<Notify, CompileError>(e),
            },
    {
        let text = match self.tokens.expect_static_string() {
            Ok(text) => text,
            Err(e) => {
                return Err(e);
            },
        };
        if text_eq_ignore_case(text.as_str(), "never") {
            Ok(Notify::Never)
        } else {
            let items = parse_notify_items(text.as_str());
            if items.len() > 0 {
                Ok(Notify::Items(items))
            } else {
                Err(expected(line_num, line_pos, Expectation::NotifyItems))
            }
        }
    }

    /// Reads the clause that the tag `word`, found at the given place, opens.
    fn parse_clause(&mut self, line_num: usize, line_pos: usize, word: Word, c: ClauseState) -> (r:
        Result<ClauseState, CompileError>)
        requires
            clause_of(word) is Some,
        ensures
            final(self).capabilities == old(self).capabilities,
            final(self).instructions == old(self).instructions,
            match clause(old(self).capabilities@, line_num, line_pos, word, old(self).tokens@, c@) {
                Ok((v, rest)) => r is Ok && r->Ok_0@ == v && final(self).tokens@ == rest,
                Err(e) => r == Err::<ClauseState, CompileError>(e),
            },
    {
        let (slot, capability): (usize, Capability) = match word {
            Word::Copy => (1, Capability::Copy),
            Word::List => (2, Capability::ExtLists),
            Word::ByTrace => (3, Capability::RedirectDeliverBy),
            Word::ByMode => (4, Capability::RedirectDeliverBy),
            Word::ByTimeRelative => (5, Capability::RedirectDeliverBy),
            Word::ByTimeAbsolute => (5, Capability::RedirectDeliverBy),
            Word::Ret => (6, Capability::RedirectDsn),
            _ => (7, Capability::RedirectDsn),
        };
        match self.validate_argument(slot, Some(capability), line_num, line_pos) {
            Ok(_) => {},
            Err(e) => {
                return Err(e);
            },
        }
        let mut c = c;
        match word {
            Word::Copy => {
                c.copy = true;
            },
            Word::List => {
                c.list = true;
            },
            Word::ByTrace => {
                c.by_trace = true;
            },
            Word::ByMode => {
                c.by_mode = match self.parse_by_mode(line_num, line_pos) {
                    Ok(v) => v,
                    Err(e) => {
                        return Err(e);
                    },
                };
            },
            Word::ByTimeRelative => {
                let n = match self.tokens.expect_number(usize::MAX) {
                    Ok(n) => n,
                    Err(e) => {
                        return Err(e);
                    },
                };
                c.by_rlimit = Some(n as u64);
            },
            Word::ByTimeAbsolute => {
                let alimit = match self.parse_string() {
                    Ok(item) => item,
                    Err(e) => {
                        return Err(e);
                    },
                };
                c.by_alimit = Some(alimit);
            },
            Word::Ret => {
                c.ret = match self.parse_ret(line_num, line_pos) {
                    Ok(v) => v,
                    Err(e) => {
                        return Err(e);
                    },
                };
            },
            _ => {
                c.notify = match self.parse_notify(line_num, line_pos) {
                    Ok(v) => v,
                    Err(e) => {
                        return Err(e);
                    },
                };
            },
        }
        Ok(c)
    }

    /// Compiles the action `redirect` and adds it to the instructions:
    /// optional clauses in any order, each of which needs its extension
    /// granted, and then the address.
    pub fn parse_redirect(&mut self) -> (r: Result<(), CompileError>)
        ensures
            final(self).capabilities == old(self).capabilities,
            match redirect_from(old(self).capabilities@, old(self).tokens@, Clauses::start()) {
                Ok((redirect, rest)) => {
                    &&& r is Ok
                    &&& final(self).tokens@ == rest
                    &&& final(self).instructions@.len() == old(self).instructions@.len() + 1
                    &&& final(self).instructions@.drop_last() == old(self).instructions@
                    &&& final(self).instructions@.last() matches Instruction::Redirect(x)
                    &&& x@ == redirect
                },
                Err(e) => r == Err::<(), CompileError>(e) && final(self).instructions == old(
                    self,
                ).instructions,
            },
    {
        let mut clauses = ClauseState {
            copy: false,
            list: false,
            ret: Ret::Default,
            notify: Notify::Default,
            by_mode: ByMode::Default,
            by_trace: false,
            by_rlimit: None,
            by_alimit: None,
        };
        loop
            invariant
                self.capabilities == old(self).capabilities,
                self.instructions == old(self).instructions,
                redirect_from(self.capabilities@, self.tokens@, clauses@) == redirect_from(
                    old(self).capabilities@,
                    old(self).tokens@,
                    Clauses::start(),
                ),
            decreases self.tokens@.rest.len(),
        {
            let token_info = match self.tokens.unwrap_next() {
                Ok(info) => info,
                Err(e) => {
                    return Err(e);
                },
            };
            match token_info.token {
                Token::Tag(
                    word @ (Word::Copy | Word::List | Word::ByTrace | Word::ByMode
                    | Word::ByTimeRelative | Word::ByTimeAbsolute | Word::Ret | Word::Notify),
                ) => {
                    clauses = match self.parse_clause(
                        token_info.line_num,
                        token_info.line_pos,
                        word,
                        clauses,
                    ) {
                        Ok(c) => c,
                        Err(e) => {
                            return Err(e);
                        },
                    };
                },
                _ => {
                    let address = match self.parse_string_token(token_info) {
                        Ok(item) => item,
                        Err(e) => {
                            return Err(e);
                        },
                    };
                    self.instructions.push(Instruction::Redirect(clauses.redirect(address)));
                    assert(self.instructions@.drop_last() =~= old(self).instructions@);
                    return Ok(());
                },
            }
        }
    }
}

/// A clause whose extension was not granted fails the compilation, wherever
/// among the clauses it stands: the error names the capability, the slot of
/// the clause and the place of its tag.
pub proof fn lemma_clause_without_capability_fails(
    granted: Seq<Capability>,
    s: Stream,
    c: Clauses,
)
    requires
        s.rest.len() > 0,
        clause_word(s.rest[0].token) is Some,
        !granted.contains(clause_of(clause_word(s.rest[0].token).unwrap()).unwrap().1),
    ensures
        redirect_from(granted, s, c) == Err::<(RedirectView, Stream), CompileError>(
            CompileError {
                line_num: s.rest[0].line_num,
                line_pos: s.rest[0].line_pos,
                error_type: ErrorType::UndeclaredCapability {
                    capability: clause_of(clause_word(s.rest[0].token).unwrap()).unwrap().1,
                    argument: clause_of(clause_word(s.rest[0].token).unwrap()).unwrap().0,
                },
            },
        ),
{
}

/// A compilation fails for an undeclared capability only when that
/// capability was not granted.
pub proof fn lemma_undeclared_capability_is_missing(
    granted: Seq<Capability>,
    s: Stream,
    c: Clauses,
)
    ensures
        redirect_from(granted, s, c) matches Err(e) ==> (e.error_type
            matches ErrorType::UndeclaredCapability { capability, .. }
            ==> !granted.contains(capability)),
    decreases s.rest.len(),
{
    if let Ok((info, s1)) = s.next() {
        if let Some(word) = clause_word(info.token) {
            if let Ok((c2, s2)) = clause(granted, info.line_num, info.line_pos, word, s1, c) {
                lemma_undeclared_capability_is_missing(granted, s2, c2);
            }
        }
    }
}

/// Granting more capabilities changes nothing for a script that compiles:
/// under every larger set it compiles to the same redirect.
pub proof fn lemma_more_capabilities_same_result(
    granted: Seq<Capability>,
    more: Seq<Capability>,
    s: Stream,
    c: Clauses,
)
    requires
        forall|cap: Capability| granted.contains(cap) ==> more.contains(cap),
        redirect_from(granted, s, c) is Ok,
    ensures
        redirect_from(more, s, c) == redirect_from(granted, s, c),
    decreases s.rest.len(),
{
    if let Ok((info, s1)) = s.next() {
        if let Some(word) = clause_word(info.token) {
            if let Ok((c2, s2)) = clause(granted, info.line_num, info.line_pos, word, s1, c) {
                assert(clause(more, info.line_num, info.line_pos, word, s1, c) == clause(
                    granted,
                    info.line_num,
                    info.line_pos,
                    word,
                    s1,
                    c,
                ));
                lemma_more_capabilities_same_result(granted, more, s2, c2);
            }
        }
    }
}

/// A script that compiles under some capabilities can fail under fewer only
/// for a capability that is then missing: nothing else depends on what was
/// granted.
pub proof fn lemma_fewer_capabilities_fail_as_undeclared(
    granted: Seq<Capability>,
    more: Seq<Capability>,
    s: Stream,
    c: Clauses,
)
    requires
        forall|cap: Capability| granted.contains(cap) ==> more.contains(cap),
        redirect_from(more, s, c) is Ok,
    ensures
        match redirect_from(granted, s, c) {
            Ok(r) => redirect_from(more, s, c) == Ok::<(RedirectView, Stream), CompileError>(r),
            Err(e) => e.error_type
                matches ErrorType::UndeclaredCapability { capability, .. }
                && more.contains(capability) && !granted.contains(capability),
        },
    decreases s.rest.len(),
{
    if let Ok((info, s1)) = s.next() {
        if let Some(word) = clause_word(info.token) {
            if let Ok((c2, s2)) = clause(more, info.line_num, info.line_pos, word, s1, c) {
                if granted.contains(clause_of(word).unwrap().1) {
                    assert(clause(more, info.line_num, info.line_pos, word, s1, c) == clause(
                        granted,
                        info.line_num,
                        info.line_pos,
                        word,
                        s1,
                        c,
                    ));
                    lemma_fewer_capabilities_fail_as_undeclared(granted, more, s2, c2);
                }
            }
        }
    }
}

} // verus!
