//! The tests on strings, addresses and headers.

use vstd::prelude::*;
use crate::compiler::error::{CompileError, ErrorType, Expectation};
use crate::compiler::redirect::keyword;
use crate::compiler::state::{lemma_strings_consume, strings_of, CompilerState, Test};
use crate::compiler::tokens::{Stream, StringItem, Token, Word};
use crate::runtime::comparator::{Comparator, MatchType, RelationalMatch};
use crate::text::{eq_ignore_case, text_eq_ignore_case};

verus! {

/// The part of an address that a test looks at.
#[derive(Clone, Copy, Debug, PartialEq, Eq, Structural, Hash)]
pub enum AddressPart {
    LocalPart,
    Domain,
    All,
    User,
    Detail,
}

/// The view of a MIME header that a test looks at.
#[derive(Debug)]
pub enum MimeOpts<T> {
    Type,
    Subtype,
    ContentType,
    Param(Vec<T>),
    /// The header as it stands.
    Absent,
}

/// The model of [`MimeOpts`].
pub enum MimeOptsView<T> {
    Type,
    Subtype,
    ContentType,
    Param(Seq<T>),
    Absent,
}

impl<T> View for MimeOpts<T> {
    type V = MimeOptsView<T>;

    open spec fn view(&self) -> MimeOptsView<T> {
        match self {
            MimeOpts::Type => MimeOptsView::Type,
            MimeOpts::Subtype => MimeOptsView::Subtype,
            MimeOpts::ContentType => MimeOptsView::ContentType,
            MimeOpts::Param(params) => MimeOptsView::Param(params@),
            MimeOpts::Absent => MimeOptsView::Absent,
        }
    }
}

/// A compiled test on strings.
#[derive(Debug)]
pub struct TestString {
    pub match_type: MatchType,
    pub comparator: Comparator,
    pub source: Vec<StringItem>,
    pub key_list: Vec<StringItem>,
}

/// A compiled test on the addresses of headers.
#[derive(Debug)]
pub struct TestAddress {
    pub header_list: Vec<StringItem>,
    pub key_list: Vec<StringItem>,
    pub address_part: AddressPart,
    pub match_type: MatchType,
    pub comparator: Comparator,
    /// Which header of a name to look at: counted from the start when above
    /// zero, from the end when below.
    pub index: Option<i32>,
    pub mime: bool,
    pub mime_anychild: bool,
    pub list: bool,
}

/// A compiled test on headers.
#[derive(Debug)]
pub struct TestHeader {
    pub header_list: Vec<StringItem>,
    pub key_list: Vec<StringItem>,
    pub match_type: MatchType,
    pub comparator: Comparator,
    /// Which header of a name to look at: counted from the start when above
    /// zero, from the end when below.
    pub index: Option<i32>,
    pub mime_opts: MimeOpts<StringItem>,
    pub mime_anychild: bool,
    pub is_not: bool,
}

/// The part of a date that a test looks at.
#[derive(Clone, Copy, Debug, PartialEq, Eq, Structural, Hash)]
pub enum DatePart {
    Year,
    Month,
    Day,
    Date,
    Julian,
    Hour,
    Minute,
    Second,
    Time,
    Iso8601,
    Std11,
    Zone,
    Weekday,
}

/// The zone in which a test looks at a date.
#[derive(Clone, Copy, Debug, PartialEq, Eq, Structural, Hash)]
pub enum Zone {
    /// The zone that lies so many seconds from universal time.
    Time(i32),
    /// The zone in which the date was written.
    Original,
    /// The zone of the runtime.
    Local,
}

/// A compiled test on the date of a header.
#[derive(Debug)]
pub struct TestDate {
    pub header_name: StringItem,
    pub key_list: Vec<StringItem>,
    pub match_type: MatchType,
    pub comparator: Comparator,
    pub index: Option<i32>,
    pub zone: Zone,
    pub date_part: DatePart,
    pub mime_anychild: bool,
    pub is_not: bool,
}

/// A compiled test on the date at which the script runs.
#[derive(Debug)]
pub struct TestCurrentDate {
    /// The zone to look at the date in, in seconds from universal time.
    pub zone: Option<i32>,
    pub match_type: MatchType,
    pub comparator: Comparator,
    pub date_part: DatePart,
    pub key_list: Vec<StringItem>,
    pub is_not: bool,
}

/// The index that `:index` and `:last` give together: `:last` turns the
/// number of `:index` into its negative, and stands for -1 alone.
pub open spec fn composed_index(index: Option<u16>, last: bool) -> Option<i32> {
    if last {
        match index {
            Some(n) => Some((-(n as int)) as i32),
            None => Some(-1i32),
        }
    } else {
        match index {
            Some(n) => Some(n as i32),
            None => None,
        }
    }
}

/// The index that `:index` and `:last` give together.
pub fn compose_index(index: Option<u16>, last: bool) -> (r: Option<i32>)
    ensures
        r == composed_index(index, last),
        last ==> r is Some && r->0 <= 0,
        last && index is Some ==> r == Some((-(index->0 as int)) as i32),
        last && index is None ==> r == Some(-1i32),
{
    if last {
        match index {
            Some(n) => Some(-(n as i32)),
            None => Some(-1),
        }
    } else {
        match index {
            Some(n) => Some(n as i32),
            None => None,
        }
    }
}

/// The three tests that share their clauses.
#[derive(Clone, Copy, Debug, PartialEq, Eq, Structural, Hash)]
pub enum TestKind {
    String,
    Address,
    Header,
}

/// Whether a test of the kind takes the clause that the word opens.
pub open spec fn takes(kind: TestKind, word: Word) -> bool {
    match word {
        Word::Is | Word::Contains | Word::Matches | Word::Value | Word::Count | Word::Regex
        | Word::List | Word::Comparator => true,
        Word::Index | Word::Last | Word::Mime | Word::AnyChild => kind != TestKind::String,
        Word::LocalPart | Word::Domain | Word::All | Word::User | Word::Detail => kind
            == TestKind::Address,
        Word::Type | Word::Subtype | Word::ContentType | Word::Param => kind == TestKind::Header,
        _ => false,
    }
}

/// The word of a token that opens a clause of a test of the kind.
pub open spec fn clause_word(kind: TestKind, token: Token) -> Option<Word> {
    match token {
        Token::Tag(word) => if takes(kind, word) {
            Some(word)
        } else {
            None
        },
        _ => None,
    }
}

/// The relation that `text` names.
pub open spec fn relation_of(text: Seq<char>) -> Option<RelationalMatch> {
    if eq_ignore_case(text, "gt"@) {
        Some(RelationalMatch::Gt)
    } else if eq_ignore_case(text, "ge"@) {
        Some(RelationalMatch::Ge)
    } else if eq_ignore_case(text, "lt"@) {
        Some(RelationalMatch::Lt)
    } else if eq_ignore_case(text, "le"@) {
        Some(RelationalMatch::Le)
    } else if eq_ignore_case(text, "eq"@) {
        Some(RelationalMatch::Eq)
    } else if eq_ignore_case(text, "ne"@) {
        Some(RelationalMatch::Ne)
    } else {
        None
    }
}

/// The comparator that a name stands for.
pub open spec fn comparator_of(name: String) -> Comparator {
    if eq_ignore_case(name@, "i;octet"@) {
        Comparator::Octet
    } else if eq_ignore_case(name@, "i;ascii-casemap"@) {
        Comparator::AsciiCaseMap
    } else if eq_ignore_case(name@, "i;ascii-numeric"@) {
        Comparator::AsciiNumeric
    } else {
        Comparator::Other(name)
    }
}

/// What the clauses of a test have set.
pub struct TestArgs {
    pub match_type: MatchType,
    pub comparator: Comparator,
    pub index: Option<u16>,
    pub index_last: bool,
    pub mime: bool,
    pub mime_opts: MimeOptsView<StringItem>,
    pub mime_anychild: bool,
    pub address_part: AddressPart,
    pub list: bool,
    /// The first of the two string lists, once it was read.
    pub first: Option<Seq<StringItem>>,
}

impl TestArgs {
    /// Nothing set: the test is for equality, case aside.
    pub open spec fn start() -> TestArgs {
        TestArgs {
            match_type: MatchType::Is,
            comparator: Comparator::AsciiCaseMap,
            index: None,
            index_last: false,
            mime: false,
            mime_opts: MimeOptsView::Absent,
            mime_anychild: false,
            address_part: AddressPart::All,
            list: false,
            first: None,
        }
    }
}

/// The clauses after the clause that the tag `word`, found at the given
/// place, opens was read from `s`.
pub open spec fn test_clause(
    kind: TestKind,
    line_num: usize,
    line_pos: usize,
    word: Word,
    s: Stream,
    a: TestArgs,
) -> Result<(TestArgs, Stream), CompileError> {
    match word {
        Word::Is => Ok((TestArgs { match_type: MatchType::Is, ..a }, s)),
        Word::Contains => Ok((TestArgs { match_type: MatchType::Contains, ..a }, s)),
        Word::Matches => Ok((TestArgs { match_type: MatchType::Matches(0), ..a }, s)),
        Word::Regex => Ok((TestArgs { match_type: MatchType::Regex(0), ..a }, s)),
        Word::Value => match keyword(
            s,
            |t: Seq<char>| relation_of(t),
            line_num,
            line_pos,
            Expectation::Relation,
        ) {
            Err(e) => Err(e),
            Ok((relation, rest)) => Ok(
                (TestArgs { match_type: MatchType::Value(relation), ..a }, rest),
            ),
        },
        Word::Count => match keyword(
            s,
            |t: Seq<char>| relation_of(t),
            line_num,
            line_pos,
            Expectation::Relation,
        ) {
            Err(e) => Err(e),
            Ok((relation, rest)) => Ok(
                (TestArgs { match_type: MatchType::Count(relation), ..a }, rest),
            ),
        },
        Word::List => if kind == TestKind::Address {
            Ok((TestArgs { list: true, ..a }, s))
        } else {
            Ok((TestArgs { match_type: MatchType::List, ..a }, s))
        },
        Word::Comparator => match s.static_string() {
            Err(e) => Err(e),
            Ok((name, rest)) => Ok((TestArgs { comparator: comparator_of(name), ..a }, rest)),
        },
        Word::Index => match s.number(0xffff) {
            Err(e) => Err(e),
            Ok((n, rest)) => Ok((TestArgs { index: Some(n as u16), ..a }, rest)),
        },
        Word::Last => Ok((TestArgs { index_last: true, ..a }, s)),
        Word::Mime => Ok((TestArgs { mime: true, ..a }, s)),
        Word::AnyChild => Ok((TestArgs { mime_anychild: true, ..a }, s)),
        Word::LocalPart => Ok((TestArgs { address_part: AddressPart::LocalPart, ..a }, s)),
        Word::Domain => Ok((TestArgs { address_part: AddressPart::Domain, ..a }, s)),
        Word::All => Ok((TestArgs { address_part: AddressPart::All, ..a }, s)),
        Word::User => Ok((TestArgs { address_part: AddressPart::User, ..a }, s)),
        Word::Detail => Ok((TestArgs { address_part: AddressPart::Detail, ..a }, s)),
        Word::Type => Ok((TestArgs { mime_opts: MimeOptsView::Type, ..a }, s)),
        Word::Subtype => Ok((TestArgs { mime_opts: MimeOptsView::Subtype, ..a }, s)),
        Word::ContentType => Ok((TestArgs { mime_opts: MimeOptsView::ContentType, ..a }, s)),
        _ => match s.strings() {
            Err(e) => Err(e),
            Ok((params, rest)) => Ok(
                (TestArgs { mime_opts: MimeOptsView::Param(params), ..a }, rest),
            ),
        },
    }
}

/// The clauses and the two string lists of a test of the kind, read from
/// `s`: clauses in any order, with the first list somewhere among them, up
/// to the second list, the keys.
pub open spec fn test_from(kind: TestKind, s: Stream, a: TestArgs) -> Result<
    (TestArgs, Seq<StringItem>, Stream),
    CompileError,
>
    decreases s.rest.len(),
{
    proof {
        if let Ok((info, s1)) = s.next() {
            lemma_strings_consume(info, s1);
            if let Ok((first, s2)) = s1.next() {
                lemma_strings_consume(first, s2);
            }
        }
    }
    match s.next() {
        Err(e) => Err(e),
        Ok((info, s1)) => match clause_word(kind, info.token) {
            Some(word) => match test_clause(kind, info.line_num, info.line_pos, word, s1, a) {
                Err(e) => Err(e),
                Ok((a2, s2)) => test_from(kind, s2, a2),
            },
            None => match strings_of(info, s1) {
                Err(e) => Err(e),
                Ok((items, s2)) => if a.first is None {
                    test_from(kind, s2, TestArgs { first: Some(items), ..a })
                } else {
                    Ok((a, items, s2))
                },
            },
        },
    }
}

/// The header test that the tokens of `s` describe. An option that needs
/// `:mime` without it is an error at the token after the test.
pub open spec fn header_test(s: Stream) -> Result<
    (TestArgs, Seq<StringItem>, Stream),
    CompileError,
> {
    match test_from(TestKind::Header, s, TestArgs::start()) {
        Err(e) => Err(e),
        Ok((a, keys, rest)) => if !a.mime && (a.mime_anychild || !(a.mime_opts is Absent)) {
            match rest.next() {
                Err(e) => Err(e),
                Ok((info, _)) => Err(
                    CompileError {
                        line_num: info.line_num,
                        line_pos: info.line_pos,
                        error_type: ErrorType::MissingMimeTag,
                    },
                ),
            }
        } else {
            Ok((a, keys, rest))
        },
    }
}

impl TestString {
    /// Whether this is the test with the clauses `a` and the keys `keys`.
    pub open spec fn has_args(self, a: TestArgs, keys: Seq<StringItem>) -> bool {
        &&& self.match_type == a.match_type
        &&& self.comparator == a.comparator
        &&& a.first == Some(self.source@)
        &&& self.key_list@ == keys
    }
}

impl TestAddress {
    /// Whether this is the test with the clauses `a` and the keys `keys`.
    pub open spec fn has_args(self, a: TestArgs, keys: Seq<StringItem>) -> bool {
        &&& self.match_type == a.match_type
        &&& self.comparator == a.comparator
        &&& a.first == Some(self.header_list@)
        &&& self.key_list@ == keys
        &&& self.address_part == a.address_part
        &&& self.index == composed_index(a.index, a.index_last)
        &&& self.mime == a.mime
        &&& self.mime_anychild == a.mime_anychild
        &&& self.list == a.list
    }
}

impl TestHeader {
    /// Whether this is the test with the clauses `a` and the keys `keys`,
    /// not negated.
    pub open spec fn has_args(self, a: TestArgs, keys: Seq<StringItem>) -> bool {
        &&& self.match_type == a.match_type
        &&& self.comparator == a.comparator
        &&& a.first == Some(self.header_list@)
        &&& self.key_list@ == keys
        &&& self.index == composed_index(a.index, a.index_last)
        &&& self.mime_opts@ == a.mime_opts
        &&& self.mime_anychild == a.mime_anychild
        &&& !self.is_not
    }
}

/// What the clauses of a test have set, while it is compiled.
struct Args {
    match_type: MatchType,
    comparator: Comparator,
    index: Option<u16>,
    index_last: bool,
    mime: bool,
    mime_opts: MimeOpts<StringItem>,
    mime_anychild: bool,
    address_part: AddressPart,
    list: bool,
    first: Option<Vec<StringItem>>,
}

impl Args {
    spec fn view(&self) -> TestArgs {
        TestArgs {
            match_type: self.match_type,
            comparator: self.comparator,
            index: self.index,
            index_last: self.index_last,
            mime: self.mime,
            mime_opts: self.mime_opts@,
            mime_anychild: self.mime_anychild,
            address_part: self.address_part,
            list: self.list,
            first: match self.first {
                Some(items) => Some(items@),
                None => None,
            },
        }
    }
}

/// The comparator that `name` stands for.
fn comparator_named(name: String) -> (r: Comparator)
    ensures
        r == comparator_of(name),
{
    if text_eq_ignore_case(name.as_str(), "i;octet") {
        Comparator::Octet
    } else if text_eq_ignore_case(name.as_str(), "i;ascii-casemap") {
        Comparator::AsciiCaseMap
    } else if text_eq_ignore_case(name.as_str(), "i;ascii-numeric") {
        Comparator::AsciiNumeric
    } else {
        Comparator::Other(name)
    }
}

impl CompilerState {
    /// Reads the relation after `:value` or `:count`.
    fn parse_relation(&mut self, line_num: usize, line_pos: usize) -> (r: Result<
        RelationalMatch,
        CompileError,
    >)
        ensures
            final(self).capabilities == old(self).capabilities,
            final(self).instructions == old(self).instructions,
            match keyword(
                old(self).tokens@,
                |t: Seq<char>| relation_of(t),
                line_num,
                line_pos,
                Expectation::Relation,
            ) {
                Ok((v, rest)) => r == Ok::<RelationalMatch, CompileError>(v) && final(self).tokens@ == rest,
                Err(e) => r == Err::<RelationalMatch, CompileError>(e),
            },
    {
        let text = match self.tokens.expect_static_string() {
            Ok(text) => text,
            Err(e) => {
                return Err(e);
            },
        };
        let name = text.as_str();
        if text_eq_ignore_case(name, "gt") {
            Ok(RelationalMatch::Gt)
        } else if text_eq_ignore_case(name, "ge") {
            Ok(RelationalMatch::Ge)
        } else if text_eq_ignore_case(name, "lt") {
            Ok(RelationalMatch::Lt)
        } else if text_eq_ignore_case(name, "le") {
            Ok(RelationalMatch::Le)
        } else if text_eq_ignore_case(name, "eq") {
            Ok(RelationalMatch::Eq)
        } else if text_eq_ignore_case(name, "ne") {
            Ok(RelationalMatch::Ne)
        } else {
            Err(
                CompileError {
                    line_num,
                    line_pos,
                    error_type: ErrorType::Expected(Expectation::Relation),
                },
            )
        }
    }

    /// Reads the clause that the tag `word`, found at the given place, opens.
    fn parse_test_clause(
        &mut self,
        kind: TestKind,
        line_num: usize,
        line_pos: usize,
        word: Word,
        a: Args,
    ) -> (r: Result<Args, CompileError>)
        ensures
            final(self).capabilities == old(self).capabilities,
            final(self).instructions == old(self).instructions,
            match test_clause(kind, line_num, line_pos, word, old(self).tokens@, a@) {
                Ok((v, rest)) => r is Ok && r->Ok_0@ == v && final(self).tokens@ == rest,
                Err(e) => r == Err::<Args, CompileError>(e),
            },
    {
        let mut a = a;
        match word {
            Word::Is => {
                a.match_type = MatchType::Is;
            },
            Word::Contains => {
                a.match_type = MatchType::Contains;
            },
            Word::Matches => {
                a.match_type = MatchType::Matches(0);
            },
            Word::Regex => {
                a.match_type = MatchType::Regex(0);
            },
            Word::Value => {
                a.match_type = match self.parse_relation(line_num, line_pos) {
                    Ok(relation) => MatchType::Value(relation),
                    Err(e) => {
                        return Err(e);
                    },
                };
            },
            Word::Count => {
                a.match_type = match self.parse_relation(line_num, line_pos) {
                    Ok(relation) => MatchType::Count(relation),
                    Err(e) => {
                        return Err(e);
                    },
                };
            },
            Word::List => {
                if kind == TestKind::Address {
                    a.list = true;
                } else {
                    a.match_type = MatchType::List;
                }
            },
            Word::Comparator => {
                a.comparator = match self.tokens.expect_static_string() {
                    Ok(name) => comparator_named(name),
                    Err(e) => {
                        return Err(e);
                    },
                };
            },
            Word::Index => {
                a.index = match self.tokens.expect_number(0xffff) {
                    Ok(n) => Some(n as u16),
                    Err(e) => {
                        return Err(e);
                    },
                };
            },
            Word::Last => {
                a.index_last = true;
            },
            Word::Mime => {
                a.mime = true;
            },
            Word::AnyChild => {
                a.mime_anychild = true;
            },
            Word::LocalPart => {
                a.address_part = AddressPart::LocalPart;
            },
            Word::Domain => {
                a.address_part = AddressPart::Domain;
            },
            Word::All => {
                a.address_part = AddressPart::All;
            },
            Word::User => {
                a.address_part = AddressPart::User;
            },
            Word::Detail => {
                a.address_part = AddressPart::Detail;
            },
            Word::Type => {
                a.mime_opts = MimeOpts::Type;
            },
            Word::Subtype => {
                a.mime_opts = MimeOpts::Subtype;
            },
            Word::ContentType => {
                a.mime_opts = MimeOpts::ContentType;
            },
            _ => {
                a.mime_opts = match self.parse_strings() {
                    Ok(params) => MimeOpts::Param(params),
                    Err(e) => {
                        return Err(e);
                    },
                };
            },
        }
        Ok(a)
    }

    /// Tells whether a test of the kind takes the clause that the word opens.
    fn takes_clause(kind: TestKind, word: Word) -> (r: bool)
        ensures
            r == takes(kind, word),
    {
        match word {
            Word::Is | Word::Contains | Word::Matches | Word::Value | Word::Count | Word::Regex
            | Word::List | Word::Comparator => true,
            Word::Index | Word::Last | Word::Mime | Word::AnyChild => kind != TestKind::String,
            Word::LocalPart | Word::Domain | Word::All | Word::User | Word::Detail => kind
                == TestKind::Address,
            Word::Type | Word::Subtype | Word::ContentType | Word::Param => kind
                == TestKind::Header,
            _ => false,
        }
    }

    /// Reads the clauses and the two string lists of a test of the kind.
    fn parse_test_args(&mut self, kind: TestKind) -> (r: Result<
        (Args, Vec<StringItem>),
        CompileError,
    >)
        ensures
            final(self).capabilities == old(self).capabilities,
            final(self).instructions == old(self).instructions,
            match test_from(kind, old(self).tokens@, TestArgs::start()) {
                Ok((a, keys, rest)) => {
                    &&& r is Ok
                    &&& r->Ok_0.0@ == a
                    &&& r->Ok_0.1@ == keys
                    &&& r->Ok_0.0.first is Some
                    &&& final(self).tokens@ == rest
                },
                Err(e) => r == Err::<(Args, Vec<StringItem>), CompileError>(e),
            },
    {
        let mut args = Args {
            match_type: MatchType::Is,
            comparator: Comparator::AsciiCaseMap,
            index: None,
            index_last: false,
            mime: false,
            mime_opts: MimeOpts::Absent,
            mime_anychild: false,
            address_part: AddressPart::All,
            list: false,
            first: None,
        };
        loop
            invariant
                self.capabilities == old(self).capabilities,
                self.instructions == old(self).instructions,
                test_from(kind, self.tokens@, args@) == test_from(
                    kind,
                    old(self).tokens@,
                    TestArgs::start(),
                ),
            decreases self.tokens@.rest.len(),
        {
            let ghost before = self.tokens@;
            let info = match self.tokens.unwrap_next() {
                Ok(info) => info,
                Err(e) => {
                    return Err(e);
                },
            };
            let word = match &info.token {
                Token::Tag(word) => if Self::takes_clause(kind, *word) {
                    Some(*word)
                } else {
                    None
                },
                _ => None,
            };
            proof {
                lemma_strings_consume(info, self.tokens@);
                if let Ok((first, s2)) = self.tokens@.next() {
                    lemma_strings_consume(first, s2);
                }
            }
            match word {
                Some(word) => {
                    args = match self.parse_test_clause(
                        kind,
                        info.line_num,
                        info.line_pos,
                        word,
                        args,
                    ) {
                        Ok(a) => a,
                        Err(e) => {
                            return Err(e);
                        },
                    };
                },
                None => {
                    let items = match self.parse_strings_token(info) {
                        Ok(items) => items,
                        Err(e) => {
                            return Err(e);
                        },
                    };
                    if args.first.is_none() {
                        args.first = Some(items);
                    } else {
                        return Ok((args, items));
                    }
                },
            }
        }
    }

    /// Compiles a test on strings: clauses in any order, the strings to look
    /// at, and the keys.
    pub fn parse_test_string(&mut self) -> (r: Result<Test, CompileError>)
        ensures
            final(self).capabilities == old(self).capabilities,
            final(self).instructions == old(self).instructions,
            match test_from(TestKind::String, old(self).tokens@, TestArgs::start()) {
                Ok((a, keys, rest)) => {
                    &&& r matches Ok(Test::String(t))
                    &&& t.has_args(a, keys)
                    &&& final(self).tokens@ == rest
                },
                Err(e) => r == Err::<Test, CompileError>(e),
            },
    {
        let (args, key_list) = match self.parse_test_args(TestKind::String) {
            Ok(parsed) => parsed,
            Err(e) => {
                return Err(e);
            },
        };
        Ok(
            Test::String(
                TestString {
                    source: args.first.unwrap(),
                    key_list,
                    match_type: args.match_type,
                    comparator: args.comparator,
                },
            ),
        )
    }

    /// Compiles a test on the addresses of headers: clauses in any order,
    /// the names of the headers, and the keys.
    pub fn parse_test_address(&mut self) -> (r: Result<Test, CompileError>)
        ensures
            final(self).capabilities == old(self).capabilities,
            final(self).instructions == old(self).instructions,
            match test_from(TestKind::Address, old(self).tokens@, TestArgs::start()) {
                Ok((a, keys, rest)) => {
                    &&& r matches Ok(Test::Address(t))
                    &&& t.has_args(a, keys)
                    &&& final(self).tokens@ == rest
                },
                Err(e) => r == Err::<Test, CompileError>(e),
            },
    {
        let (args, key_list) = match self.parse_test_args(TestKind::Address) {
            Ok(parsed) => parsed,
            Err(e) => {
                return Err(e);
            },
        };
        Ok(
            Test::Address(
                TestAddress {
                    header_list: args.first.unwrap(),
                    key_list,
                    address_part: args.address_part,
                    match_type: args.match_type,
                    comparator: args.comparator,
                    index: compose_index(args.index, args.index_last),
                    mime: args.mime,
                    mime_anychild: args.mime_anychild,
                    list: args.list,
                },
            ),
        )
    }

    /// Compiles a test on headers: clauses in any order, the names of the
    /// headers, and the keys.
    pub fn parse_test_header(&mut self) -> (r: Result<Test, CompileError>)
        ensures
            final(self).capabilities == old(self).capabilities,
            final(self).instructions == old(self).instructions,
            match header_test(old(self).tokens@) {
                Ok((a, keys, rest)) => {
                    &&& r matches Ok(Test::Header(t))
                    &&& t.has_args(a, keys)
                    &&& final(self).tokens@ == rest
                },
                Err(e) => r == Err::<Test, CompileError>(e),
            },
    {
        let (args, key_list) = match self.parse_test_args(TestKind::Header) {
            Ok(parsed) => parsed,
            Err(e) => {
                return Err(e);
            },
        };
        let has_opts = match &args.mime_opts {
            MimeOpts::Absent => false,
            _ => true,
        };
        if !args.mime && (args.mime_anychild || has_opts) {
            return match self.tokens.unwrap_next() {
                Ok(info) => Err(
                    CompileError {
                        line_num: info.line_num,
                        line_pos: info.line_pos,
                        error_type: ErrorType::MissingMimeTag,
                    },
                ),
                Err(e) => Err(e),
            };
        }
        Ok(
            Test::Header(
                TestHeader {
                    header_list: args.first.unwrap(),
                    key_list,
                    match_type: args.match_type,
                    comparator: args.comparator,
                    index: compose_index(args.index, args.index_last),
                    mime_opts: args.mime_opts,
                    mime_anychild: args.mime_anychild,
                    is_not: false,
                },
            ),
        )
    }
}

} // verus!
