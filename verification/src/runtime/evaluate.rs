//! The tests of a script at run time.

use vstd::prelude::*;
use crate::compiler::error::Capability;
use crate::compiler::predicates::{MimeOpts, MimeOptsView, TestHeader, TestString};
use crate::compiler::state::{Invalid, Test};
use crate::compiler::tokens::StringItem;
use crate::mailto::{texts, HeaderName, HeaderNameView};
use crate::runtime::comparator::{MatchType, RelationalMatch};
use crate::runtime::context::{Context, Variables};
use crate::runtime::glob::{captures, selected};
use crate::runtime::header_values::{attribute_texts, header_values, opts_texts};
use crate::runtime::headers::candidates;
use crate::runtime::matching::{Numbers, Search};
use crate::runtime::message::{Header, HeaderValue, Message};
use crate::text::{eq_ignore_case, text_eq_ignore_case};
use crate::uri::{known_header, registered_header};

verus! {

/// The match variables after a capture was put at its number: the list
/// grows by empty texts as far as it must.
pub open spec fn put_match(m: Seq<Seq<char>>, index: int, value: Seq<char>) -> Seq<Seq<char>> {
    if index < m.len() {
        m.update(index, value)
    } else {
        (m + Seq::new((index - m.len()) as nat, |i: int| Seq::<char>::empty())).push(value)
    }
}

/// The match variables that a list of captures gives: each capture at its
/// number, and the empty text at every number below that has none.
pub open spec fn matched_from(captured: Seq<(usize, Seq<char>)>) -> Seq<Seq<char>>
    decreases captured.len(),
{
    if captured.len() == 0 {
        Seq::empty()
    } else {
        put_match(
            matched_from(captured.drop_last()),
            captured.last().0 as int,
            captured.last().1,
        )
    }
}

/// The name of a header as the mail parser reads it: a header that it
/// knows, in its spelling, or the name as it stands.
pub open spec fn header_name_of(name: Seq<char>) -> HeaderNameView {
    match registered_header(name) {
        Some(canon) => HeaderNameView::Rfc(canon),
        None => HeaderNameView::Other(name),
    }
}

/// The name of a header as the mail parser reads it.
pub fn parse_header_name(name: String) -> (r: HeaderName)
    ensures
        r@ == header_name_of(name@),
{
    match known_header(name.as_str()) {
        Some(canon) => HeaderName::Rfc(canon),
        None => HeaderName::Other(name),
    }
}

impl Variables {
    /// Replaces the match variables by the captures.
    pub fn set_match_variables(&mut self, captured: Vec<(usize, String)>)
        ensures
            final(self).named == old(self).named,
            texts(final(self).matched@) == matched_from(captures(captured@)),
    {
        let ghost all = captures(captured@);
        let mut matched: Vec<String> = Vec::new();
        let mut captured = captured;
        let mut rest: Vec<(usize, String)> = Vec::new();
        while captured.len() > 0
            invariant
                captured@.len() + rest@.len() == all.len(),
                captures(captured@) == all.take(captured@.len() as int),
                forall|k: int|
                    0 <= k < rest@.len() ==> (#[trigger] rest@[k]).0 == all[all.len() - 1 - k].0
                        && rest@[k].1@ == all[all.len() - 1 - k].1,
            decreases captured.len(),
        {
            let ghost before = captured@;
            let entry = captured.pop().unwrap();
            assert(captures(captured@) =~= all.take(captured@.len() as int));
            assert(captures(before)[before.len() - 1] == (entry.0, entry.1@));
            rest.push(entry);
        }
        let ghost mut done: int = 0;
        assert(texts(matched@) =~= matched_from(all.take(0)));
        while rest.len() > 0
            invariant
                0 <= done <= all.len(),
                rest@.len() == all.len() - done,
                forall|k: int|
                    0 <= k < rest@.len() ==> (#[trigger] rest@[k]).0 == all[all.len() - 1 - k].0
                        && rest@[k].1@ == all[all.len() - 1 - k].1,
                texts(matched@) == matched_from(all.take(done)),
            decreases rest.len(),
        {
            let (index, value) = rest.pop().unwrap();
            assert(all.take(done + 1).drop_last() == all.take(done));
            assert(all.take(done + 1).last() == (index, value@));
            let ghost before = matched@;
            let ghost filled = texts(before) + Seq::new(
                (index - before.len()) as nat,
                |i: int| Seq::<char>::empty(),
            );
            while matched.len() < index
                invariant
                    before.len() <= matched@.len(),
                    index > before.len() ==> matched@.len() <= index,
                    index <= before.len() ==> matched@ == before,
                    forall|k: int| 0 <= k < before.len() ==> matched@[k] == before[k],
                    forall|k: int|
                        before.len() <= k < matched@.len() ==> (#[trigger] matched@[k])@
                            == Seq::<char>::empty(),
                decreases index - matched.len(),
            {
                matched.push(String::new());
            }
            if index < matched.len() {
                matched.set(index, value);
                assert(texts(matched@) =~= put_match(texts(before), index as int, value@));
            } else {
                matched.push(value);
                assert(texts(matched@) =~= put_match(texts(before), index as int, value@));
            }
            proof {
                done = done + 1;
            }
        }
        assert(all.take(all.len() as int) == all);
        self.matched = matched;
    }

    /// The names of headers that a list of strings stands for.
    pub fn parse_header_names(&self, items: &Vec<StringItem>) -> (r: Vec<HeaderName>)
        ensures
            r@.len() == items@.len(),
            forall|i: int|
                0 <= i < r@.len() ==> (#[trigger] r@[i])@ == header_name_of(self.text(items@[i])),
    {
        let mut names: Vec<HeaderName> = Vec::new();
        let mut i: usize = 0;
        while i < items.len()
            invariant
                i <= items.len(),
                names@.len() == i,
                forall|k: int|
                    0 <= k < i ==> (#[trigger] names@[k])@ == header_name_of(
                        self.text(items@[k]),
                    ),
            decreases items.len() - i,
        {
            names.push(parse_header_name(self.eval_string(&items[i])));
            i += 1;
        }
        names
    }

    /// A view of a MIME header with its strings put together.
    pub open spec fn mime_opts(self, opts: MimeOptsView<StringItem>) -> MimeOptsView<Seq<char>> {
        match opts {
            MimeOptsView::Type => MimeOptsView::Type,
            MimeOptsView::Subtype => MimeOptsView::Subtype,
            MimeOptsView::ContentType => MimeOptsView::ContentType,
            MimeOptsView::Param(params) => MimeOptsView::Param(self.texts(params)),
            MimeOptsView::Absent => MimeOptsView::Absent,
        }
    }

    /// Puts the strings of a view of a MIME header together.
    pub fn eval_mime_opts(&self, opts: &MimeOpts<StringItem>) -> (r: MimeOpts<String>)
        ensures
            opts_texts(r@) == self.mime_opts(opts@),
    {
        match opts {
            MimeOpts::Type => MimeOpts::Type,
            MimeOpts::Subtype => MimeOpts::Subtype,
            MimeOpts::ContentType => MimeOpts::ContentType,
            MimeOpts::Param(params) => MimeOpts::Param(self.eval_strings_owned(params)),
            MimeOpts::Absent => MimeOpts::Absent,
        }
    }
}

/// The values of the headers at `places`, as a test sees them, one header
/// after the other.
pub open spec fn values_at(
    message: Message,
    places: Seq<(usize, usize)>,
    opts: MimeOptsView<Seq<char>>,
) -> Seq<Seq<char>>
    decreases places.len(),
{
    if places.len() == 0 {
        Seq::empty()
    } else {
        values_at(message, places.drop_last(), opts) + header_values(
            message,
            message.header_at(places.last()),
            opts,
        )
    }
}

/// Whether one of `params` is `name`, ASCII case aside.
pub open spec fn names_attribute(params: Seq<Seq<char>>, name: Seq<char>) -> bool {
    exists|i: int| 0 <= i < params.len() && eq_ignore_case(#[trigger] params[i], name)
}

/// The number of attributes that one of `params` names.
pub open spec fn count_named(params: Seq<Seq<char>>, attributes: Seq<(Seq<char>, Seq<char>)>) -> nat
    decreases attributes.len(),
{
    if attributes.len() == 0 {
        0
    } else {
        count_named(params, attributes.drop_last()) + if names_attribute(
            params,
            attributes.last().0,
        ) {
            1nat
        } else {
            0nat
        }
    }
}

/// What a header adds to a count: one as it stands; under a view of a MIME
/// header one if it holds a content type; and under named parameters the
/// number of its attributes of such a name.
pub open spec fn counted(header: Header, opts: MimeOptsView<Seq<char>>) -> nat {
    match opts {
        MimeOptsView::Absent => 1,
        MimeOptsView::Param(params) => match header.value {
            HeaderValue::ContentType(ct) => match ct.attributes {
                Some(attributes) => count_named(params, attribute_texts(attributes@)),
                None => 0,
            },
            _ => 0,
        },
        _ => if header.value is ContentType {
            1
        } else {
            0
        },
    }
}

/// What the headers at `places` add up to in a count.
pub open spec fn count_at(
    message: Message,
    places: Seq<(usize, usize)>,
    opts: MimeOptsView<Seq<char>>,
) -> nat
    decreases places.len(),
{
    if places.len() == 0 {
        0
    } else {
        count_at(message, places.drop_last(), opts) + counted(
            message.header_at(places.last()),
            opts,
        )
    }
}

/// Whether the count meets one of the first `n` keys, given how it stands to
/// each of them.
pub open spec fn count_meets(relation: RelationalMatch, numbers: Numbers, n: int) -> bool {
    exists|j: int| 0 <= j < n && relation.holds_of_numbers(#[trigger] numbers.count(j))
}

/// Tells whether the count meets one of the first `n` keys.
pub(crate) fn test_count(relation: &RelationalMatch, numbers: &Numbers, n: usize) -> (r: bool)
    ensures
        r == count_meets(*relation, *numbers, n as int),
{
    let mut j: usize = 0;
    while j < n
        invariant
            j <= n,
            forall|k: int| 0 <= k < j ==> !relation.holds_of_numbers(#[trigger] numbers.count(k)),
        decreases n - j,
    {
        if relation.test_numbers(numbers.get_count(j)) {
            return true;
        }
        j += 1;
    }
    false
}

/// Tells whether one of `params` is `name`, ASCII case aside.
fn param_names(params: &Vec<String>, name: &str) -> (r: bool)
    ensures
        r == names_attribute(texts(params@), name@),
{
    let mut i: usize = 0;
    while i < params.len()
        invariant
            i <= params.len(),
            forall|k: int| 0 <= k < i ==> !eq_ignore_case(#[trigger] texts(params@)[k], name@),
        decreases params.len() - i,
    {
        if text_eq_ignore_case(params[i].as_str(), name) {
            assert(eq_ignore_case(texts(params@)[i as int], name@));
            return true;
        }
        i += 1;
    }
    false
}

/// What a header adds to a count; at most `limit`.
fn count_header(header: &Header, opts: &MimeOpts<String>, limit: usize) -> (r: usize)
    ensures
        r == if counted(*header, opts_texts(opts@)) <= limit {
            counted(*header, opts_texts(opts@))
        } else {
            limit as nat
        },
{
    match opts {
        MimeOpts::Absent => if limit >= 1 {
            1
        } else {
            0
        },
        MimeOpts::Param(params) => match &header.value {
            HeaderValue::ContentType(ct) => match &ct.attributes {
                Some(attributes) => {
                    let ghost all = attribute_texts(attributes@);
                    let mut count: usize = 0;
                    let mut i: usize = 0;
                    while i < attributes.len()
                        invariant
                            i <= attributes.len(),
                            all == attribute_texts(attributes@),
                            count <= limit,
                            count == if count_named(texts(params@), all.take(i as int))
                                <= limit {
                                count_named(texts(params@), all.take(i as int))
                            } else {
                                limit as nat
                            },
                        decreases attributes.len() - i,
                    {
                        assert(all.take(i + 1).drop_last() == all.take(i as int));
                        assert(all.take(i + 1).last() == all[i as int]);
                        if param_names(params, attributes[i].0.as_str()) && count < limit {
                            count += 1;
                        }
                        i += 1;
                    }
                    assert(all.take(all.len() as int) == all);
                    count
                },
                None => 0,
            },
            _ => 0,
        },
        _ => match &header.value {
            HeaderValue::ContentType(_) => if limit >= 1 {
                1
            } else {
                0
            },
            _ => 0,
        },
    }
}

impl TestHeader {
    /// The names of the headers that the test looks for.
    pub open spec fn names(self, vars: Variables) -> Seq<HeaderNameView> {
        Seq::new(
            self.header_list@.len(),
            |i: int| header_name_of(vars.text(self.header_list@[i])),
        )
    }

    /// The headers that the test looks at, each as its part and its place.
    pub open spec fn places(self, ctx: Context) -> Seq<(usize, usize)> {
        candidates(ctx.message, ctx.part, self.names(ctx.vars), self.index, self.mime_anychild)
    }

    /// The values that the test looks at, in its order.
    pub open spec fn spec_subjects(self, ctx: Context) -> Seq<Seq<char>> {
        values_at(ctx.message, self.places(ctx), ctx.vars.mime_opts(self.mime_opts@))
    }

    /// The number that a test of counts goes by, when it fits the machine.
    pub open spec fn spec_count(self, ctx: Context) -> nat {
        count_at(ctx.message, self.places(ctx), ctx.vars.mime_opts(self.mime_opts@))
    }

    /// The search that the test makes.
    pub open spec fn search(self, ctx: Context, numbers: Numbers) -> Search {
        Search {
            match_type: self.match_type,
            comparator: self.comparator,
            values: self.spec_subjects(ctx),
            keys: ctx.vars.texts(self.key_list@),
            numbers,
        }
    }

    /// What the test finds, before it is negated: for a count whether the
    /// count meets a key, for every other match type whether a value meets
    /// a key; a list is never met.
    pub open spec fn found(self, ctx: Context, numbers: Numbers) -> bool {
        match self.match_type {
            MatchType::Count(relation) => count_meets(
                relation,
                numbers,
                self.key_list@.len() as int,
            ),
            MatchType::List => false,
            _ => self.search(ctx, numbers).first_match(0) is Some,
        }
    }

    /// The captures that the test publishes as match variables: the groups
    /// of the first match that are asked for, if there are any.
    pub open spec fn captured(self, ctx: Context, numbers: Numbers) -> Option<
        Seq<(usize, Seq<char>)>,
    > {
        match self.search(ctx, numbers).published() {
            Some((groups, positions)) => if selected(groups, positions, 64).len() > 0 {
                Some(selected(groups, positions, 64))
            } else {
                None
            },
            None => None,
        }
    }

    /// The headers that the test looks at.
    fn find(&self, ctx: &Context) -> (r: Vec<(usize, usize)>)
        ensures
            r@ == self.places(*ctx),
            forall|k: int|
                0 <= k < r@.len() ==> (#[trigger] r@[k]).0 < ctx.message.parts@.len() && r@[k].1
                    < ctx.message.parts@[r@[k].0 as int].headers@.len(),
    {
        let names = ctx.vars.parse_header_names(&self.header_list);
        assert(crate::runtime::headers::name_views(names@) =~= self.names(ctx.vars));
        ctx.header_candidates(&names, self.index, self.mime_anychild)
    }

    /// The values that the test looks at, in its order.
    pub fn subjects(&self, ctx: &Context) -> (r: Vec<String>)
        ensures
            texts(r@) == self.spec_subjects(*ctx),
    {
        let places = self.find(ctx);
        let opts = ctx.vars.eval_mime_opts(&self.mime_opts);
        let ghost o = ctx.vars.mime_opts(self.mime_opts@);
        let mut values: Vec<String> = Vec::new();
        let mut k: usize = 0;
        assert(texts(values@) =~= values_at(ctx.message, places@.take(0), o));
        while k < places.len()
            invariant
                k <= places.len(),
                o == opts_texts(opts@),
                forall|l: int|
                    0 <= l < places@.len() ==> (#[trigger] places@[l]).0
                        < ctx.message.parts@.len() && places@[l].1
                        < ctx.message.parts@[places@[l].0 as int].headers@.len(),
                texts(values@) == values_at(ctx.message, places@.take(k as int), o),
            decreases places.len() - k,
        {
            let (part, pos) = places[k];
            let ghost before = values@;
            let mut more = ctx.message.find_header_values(
                &ctx.message.parts[part].headers[pos],
                &opts,
            );
            let ghost added = more@;
            values.append(&mut more);
            proof {
                assert(places@.take(k + 1).drop_last() == places@.take(k as int));
                assert(places@.take(k + 1).last() == (part, pos));
                assert(texts(values@) =~= texts(before) + texts(added));
            }
            k += 1;
        }
        assert(places@.take(places@.len() as int) == places@);
        values
    }

    /// The number that a test of counts goes by; the greatest number of the
    /// machine stands for all beyond it.
    pub fn count(&self, ctx: &Context) -> (r: usize)
        ensures
            r == if self.spec_count(*ctx) <= usize::MAX {
                self.spec_count(*ctx)
            } else {
                usize::MAX as nat
            },
    {
        let places = self.find(ctx);
        let opts = ctx.vars.eval_mime_opts(&self.mime_opts);
        let ghost o = ctx.vars.mime_opts(self.mime_opts@);
        let mut count: usize = 0;
        let mut k: usize = 0;
        while k < places.len()
            invariant
                k <= places.len(),
                o == opts_texts(opts@),
                forall|l: int|
                    0 <= l < places@.len() ==> (#[trigger] places@[l]).0
                        < ctx.message.parts@.len() && places@[l].1
                        < ctx.message.parts@[places@[l].0 as int].headers@.len(),
                count == if count_at(ctx.message, places@.take(k as int), o) <= usize::MAX {
                    count_at(ctx.message, places@.take(k as int), o)
                } else {
                    usize::MAX as nat
                },
            decreases places.len() - k,
        {
            let (part, pos) = places[k];
            proof {
                assert(places@.take(k + 1).drop_last() == places@.take(k as int));
                assert(places@.take(k + 1).last() == (part, pos));
            }
            let more = count_header(
                &ctx.message.parts[part].headers[pos],
                &opts,
                usize::MAX - count,
            );
            count += more;
            k += 1;
        }
        assert(places@.take(places@.len() as int) == places@);
        count
    }

    /// Runs the test on the message of the context; `numbers` says how the
    /// values, in the order of `subjects`, and the count stand to the keys
    /// as numbers. A pattern that is met and asks for groups sets the match
    /// variables; nothing else of the context changes.
    pub fn exec(&self, ctx: &mut Context, numbers: &Numbers) -> (r: bool)
        ensures
            r == (self.found(*old(ctx), *numbers) ^ self.is_not),
            old(ctx).same_but_matched(*final(ctx)),
            match self.captured(*old(ctx), *numbers) {
                Some(captured) => texts(final(ctx).vars.matched@) == matched_from(captured),
                None => final(ctx).vars.matched == old(ctx).vars.matched,
            },
    {
        match &self.match_type {
            MatchType::Count(relation) => {
                test_count(relation, numbers, self.key_list.len()) ^ self.is_not
            },
            MatchType::List => self.is_not,
            _ => {
                let values = self.subjects(ctx);
                let keys = ctx.vars.eval_strings_owned(&self.key_list);
                let mut captured: Vec<(usize, String)> = Vec::new();
                let found = self.match_type.match_any(
                    &values,
                    &keys,
                    &self.comparator,
                    numbers,
                    &mut captured,
                );
                if captured.len() > 0 {
                    ctx.vars.set_match_variables(captured);
                }
                found ^ self.is_not
            },
        }
    }
}

impl TestString {
    /// The search that the test makes: through its strings, put together,
    /// and for each of them through the keys.
    pub open spec fn search(self, vars: Variables, numbers: Numbers) -> Search {
        Search {
            match_type: self.match_type,
            comparator: self.comparator,
            values: vars.texts(self.source@),
            keys: vars.texts(self.key_list@),
            numbers,
        }
    }

    /// What the test finds: for a count whether the count meets a key, for
    /// every other match type whether a string meets a key; a list is never
    /// met.
    pub open spec fn found(self, vars: Variables, numbers: Numbers) -> bool {
        match self.match_type {
            MatchType::Count(relation) => count_meets(
                relation,
                numbers,
                self.key_list@.len() as int,
            ),
            MatchType::List => false,
            _ => self.search(vars, numbers).first_match(0) is Some,
        }
    }

    /// The captures that the test publishes as match variables.
    pub open spec fn captured(self, vars: Variables, numbers: Numbers) -> Option<
        Seq<(usize, Seq<char>)>,
    > {
        match self.search(vars, numbers).published() {
            Some((groups, positions)) => if selected(groups, positions, 64).len() > 0 {
                Some(selected(groups, positions, 64))
            } else {
                None
            },
            None => None,
        }
    }

    /// Runs the test; `numbers` says how the strings and the count stand to
    /// the keys as numbers. A pattern that is met and asks for groups sets
    /// the match variables.
    pub fn exec(&self, vars: &mut Variables, numbers: &Numbers) -> (r: bool)
        ensures
            r == self.found(*old(vars), *numbers),
            final(vars).named == old(vars).named,
            match self.captured(*old(vars), *numbers) {
                Some(captured) => texts(final(vars).matched@) == matched_from(captured),
                None => final(vars).matched == old(vars).matched,
            },
    {
        match &self.match_type {
            MatchType::Count(relation) => test_count(relation, numbers, self.key_list.len()),
            MatchType::List => false,
            _ => {
                let values = vars.eval_strings_owned(&self.source);
                let keys = vars.eval_strings_owned(&self.key_list);
                let mut captured: Vec<(usize, String)> = Vec::new();
                let found = self.match_type.match_any(
                    &values,
                    &keys,
                    &self.comparator,
                    numbers,
                    &mut captured,
                );
                if captured.len() > 0 {
                    vars.set_match_variables(captured);
                }
                found
            },
        }
    }
}

/// A question that the runtime cannot answer by itself.
#[derive(Debug)]
pub enum Event {
    /// Whether all of the mailboxes exist.
    MailboxExists { names: Vec<String> },
}

/// Why a script cannot go on.
#[derive(Debug)]
pub enum RuntimeError {
    /// The script came to a construct that was not understood.
    InvalidInstruction(Invalid),
    /// The script came to a test that the runtime does not run yet.
    NotSupported,
}

/// What a test comes to.
#[derive(Debug)]
pub enum TestResult {
    Bool(bool),
    /// The answer to `event` decides; `is_not` says whether it is to be
    /// negated.
    Event { event: Event, is_not: bool },
    Error(RuntimeError),
}

/// Whether all of `wanted` are among `allowed`.
pub open spec fn all_allowed(wanted: Seq<Capability>, allowed: Seq<Capability>) -> bool {
    forall|i: int| 0 <= i < wanted.len() ==> allowed.contains(#[trigger] wanted[i])
}

/// Tells whether all of `wanted` are among `allowed`.
fn has_all(wanted: &Vec<Capability>, allowed: &Vec<Capability>) -> (r: bool)
    ensures
        r == all_allowed(wanted@, allowed@),
{
    let mut i: usize = 0;
    while i < wanted.len()
        invariant
            i <= wanted.len(),
            forall|k: int| 0 <= k < i ==> allowed@.contains(#[trigger] wanted@[k]),
        decreases wanted.len() - i,
    {
        let mut j: usize = 0;
        let mut found = false;
        while j < allowed.len()
            invariant
                j <= allowed.len(),
                i < wanted.len(),
                found ==> allowed@.contains(wanted@[i as int]),
                !found ==> forall|k: int| 0 <= k < j ==> allowed@[k] != wanted@[i as int],
            decreases allowed.len() - j,
        {
            if allowed[j] == wanted[i] {
                found = true;
                assert(allowed@[j as int] == wanted@[i as int]);
            }
            j += 1;
        }
        if !found {
            assert(!allowed@.contains(wanted@[i as int]));
            return false;
        }
        i += 1;
    }
    true
}

impl Test {
    /// Whether the context `after` and the result `r` are what the test makes
    /// of the context `before`. A test on headers or strings gives its
    /// verdict and may set the match variables; a test on extensions holds
    /// when all of them are allowed; a test on mailboxes hands the question
    /// to the caller; a construct that was not understood is an error, and
    /// so is a test that the runtime does not run yet.
    pub open spec fn ran(self, before: Context, after: Context, numbers: Numbers, r: TestResult) -> bool {
        match self {
            Test::Header(test) => {
                &&& r matches TestResult::Bool(b)
                &&& b == (test.found(before, numbers) ^ test.is_not)
                &&& before.same_but_matched(after)
                &&& match test.captured(before, numbers) {
                    Some(captured) => texts(after.vars.matched@) == matched_from(captured),
                    None => after.vars.matched == before.vars.matched,
                }
            },
            Test::String(test) => {
                &&& r matches TestResult::Bool(b)
                &&& b == test.found(before.vars, numbers)
                &&& before.same_but_matched(after)
                &&& match test.captured(before.vars, numbers) {
                    Some(captured) => texts(after.vars.matched@) == matched_from(captured),
                    None => after.vars.matched == before.vars.matched,
                }
            },
            Test::Date(test) => {
                &&& r matches TestResult::Bool(b)
                &&& b == (test.found(before, numbers) ^ test.is_not)
                &&& before.same_but_matched(after)
                &&& match test.captured(before, numbers) {
                    Some(captured) => texts(after.vars.matched@) == matched_from(captured),
                    None => after.vars.matched == before.vars.matched,
                }
            },
            Test::CurrentDate(test) => {
                &&& r matches TestResult::Bool(b)
                &&& b == (test.found(before, numbers) ^ test.is_not)
                &&& before.same_but_matched(after)
                &&& match test.captured(before, numbers) {
                    Some(captured) => texts(after.vars.matched@) == matched_from(captured),
                    None => after.vars.matched == before.vars.matched,
                }
            },
            Test::Ihave(test) => {
                &&& after == before
                &&& r matches TestResult::Bool(b)
                &&& b == (all_allowed(test.capabilities@, before.runtime.allowed_capabilities@)
                    ^ test.is_not)
            },
            Test::MailboxExists(test) => {
                &&& after == before
                &&& r matches TestResult::Event { event: Event::MailboxExists { names }, is_not }
                &&& texts(names@) == before.vars.texts(test.mailbox_names@)
                &&& is_not == test.is_not
            },
            Test::True => {
                &&& after == before
                &&& r matches TestResult::Bool(true)
            },
            Test::False => {
                &&& after == before
                &&& r matches TestResult::Bool(false)
            },
            Test::Invalid(invalid) => {
                &&& after == before
                &&& r matches TestResult::Error(RuntimeError::InvalidInstruction(i))
                &&& i == invalid
            },
            Test::Address(_) | Test::Convert(_) => {
                &&& after == before
                &&& r matches TestResult::Error(RuntimeError::NotSupported)
            },
        }
    }

    /// Runs the test; `numbers` says how its values and its count stand to
    /// its keys as numbers.
    pub fn exec(&self, ctx: &mut Context, numbers: &Numbers) -> (r: TestResult)
        ensures
            self.ran(*old(ctx), *final(ctx), *numbers, r),
    {
        match self {
            Test::Header(test) => TestResult::Bool(test.exec(ctx, numbers)),
            Test::String(test) => TestResult::Bool(test.exec(&mut ctx.vars, numbers)),
            Test::Date(test) => TestResult::Bool(test.exec(ctx, numbers)),
            Test::CurrentDate(test) => TestResult::Bool(test.exec(ctx, numbers)),
            Test::Ihave(test) => TestResult::Bool(
                has_all(&test.capabilities, &ctx.runtime.allowed_capabilities) ^ test.is_not,
            ),
            Test::MailboxExists(test) => TestResult::Event {
                event: Event::MailboxExists {
                    names: ctx.vars.eval_strings_owned(&test.mailbox_names),
                },
                is_not: test.is_not,
            },
            Test::True => TestResult::Bool(true),
            Test::False => TestResult::Bool(false),
            Test::Invalid(invalid) => TestResult::Error(
                RuntimeError::InvalidInstruction(invalid.clone()),
            ),
            Test::Address(_) | Test::Convert(_) => TestResult::Error(RuntimeError::NotSupported),
        }
    }
}

impl Context {
    /// Whether `after` differs from this context in its match variables at
    /// most.
    pub open spec fn same_but_matched(self, after: Context) -> bool {
        &&& after.message == self.message
        &&& after.part == self.part
        &&& after.runtime == self.runtime
        &&& after.user_address == self.user_address
        &&& after.user_full_name == self.user_full_name
        &&& after.current_time == self.current_time
        &&& after.actions == self.actions
        &&& after.messages == self.messages
        &&& after.has_changes == self.has_changes
        &&& after.edited_message == self.edited_message
        &&& after.vars.named == self.vars.named
    }
}

} // verus!
