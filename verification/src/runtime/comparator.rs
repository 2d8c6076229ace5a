//! Comparators: equality, containment and order of texts, as every test of a
//! script applies them.

use vstd::prelude::*;
use crate::text::{chars_occur, occurs, to_chars};

verus! {

/// How texts are held against each other.
#[derive(Debug)]
pub enum Comparator {
    /// Character by character.
    Octet,
    /// After case was folded.
    AsciiCaseMap,
    /// As numbers.
    AsciiNumeric,
    /// A comparator of the host, by name; it compares as `AsciiCaseMap` does.
    Other(String),
}

/// An order to test for.
#[derive(Clone, Copy, Debug, PartialEq, Eq, Structural, Hash)]
pub enum RelationalMatch {
    Gt,
    Ge,
    Lt,
    Le,
    Eq,
    Ne,
}

/// The shape of a test between a value and a key.
#[derive(Clone, Copy, Debug, PartialEq, Eq, Structural, Hash)]
pub enum MatchType {
    Is,
    Contains,
    Value(RelationalMatch),
    /// A glob pattern, with the set of capture groups to publish as bits.
    Matches(u64),
    /// A regular expression, with the set of capture groups to publish.
    Regex(u64),
    Count(RelationalMatch),
    List,
}

/// How one value stands to another.
#[derive(Clone, Copy, Debug, PartialEq, Eq, Structural, Hash)]
pub enum Order {
    Less,
    Equal,
    Greater,
}

/// How two texts stand to each other when both are read as numbers.
#[derive(Clone, Copy, Debug, PartialEq, Eq, Structural, Hash)]
pub enum NumericOrder {
    /// One of the two is no number.
    NotNumbers,
    /// Both are numbers, in this order.
    Ordered(Order),
    /// Both are numbers, but one of them is not a value that has an order.
    Unordered,
}

/// The order of two texts, character by character; a text comes before every
/// longer text that starts with it.
pub open spec fn text_order(a: Seq<char>, b: Seq<char>) -> Order
    decreases a.len(),
{
    if a.len() == 0 {
        if b.len() == 0 {
            Order::Equal
        } else {
            Order::Less
        }
    } else if b.len() == 0 {
        Order::Greater
    } else if a[0] < b[0] {
        Order::Less
    } else if a[0] > b[0] {
        Order::Greater
    } else {
        text_order(a.drop_first(), b.drop_first())
    }
}

/// Texts stand equal exactly when they are the same.
pub proof fn lemma_text_order_equal(a: Seq<char>, b: Seq<char>)
    ensures
        (text_order(a, b) == Order::Equal) == (a == b),
    decreases a.len(),
{
    if a.len() > 0 && b.len() > 0 {
        lemma_text_order_equal(a.drop_first(), b.drop_first());
        if a.drop_first() == b.drop_first() && a[0] == b[0] {
            assert(a =~= seq![a[0]] + a.drop_first());
            assert(b =~= seq![b[0]] + b.drop_first());
        }
        if a == b {
            assert(a.drop_first() == b.drop_first());
        }
    } else {
        assert(a == b ==> a.len() == b.len());
        if a.len() == 0 && b.len() == 0 {
            assert(a =~= b);
        }
    }
}

/// The order of two lists of characters.
pub fn order_chars(a: &Vec<char>, b: &Vec<char>) -> (r: Order)
    ensures
        r == text_order(a@, b@),
{
    let mut i: usize = 0;
    assert(a@.skip(0) == a@ && b@.skip(0) == b@);
    loop
        invariant
            i <= a.len(),
            i <= b.len(),
            text_order(a@, b@) == text_order(a@.skip(i as int), b@.skip(i as int)),
        decreases a.len() - i,
    {
        if i == a.len() {
            return if i == b.len() {
                Order::Equal
            } else {
                Order::Less
            };
        }
        if i == b.len() {
            return Order::Greater;
        }
        assert(a@.skip(i as int)[0] == a@[i as int]);
        assert(b@.skip(i as int)[0] == b@[i as int]);
        if a[i] < b[i] {
            return Order::Less;
        }
        if a[i] > b[i] {
            return Order::Greater;
        }
        assert(a@.skip(i as int).drop_first() == a@.skip(i + 1));
        assert(b@.skip(i as int).drop_first() == b@.skip(i + 1));
        i += 1;
    }
}

impl RelationalMatch {
    /// Whether a value that stands in `order` to another meets the relation.
    pub open spec fn holds(self, order: Order) -> bool {
        match self {
            RelationalMatch::Gt => order == Order::Greater,
            RelationalMatch::Ge => order != Order::Less,
            RelationalMatch::Lt => order == Order::Less,
            RelationalMatch::Le => order != Order::Greater,
            RelationalMatch::Eq => order == Order::Equal,
            RelationalMatch::Ne => order != Order::Equal,
        }
    }

    /// Whether two numbers that stand in `numeric` to each other meet the
    /// relation. Nothing holds of texts that are no numbers; of numbers
    /// without an order only that they are not equal.
    pub open spec fn holds_of_numbers(self, numeric: NumericOrder) -> bool {
        match numeric {
            NumericOrder::NotNumbers => false,
            NumericOrder::Ordered(order) => self.holds(order),
            NumericOrder::Unordered => self == RelationalMatch::Ne,
        }
    }

    /// Tells whether a value that stands in `order` to another meets the
    /// relation.
    pub fn test(&self, order: Order) -> (r: bool)
        ensures
            r == self.holds(order),
    {
        match self {
            RelationalMatch::Gt => order == Order::Greater,
            RelationalMatch::Ge => order != Order::Less,
            RelationalMatch::Lt => order == Order::Less,
            RelationalMatch::Le => order != Order::Greater,
            RelationalMatch::Eq => order == Order::Equal,
            RelationalMatch::Ne => order != Order::Equal,
        }
    }

    /// Tells whether two numbers that stand in `numeric` to each other meet
    /// the relation.
    pub fn test_numbers(&self, numeric: NumericOrder) -> (r: bool)
        ensures
            r == self.holds_of_numbers(numeric),
    {
        match numeric {
            NumericOrder::NotNumbers => false,
            NumericOrder::Ordered(order) => self.test(order),
            NumericOrder::Unordered => *self == RelationalMatch::Ne,
        }
    }
}

/// The text in lower case, as the standard library folds it.
pub uninterp spec fn lowercase(text: Seq<char>) -> Seq<char>;

/// `str::to_lowercase` of the standard library: the lower-case form of the
/// text under the rules of Unicode.
#[verifier::external_body]
pub(crate) fn to_lowercase(text: &str) -> (r: String)
    ensures
        r@ == lowercase(text@),
{
    text.to_lowercase()
}

impl Comparator {
    /// Whether the comparator folds case before it compares: every
    /// comparator but `Octet` and, for equality and order, `AsciiNumeric`.
    pub open spec fn folds(self) -> bool {
        !(self is Octet)
    }

    /// The text as the comparator looks at it.
    pub open spec fn seen(self, text: Seq<char>) -> Seq<char> {
        if self.folds() {
            lowercase(text)
        } else {
            text
        }
    }

    /// Whether `a` is `b` under the comparator; `numeric` says how the two
    /// stand as numbers.
    pub open spec fn spec_is(self, a: Seq<char>, b: Seq<char>, numeric: NumericOrder) -> bool {
        match self {
            Comparator::AsciiNumeric => numeric == NumericOrder::Ordered(Order::Equal),
            _ => self.seen(a) == self.seen(b),
        }
    }

    /// Whether `needle` stands in `haystack` under the comparator. The empty
    /// text stands in every text.
    pub open spec fn spec_contains(self, haystack: Seq<char>, needle: Seq<char>) -> bool {
        needle.len() == 0 || occurs(self.seen(haystack), self.seen(needle), false)
    }

    /// Whether `a` stands to `b` as `relation` says, under the comparator;
    /// `numeric` says how the two stand as numbers.
    pub open spec fn spec_relational(
        self,
        relation: RelationalMatch,
        a: Seq<char>,
        b: Seq<char>,
        numeric: NumericOrder,
    ) -> bool {
        match self {
            Comparator::AsciiNumeric => relation.holds_of_numbers(numeric),
            _ => relation.holds(text_order(self.seen(a), self.seen(b))),
        }
    }

    /// The characters of the text as the comparator looks at it.
    fn look(&self, text: &str) -> (r: Vec<char>)
        ensures
            r@ == self.seen(text@),
    {
        match self {
            Comparator::Octet => to_chars(text),
            _ => to_chars(to_lowercase(text).as_str()),
        }
    }

    /// Tells whether `a` is `b` under the comparator. `Octet` takes the texts
    /// as they are, `AsciiNumeric` goes by `numeric`, which says how the two
    /// stand as numbers, and every other comparator folds case first.
    pub fn is(&self, a: &str, b: &str, numeric: NumericOrder) -> (r: bool)
        ensures
            r == self.spec_is(a@, b@, numeric),
    {
        match self {
            Comparator::AsciiNumeric => numeric == NumericOrder::Ordered(Order::Equal),
            _ => {
                let x = self.look(a);
                let y = self.look(b);
                proof {
                    lemma_text_order_equal(x@, y@);
                }
                order_chars(&x, &y) == Order::Equal
            },
        }
    }

    /// Tells whether `needle` stands in `haystack` under the comparator.
    pub fn contains(&self, haystack: &str, needle: &str) -> (r: bool)
        ensures
            r == self.spec_contains(haystack@, needle@),
    {
        if needle.is_empty() {
            return true;
        }
        let h = self.look(haystack);
        let n = self.look(needle);
        chars_occur(&h, &n, false)
    }

    /// Tells whether `a` stands to `b` as `relation` says, under the
    /// comparator.
    pub fn relational(&self, relation: &RelationalMatch, a: &str, b: &str, numeric: NumericOrder) -> (r:
        bool)
        ensures
            r == self.spec_relational(*relation, a@, b@, numeric),
    {
        match self {
            Comparator::AsciiNumeric => relation.test_numbers(numeric),
            _ => {
                let x = self.look(a);
                let y = self.look(b);
                relation.test(order_chars(&x, &y))
            },
        }
    }
}

/// Under `Octet` two texts are the same only if every character is: the
/// comparator takes case as it stands, whatever the two are as numbers.
pub proof fn lemma_octet_is_exact(a: Seq<char>, b: Seq<char>, numeric: NumericOrder)
    ensures
        Comparator::Octet.spec_is(a, b, numeric) == (a == b),
{
}

/// Under `AsciiNumeric` texts that are no numbers meet nothing: they are
/// not the same, even if they are the same text, and they stand in no order.
pub proof fn lemma_no_numbers_no_match(relation: RelationalMatch, a: Seq<char>, b: Seq<char>)
    ensures
        !Comparator::AsciiNumeric.spec_is(a, b, NumericOrder::NotNumbers),
        !Comparator::AsciiNumeric.spec_relational(relation, a, b, NumericOrder::NotNumbers),
{
}

} // verus!
