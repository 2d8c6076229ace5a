//! Patterns with capture groups, and the one step that every test of a
//! script takes: a value held against a key.

use vstd::prelude::*;
use crate::mailto::texts;
use crate::runtime::comparator::{Comparator, MatchType, NumericOrder};
use crate::runtime::glob::{
    captures, fold, glob, glob_groups, glob_match, glob_match_capture, group_texts, select,
    selected,
};

verus! {

/// What a regular expression makes of a value.
#[derive(Debug)]
pub enum RegexResult {
    /// The pattern is no regular expression.
    Invalid,
    /// The value has no match.
    NoMatch,
    /// The groups of the first match: group 0 is the whole match; a group
    /// that took no part in it is missing.
    Groups(Vec<Option<String>>),
}

/// The model of a [`RegexResult`].
pub enum RegexView {
    Invalid,
    NoMatch,
    Groups(Seq<Option<Seq<char>>>),
}

impl View for RegexResult {
    type V = RegexView;

    open spec fn view(&self) -> RegexView {
        match self {
            RegexResult::Invalid => RegexView::Invalid,
            RegexResult::NoMatch => RegexView::NoMatch,
            RegexResult::Groups(groups) => RegexView::Groups(group_texts(groups@)),
        }
    }
}

/// What the regular expression `pattern` makes of `value`, as the regex
/// crate compiles and runs it.
pub uninterp spec fn regex_result(pattern: Seq<char>, value: Seq<char>) -> RegexView;

/// `Regex::captures` of the regex crate, on the expression that `Regex::new`
/// compiles from `pattern`: the groups of the first match in `value`, each
/// as the text it matched.
#[verifier::external_body]
fn regex_captures(pattern: &str, value: &str) -> (r: RegexResult)
    ensures
        r@ == regex_result(pattern@, value@),
{
    match regex::Regex::new(pattern) {
        Ok(re) => match re.captures(value) {
            Some(found) => RegexResult::Groups(
                found.iter().map(|g| g.map(|m| m.as_str().to_string())).collect(),
            ),
            None => RegexResult::NoMatch,
        },
        Err(_) => RegexResult::Invalid,
    }
}

/// Whether a pattern is a regular expression that the engine accepts.
pub fn regex_is_valid(pattern: &str) -> (r: bool)
    ensures
        r == !(regex_result(pattern@, Seq::empty()) is Invalid),
{
    match regex_captures(pattern, "") {
        RegexResult::Invalid => {
            proof {
                reveal_strlit("");
                assert(""@ =~= Seq::<char>::empty());
            }
            false
        },
        _ => {
            proof {
                reveal_strlit("");
                assert(""@ =~= Seq::<char>::empty());
            }
            true
        },
    }
}

/// Publishes the groups of a match. On a match for which groups are asked
/// the captures are replaced by the groups that `capture_positions` asks
/// for; else they stay as they are. An invalid pattern counts as no match.
pub fn apply_regex(
    result: RegexResult,
    capture_positions: u64,
    captured_values: &mut Vec<(usize, String)>,
) -> (r: bool)
    ensures
        r == (result@ is Groups),
        r && capture_positions != 0 ==> captures(final(captured_values)@) == selected(
            result@->Groups_0,
            capture_positions,
            64,
        ),
        !(r && capture_positions != 0) ==> *final(captured_values) == *old(captured_values),
{
    match result {
        RegexResult::Groups(groups) => {
            if capture_positions != 0 {
                *captured_values = select(&groups, capture_positions);
            }
            true
        },
        _ => false,
    }
}

impl Comparator {
    /// Whether the comparator folds case before it matches a glob pattern.
    pub open spec fn folds_glob(self) -> bool {
        self is AsciiCaseMap
    }

    /// Tells whether `value` fits the glob `pattern`; `AsciiCaseMap` puts
    /// both in lower case first. On a fit for which groups are asked the
    /// captures are replaced by the groups that `capture_positions` asks for;
    /// else they stay as they are.
    pub fn matches(
        &self,
        value: &str,
        pattern: &str,
        capture_positions: u64,
        captured_values: &mut Vec<(usize, String)>,
    ) -> (r: bool)
        ensures
            r == glob(fold(value@, self.folds_glob()), fold(pattern@, self.folds_glob())),
            r && capture_positions != 0 ==> captures(final(captured_values)@) == selected(
                glob_groups(fold(value@, self.folds_glob()), fold(pattern@, self.folds_glob())),
                capture_positions,
                64,
            ),
            !(r && capture_positions != 0) ==> *final(captured_values) == *old(captured_values),
    {
        let to_lower = match self {
            Comparator::AsciiCaseMap => true,
            _ => false,
        };
        if capture_positions == 0 {
            glob_match(value, pattern, to_lower)
        } else {
            glob_match_capture(value, pattern, to_lower, capture_positions, captured_values)
        }
    }

    /// Tells whether the regular expression `pattern` has a match in
    /// `value`. On a match for which groups are asked the captures are
    /// replaced by the groups that `capture_positions` asks for; else they
    /// stay as they are. A pattern that is no regular expression matches
    /// nothing.
    pub fn regex(
        &self,
        value: &str,
        pattern: &str,
        capture_positions: u64,
        captured_values: &mut Vec<(usize, String)>,
    ) -> (r: bool)
        ensures
            r == (regex_result(pattern@, value@) is Groups),
            r && capture_positions != 0 ==> captures(final(captured_values)@) == selected(
                regex_result(pattern@, value@)->Groups_0,
                capture_positions,
                64,
            ),
            !(r && capture_positions != 0) ==> *final(captured_values) == *old(captured_values),
    {
        apply_regex(regex_captures(pattern, value), capture_positions, captured_values)
    }
}

impl MatchType {
    /// Whether the value `haystack` meets the key `needle` under this match
    /// type and the comparator; `numeric` says how the two stand as numbers.
    /// `Count` and `List` hold of no single value.
    pub open spec fn meets(
        self,
        haystack: Seq<char>,
        needle: Seq<char>,
        comparator: Comparator,
        numeric: NumericOrder,
    ) -> bool {
        match self {
            MatchType::Is => comparator.spec_is(haystack, needle, numeric),
            MatchType::Contains => comparator.spec_contains(haystack, needle),
            MatchType::Value(relation) => comparator.spec_relational(
                relation,
                haystack,
                needle,
                numeric,
            ),
            MatchType::Matches(_) => glob(
                fold(haystack, comparator.folds_glob()),
                fold(needle, comparator.folds_glob()),
            ),
            MatchType::Regex(_) => regex_result(needle, haystack) is Groups,
            MatchType::Count(_) | MatchType::List => false,
        }
    }

    /// The groups of a value that met a key, and the set of them that the
    /// match type asks for; nothing for a match type without groups.
    pub open spec fn groups(self, haystack: Seq<char>, needle: Seq<char>, comparator: Comparator) -> Option<
        (Seq<Option<Seq<char>>>, u64),
    > {
        match self {
            MatchType::Matches(positions) => if positions != 0 {
                Some(
                    (
                        glob_groups(
                            fold(haystack, comparator.folds_glob()),
                            fold(needle, comparator.folds_glob()),
                        ),
                        positions,
                    ),
                )
            } else {
                None
            },
            MatchType::Regex(positions) => if positions != 0 {
                Some((regex_result(needle, haystack)->Groups_0, positions))
            } else {
                None
            },
            _ => None,
        }
    }

    /// Tells whether the value `haystack` meets the key `needle`. A pattern
    /// that is met and asks for groups replaces the captures by them; in
    /// every other case the captures stay as they are.
    pub fn match_value(
        &self,
        haystack: &str,
        needle: &str,
        comparator: &Comparator,
        numeric: NumericOrder,
        matched_values: &mut Vec<(usize, String)>,
    ) -> (r: bool)
        ensures
            r == self.meets(haystack@, needle@, *comparator, numeric),
            match self.groups(haystack@, needle@, *comparator) {
                Some((groups, positions)) => if r {
                    captures(final(matched_values)@) == selected(groups, positions, 64)
                } else {
                    *final(matched_values) == *old(matched_values)
                },
                None => *final(matched_values) == *old(matched_values),
            },
    {
        match self {
            MatchType::Is => comparator.is(haystack, needle, numeric),
            MatchType::Contains => comparator.contains(haystack, needle),
            MatchType::Value(relation) => comparator.relational(
                relation,
                haystack,
                needle,
                numeric,
            ),
            MatchType::Matches(positions) => comparator.matches(
                haystack,
                needle,
                *positions,
                matched_values,
            ),
            MatchType::Regex(positions) => comparator.regex(
                haystack,
                needle,
                *positions,
                matched_values,
            ),
            MatchType::Count(_) | MatchType::List => false,
        }
    }
}

/// How values, keys and counts stand to each other as numbers. The library
/// reads no numbers itself: whoever runs a test under the numeric comparator
/// fills this in. What is not filled in counts as no number.
#[derive(Debug)]
pub struct Numbers {
    /// For the `i`-th value and the `j`-th key, at `pairs[i][j]`.
    pub pairs: Vec<Vec<NumericOrder>>,
    /// For the count of a test and the `j`-th key, at `counts[j]`.
    pub counts: Vec<NumericOrder>,
}

impl Numbers {
    /// How the `i`-th value stands to the `j`-th key.
    pub open spec fn pair(self, i: int, j: int) -> NumericOrder {
        if 0 <= i < self.pairs@.len() && 0 <= j < self.pairs@[i]@.len() {
            self.pairs@[i]@[j]
        } else {
            NumericOrder::NotNumbers
        }
    }

    /// How the count stands to the `j`-th key.
    pub open spec fn count(self, j: int) -> NumericOrder {
        if 0 <= j < self.counts@.len() {
            self.counts@[j]
        } else {
            NumericOrder::NotNumbers
        }
    }

    /// Nothing filled in.
    pub fn new() -> (r: Numbers)
        ensures
            r.pairs@.len() == 0,
            r.counts@.len() == 0,
    {
        Numbers { pairs: Vec::new(), counts: Vec::new() }
    }

    /// How the `i`-th value stands to the `j`-th key.
    pub fn get_pair(&self, i: usize, j: usize) -> (r: NumericOrder)
        ensures
            r == self.pair(i as int, j as int),
    {
        if i < self.pairs.len() && j < self.pairs[i].len() {
            self.pairs[i][j]
        } else {
            NumericOrder::NotNumbers
        }
    }

    /// How the count stands to the `j`-th key.
    pub fn get_count(&self, j: usize) -> (r: NumericOrder)
        ensures
            r == self.count(j as int),
    {
        if j < self.counts.len() {
            self.counts[j]
        } else {
            NumericOrder::NotNumbers
        }
    }
}

/// What a search through values and keys needs to know.
pub struct Search {
    pub match_type: MatchType,
    pub comparator: Comparator,
    pub values: Seq<Seq<char>>,
    pub keys: Seq<Seq<char>>,
    pub numbers: Numbers,
}

impl Search {
    /// Whether the `i`-th value meets the `j`-th key.
    pub open spec fn meets(self, i: int, j: int) -> bool {
        self.match_type.meets(self.values[i], self.keys[j], self.comparator, self.numbers.pair(i, j))
    }

    /// The first key from `j` on that the `i`-th value meets.
    pub open spec fn first_key(self, i: int, j: int) -> Option<int>
        decreases self.keys.len() - j,
    {
        if j < 0 || j >= self.keys.len() {
            None
        } else if self.meets(i, j) {
            Some(j)
        } else {
            self.first_key(i, j + 1)
        }
    }

    /// The first value from `i` on that meets a key, with the first key that
    /// it meets.
    pub open spec fn first_match(self, i: int) -> Option<(int, int)>
        decreases self.values.len() - i,
    {
        if i < 0 || i >= self.values.len() {
            None
        } else {
            match self.first_key(i, 0) {
                Some(j) => Some((i, j)),
                None => self.first_match(i + 1),
            }
        }
    }

    /// The groups that the first match publishes, and the set of them that
    /// is asked for; nothing without a match or for a match type without
    /// groups.
    pub open spec fn published(self) -> Option<(Seq<Option<Seq<char>>>, u64)> {
        match self.first_match(0) {
            Some((i, j)) => self.match_type.groups(self.values[i], self.keys[j], self.comparator),
            None => None,
        }
    }
}

/// A first match is a match, and nothing before it is one.
pub proof fn lemma_first_match(s: Search, i: int)
    requires
        0 <= i,
    ensures
        match s.first_match(i) {
            Some((a, b)) => {
                &&& i <= a < s.values.len()
                &&& 0 <= b < s.keys.len()
                &&& s.meets(a, b)
                &&& forall|x: int, y: int|
                    (i <= x < a && 0 <= y < s.keys.len()) || (x == a && 0 <= y < b) ==> !s.meets(
                        x,
                        y,
                    )
            },
            None => forall|x: int, y: int|
                i <= x < s.values.len() && 0 <= y < s.keys.len() ==> !s.meets(x, y),
        },
    decreases s.values.len() - i,
{
    if i < s.values.len() {
        lemma_first_key(s, i, 0);
        lemma_first_match(s, i + 1);
    }
}

/// A first key is met, and no key before it is.
pub proof fn lemma_first_key(s: Search, i: int, j: int)
    requires
        0 <= j,
    ensures
        match s.first_key(i, j) {
            Some(b) => j <= b < s.keys.len() && s.meets(i, b) && forall|y: int|
                j <= y < b ==> !s.meets(i, y),
            None => forall|y: int| j <= y < s.keys.len() ==> !s.meets(i, y),
        },
    decreases s.keys.len() - j,
{
    if j < s.keys.len() {
        lemma_first_key(s, i, j + 1);
    }
}

impl MatchType {
    /// Goes through the values, and for each of them through the keys, up to
    /// the first value that meets a key; tells whether there is one. A
    /// pattern that is met and asks for groups replaces the captures by the
    /// groups of that first match; in every other case the captures stay as
    /// they are.
    pub fn match_any(
        &self,
        values: &Vec<String>,
        keys: &Vec<String>,
        comparator: &Comparator,
        numbers: &Numbers,
        matched_values: &mut Vec<(usize, String)>,
    ) -> (r: bool)
        ensures
            ({
                let s = Search {
                    match_type: *self,
                    comparator: *comparator,
                    values: texts(values@),
                    keys: texts(keys@),
                    numbers: *numbers,
                };
                &&& r == s.first_match(0) is Some
                &&& match s.published() {
                    Some((groups, positions)) => captures(final(matched_values)@) == selected(
                        groups,
                        positions,
                        64,
                    ),
                    None => *final(matched_values) == *old(matched_values),
                }
            }),
    {
        let ghost s = Search {
            match_type: *self,
            comparator: *comparator,
            values: texts(values@),
            keys: texts(keys@),
            numbers: *numbers,
        };
        let mut i: usize = 0;
        while i < values.len()
            invariant
                i <= values.len(),
                s == (Search {
                    match_type: *self,
                    comparator: *comparator,
                    values: texts(values@),
                    keys: texts(keys@),
                    numbers: *numbers,
                }),
                s.first_match(0) == s.first_match(i as int),
                *matched_values == *old(matched_values),
            decreases values.len() - i,
        {
            let mut j: usize = 0;
            while j < keys.len()
                invariant
                    i < values.len(),
                    j <= keys.len(),
                    s == (Search {
                        match_type: *self,
                        comparator: *comparator,
                        values: texts(values@),
                        keys: texts(keys@),
                        numbers: *numbers,
                    }),
                    s.first_match(0) == s.first_match(i as int),
                    s.first_key(i as int, 0) == s.first_key(i as int, j as int),
                    *matched_values == *old(matched_values),
                decreases keys.len() - j,
            {
                if self.match_value(
                    values[i].as_str(),
                    keys[j].as_str(),
                    comparator,
                    numbers.get_pair(i, j),
                    matched_values,
                ) {
                    return true;
                }
                j += 1;
            }
            i += 1;
        }
        false
    }
}

} // verus!
