//! Glob patterns: `*` stands for any run of characters, `?` for any one.

use vstd::prelude::*;
use crate::runtime::comparator::{lowercase, to_lowercase};
use crate::mailto::texts;
use crate::text::{text_of_range, to_chars};

verus! {

/// Whether the whole of `value` fits `pattern`.
pub open spec fn glob(value: Seq<char>, pattern: Seq<char>) -> bool
    decreases pattern.len(), value.len(),
{
    if pattern.len() == 0 {
        value.len() == 0
    } else if pattern[0] == '*' {
        glob(value, pattern.drop_first()) || (value.len() > 0 && glob(
            value.drop_first(),
            pattern,
        ))
    } else {
        value.len() > 0 && (pattern[0] == '?' || pattern[0] == value[0]) && glob(
            value.drop_first(),
            pattern.drop_first(),
        )
    }
}

/// The length of the shortest start of `value` after which the rest of it
/// fits `rest`; the length of `value` when no start is followed by a fit.
pub open spec fn star_len(value: Seq<char>, rest: Seq<char>) -> nat
    decreases value.len(),
{
    if value.len() == 0 || glob(value, rest) {
        0
    } else {
        1 + star_len(value.drop_first(), rest)
    }
}

/// What each wildcard of `pattern` stands for in `value`, in the order of
/// the wildcards; every `*` stands for as little as a fit allows, the
/// earlier one first.
pub open spec fn wildcards(value: Seq<char>, pattern: Seq<char>) -> Seq<Seq<char>>
    decreases pattern.len(),
{
    if pattern.len() == 0 {
        Seq::empty()
    } else if pattern[0] == '*' {
        let k = star_len(value, pattern.drop_first()) as int;
        seq![value.take(k)] + wildcards(value.skip(k), pattern.drop_first())
    } else if pattern[0] == '?' {
        seq![value.take(1)] + wildcards(value.skip(1), pattern.drop_first())
    } else {
        wildcards(value.skip(1), pattern.drop_first())
    }
}

/// The text in lower case when `to_lower` says so, and as it is else.
pub open spec fn fold(text: Seq<char>, to_lower: bool) -> Seq<char> {
    if to_lower {
        lowercase(text)
    } else {
        text
    }
}

/// The capture groups of a fit: the whole value, then what each wildcard
/// stands for.
pub open spec fn glob_groups(value: Seq<char>, pattern: Seq<char>) -> Seq<Option<Seq<char>>> {
    seq![Some(value)] + wildcards(value, pattern).map_values(|w: Seq<char>| Some(w))
}

/// The texts of a list of groups, of which some may be missing.
pub open spec fn group_texts(groups: Seq<Option<String>>) -> Seq<Option<Seq<char>>> {
    Seq::new(
        groups.len(),
        |i: int|
            match groups[i] {
                Some(g) => Some(g@),
                None => None,
            },
    )
}

/// Whether the bit `i` of `positions` is set.
pub open spec fn bit_set(positions: u64, i: int) -> bool {
    0 <= i < 64 && (positions >> (i as u64)) & 1 == 1
}

/// The groups that `positions` asks for, among the first `n`, each with its
/// number, in rising order; a group that is not there is passed over.
pub open spec fn selected(groups: Seq<Option<Seq<char>>>, positions: u64, n: int) -> Seq<
    (usize, Seq<char>),
>
    decreases n,
{
    if n <= 0 {
        Seq::empty()
    } else if bit_set(positions, n - 1) && n - 1 < groups.len() && groups[n - 1] is Some {
        selected(groups, positions, n - 1).push(((n - 1) as usize, groups[n - 1]->0))
    } else {
        selected(groups, positions, n - 1)
    }
}

/// The numbered texts of a list of captures.
pub open spec fn captures(values: Seq<(usize, String)>) -> Seq<(usize, Seq<char>)> {
    Seq::new(values.len(), |i: int| (values[i].0, values[i].1@))
}

/// For every start of the value and of the pattern, whether the rest of the
/// value fits the rest of the pattern.
struct Table {
    /// `rows[n - i][m - j]` tells of the value from `i` and the pattern from
    /// `j`, where `n` and `m` are the two lengths.
    rows: Vec<Vec<bool>>,
}

impl Table {
    spec fn wf(&self, value: Seq<char>, pattern: Seq<char>) -> bool {
        &&& self.rows@.len() == value.len() + 1
        &&& forall|k: int|
            0 <= k <= value.len() ==> (#[trigger] self.rows@[k])@.len() == pattern.len() + 1
        &&& forall|k: int, l: int|
            0 <= k <= value.len() && 0 <= l <= pattern.len() ==> #[trigger] self.rows@[k]@[l]
                == glob(value.skip(value.len() - k), pattern.skip(pattern.len() - l))
    }

    /// Whether the value from `i` fits the pattern from `j`.
    fn get(&self, value: &Vec<char>, pattern: &Vec<char>, i: usize, j: usize) -> (r: bool)
        requires
            self.wf(value@, pattern@),
            i <= value.len(),
            j <= pattern.len(),
        ensures
            r == glob(value@.skip(i as int), pattern@.skip(j as int)),
    {
        self.rows[value.len() - i][pattern.len() - j]
    }
}

/// One step of the definition of a fit, on the rests of a value and a
/// pattern.
proof fn lemma_glob_step(value: Seq<char>, pattern: Seq<char>, i: int, j: int)
    requires
        0 <= i <= value.len(),
        0 <= j <= pattern.len(),
    ensures
        glob(value.skip(i), pattern.skip(j)) == (if j == pattern.len() {
            i == value.len()
        } else if pattern[j] == '*' {
            glob(value.skip(i), pattern.skip(j + 1)) || (i < value.len() && glob(
                value.skip(i + 1),
                pattern.skip(j),
            ))
        } else {
            i < value.len() && (pattern[j] == '?' || pattern[j] == value[i]) && glob(
                value.skip(i + 1),
                pattern.skip(j + 1),
            )
        }),
{
    let v = value.skip(i);
    let p = pattern.skip(j);
    if j < pattern.len() {
        assert(p[0] == pattern[j]);
        assert(p.drop_first() == pattern.skip(j + 1));
    }
    if i < value.len() {
        assert(v[0] == value[i]);
        assert(v.drop_first() == value.skip(i + 1));
    }
}

/// Fills the table for a value and a pattern.
fn fill(value: &Vec<char>, pattern: &Vec<char>) -> (t: Table)
    ensures
        t.wf(value@, pattern@),
{
    let n = value.len();
    let m = pattern.len();
    let mut rows: Vec<Vec<bool>> = Vec::new();
    while rows.len() <= n
        invariant
            n == value.len(),
            m == pattern.len(),
            rows@.len() <= n + 1,
            forall|a: int| 0 <= a < rows@.len() ==> (#[trigger] rows@[a])@.len() == m + 1,
            forall|a: int, l: int|
                0 <= a < rows@.len() && 0 <= l <= m ==> #[trigger] rows@[a]@[l] == glob(
                    value@.skip(n - a),
                    pattern@.skip(m - l),
                ),
        decreases n + 1 - rows@.len(),
    {
        // The row of the value from `i`.
        let k = rows.len();
        let i = n - k;
        let mut row: Vec<bool> = Vec::new();
        while row.len() <= m
            invariant
                n == value.len(),
                m == pattern.len(),
                k <= n,
                i == n - k,
                rows@.len() == k,
                forall|a: int| 0 <= a < k ==> (#[trigger] rows@[a])@.len() == m + 1,
                forall|a: int, b: int|
                    0 <= a < k && 0 <= b <= m ==> #[trigger] rows@[a]@[b] == glob(
                        value@.skip(n - a),
                        pattern@.skip(m - b),
                    ),
                row@.len() <= m + 1,
                forall|b: int|
                    0 <= b < row@.len() ==> #[trigger] row@[b] == glob(
                        value@.skip(i as int),
                        pattern@.skip(m - b),
                    ),
            decreases m + 1 - row@.len(),
        {
            let l = row.len();
            let j = m - l;
            proof {
                lemma_glob_step(value@, pattern@, i as int, j as int);
            }
            let cell = if l == 0 {
                k == 0
            } else if pattern[j] == '*' {
                row[l - 1] || (k > 0 && rows[k - 1][l])
            } else {
                k > 0 && (pattern[j] == '?' || pattern[j] == value[i]) && rows[k - 1][l - 1]
            };
            row.push(cell);
        }
        rows.push(row);
    }
    Table { rows }
}

/// Tells whether the whole of `value` fits `pattern`; with `to_lower`, after
/// both were put in lower case.
pub fn glob_match(value: &str, pattern: &str, to_lower: bool) -> (r: bool)
    ensures
        r == glob(fold(value@, to_lower), fold(pattern@, to_lower)),
{
    let (v, p) = if to_lower {
        (to_chars(to_lowercase(value).as_str()), to_chars(to_lowercase(pattern).as_str()))
    } else {
        (to_chars(value), to_chars(pattern))
    };
    let table = fill(&v, &p);
    assert(v@.skip(0) == v@ && p@.skip(0) == p@);
    table.get(&v, &p, 0, 0)
}

/// The length of what the `*` at `j` stands for, when the value from `i`
/// fits the pattern from `j`.
fn star(table: &Table, value: &Vec<char>, pattern: &Vec<char>, i: usize, j: usize) -> (k: usize)
    requires
        table.wf(value@, pattern@),
        i <= value.len(),
        j < pattern.len(),
        pattern@[j as int] == '*',
        glob(value@.skip(i as int), pattern@.skip(j as int)),
    ensures
        i + k <= value.len(),
        k == star_len(value@.skip(i as int), pattern@.skip(j + 1)),
        glob(value@.skip(i + k), pattern@.skip(j + 1)),
{
    let mut k: usize = 0;
    loop
        invariant
            table.wf(value@, pattern@),
            j < pattern.len(),
            pattern@[j as int] == '*',
            i + k <= value.len(),
            glob(value@.skip(i + k), pattern@.skip(j as int)),
            star_len(value@.skip(i as int), pattern@.skip(j + 1)) == k + star_len(
                value@.skip(i + k),
                pattern@.skip(j + 1),
            ),
        decreases value.len() - i - k,
    {
        if table.get(value, pattern, i + k, j + 1) {
            return k;
        }
        proof {
            lemma_glob_step(value@, pattern@, i + k, j as int);
            assert(value@.skip(i + k).drop_first() == value@.skip(i + k + 1));
        }
        k += 1;
    }
}

/// What each wildcard of the pattern stands for in a value that fits it.
fn collect(table: &Table, value: &Vec<char>, pattern: &Vec<char>) -> (r: Vec<String>)
    requires
        table.wf(value@, pattern@),
        glob(value@, pattern@),
    ensures
        texts(r@) == wildcards(value@, pattern@),
{
    let mut wild: Vec<String> = Vec::new();
    let mut i: usize = 0;
    let mut j: usize = 0;
    assert(value@.skip(0) == value@ && pattern@.skip(0) == pattern@);
    assert(texts(wild@) + wildcards(value@, pattern@) =~= wildcards(value@, pattern@));
    while j < pattern.len()
        invariant
            table.wf(value@, pattern@),
            i <= value.len(),
            j <= pattern.len(),
            glob(value@.skip(i as int), pattern@.skip(j as int)),
            wildcards(value@, pattern@) == texts(wild@) + wildcards(
                value@.skip(i as int),
                pattern@.skip(j as int),
            ),
        decreases pattern.len() - j,
    {
        let ghost v = value@.skip(i as int);
        let ghost p = pattern@.skip(j as int);
        let ghost before = wild@;
        proof {
            lemma_glob_step(value@, pattern@, i as int, j as int);
            assert(p[0] == pattern@[j as int]);
            assert(p.drop_first() == pattern@.skip(j + 1));
        }
        if pattern[j] == '*' {
            let k = star(table, value, pattern, i, j);
            let piece = text_of_range(value, i, i + k);
            wild.push(piece);
            proof {
                assert(v.take(k as int) == value@.subrange(i as int, i + k));
                assert(v.skip(k as int) == value@.skip(i + k));
                assert(texts(wild@) =~= texts(before).push(piece@));
                assert(texts(wild@) + wildcards(v.skip(k as int), p.drop_first()) =~= texts(before)
                    + (seq![v.take(k as int)] + wildcards(v.skip(k as int), p.drop_first())));
            }
            i += k;
        } else {
            if pattern[j] == '?' {
                let piece = text_of_range(value, i, i + 1);
                wild.push(piece);
                proof {
                    assert(v.take(1) == value@.subrange(i as int, i + 1));
                    assert(texts(wild@) =~= texts(before).push(piece@));
                    assert(texts(wild@) + wildcards(v.skip(1), p.drop_first()) =~= texts(before) + (
                    seq![v.take(1)] + wildcards(v.skip(1), p.drop_first())));
                }
            }
            assert(v.skip(1) == value@.skip(i + 1));
            i += 1;
        }
        j += 1;
    }
    assert(texts(wild@) + Seq::<Seq<char>>::empty() =~= texts(wild@));
    wild
}

/// Tells whether the bit `i` of `positions` is set.
fn has_bit(positions: u64, i: usize) -> (r: bool)
    requires
        i < 64,
    ensures
        r == bit_set(positions, i as int),
{
    (positions >> (i as u64)) & 1 == 1
}

/// The groups that `positions` asks for, each with its number, in rising
/// order.
pub fn select(groups: &Vec<Option<String>>, positions: u64) -> (r: Vec<(usize, String)>)
    ensures
        captures(r@) == selected(group_texts(groups@), positions, 64),
{
    let mut result: Vec<(usize, String)> = Vec::new();
    let mut i: usize = 0;
    assert(captures(result@) =~= selected(group_texts(groups@), positions, 0));
    while i < 64
        invariant
            i <= 64,
            captures(result@) == selected(group_texts(groups@), positions, i as int),
        decreases 64 - i,
    {
        let ghost before = result@;
        if has_bit(positions, i) && i < groups.len() {
            match &groups[i] {
                Some(group) => {
                    let value = group.clone();
                    result.push((i, value));
                    assert(captures(result@) =~= captures(before).push((i, group@)));
                },
                None => {},
            }
        }
        i += 1;
    }
    result
}

/// Tells whether the whole of `value` fits `pattern`; with `to_lower`, after
/// both were put in lower case. On a fit the captures are replaced by the
/// groups that `capture_positions` asks for: group 0 is the whole value,
/// group 1 what the first wildcard stands for, and so on. Without a fit the
/// captures stay as they are.
pub fn glob_match_capture(
    value: &str,
    pattern: &str,
    to_lower: bool,
    capture_positions: u64,
    captured_values: &mut Vec<(usize, String)>,
) -> (r: bool)
    ensures
        r == glob(fold(value@, to_lower), fold(pattern@, to_lower)),
        r ==> captures(final(captured_values)@) == selected(
            glob_groups(fold(value@, to_lower), fold(pattern@, to_lower)),
            capture_positions,
            64,
        ),
        !r ==> *final(captured_values) == *old(captured_values),
{
    let (v, p) = if to_lower {
        (to_chars(to_lowercase(value).as_str()), to_chars(to_lowercase(pattern).as_str()))
    } else {
        (to_chars(value), to_chars(pattern))
    };
    let table = fill(&v, &p);
    assert(v@.skip(0) == v@ && p@.skip(0) == p@);
    if !table.get(&v, &p, 0, 0) {
        return false;
    }
    let mut groups: Vec<Option<String>> = Vec::new();
    groups.push(Some(text_of_range(&v, 0, v.len())));
    assert(v@.subrange(0, v@.len() as int) == v@);
    let wild = collect(&table, &v, &p);
    let mut i: usize = 0;
    while i < wild.len()
        invariant
            i <= wild.len(),
            groups@.len() == i + 1,
            groups@[0] is Some,
            groups@[0]->0@ == v@,
            forall|k: int| 1 <= k <= i ==> (#[trigger] groups@[k]) is Some && groups@[k]->0@
                == wild@[k - 1]@,
        decreases wild.len() - i,
    {
        groups.push(Some(wild[i].clone()));
        i += 1;
    }
    assert(group_texts(groups@) =~= glob_groups(v@, p@));
    *captured_values = select(&groups, capture_positions);
    true
}

} // verus!
