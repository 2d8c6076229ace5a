//! The search for headers: by name, by position among the headers of that
//! name, and through the parts of a message.

use vstd::prelude::*;
use crate::mailto::{HeaderName, HeaderNameView};
use crate::runtime::context::Context;
use crate::runtime::message::{Header, Message, MessagePart};
use crate::text::{eq_ignore_case, text_eq, text_eq_ignore_case};

verus! {

/// Whether two names are names of the same header: two known headers of one
/// spelling, or two other names that differ in ASCII case at most.
pub open spec fn same_header(a: HeaderNameView, b: HeaderNameView) -> bool {
    match (a, b) {
        (HeaderNameView::Rfc(x), HeaderNameView::Rfc(y)) => x == y,
        (HeaderNameView::Other(x), HeaderNameView::Other(y)) => eq_ignore_case(x, y),
        _ => false,
    }
}

/// Tells whether two names are names of the same header.
pub fn header_name_eq(a: &HeaderName, b: &HeaderName) -> (r: bool)
    ensures
        r == same_header(a@, b@),
{
    match (a, b) {
        (HeaderName::Rfc(x), HeaderName::Rfc(y)) => text_eq(x.as_str(), y.as_str()),
        (HeaderName::Other(x), HeaderName::Other(y)) => text_eq_ignore_case(
            x.as_str(),
            y.as_str(),
        ),
        _ => false,
    }
}

/// The places of the headers called `name` among `headers`, in their order.
pub open spec fn occurrences(headers: Seq<Header>, name: HeaderNameView) -> Seq<usize>
    decreases headers.len(),
{
    if headers.len() == 0 {
        Seq::empty()
    } else if same_header(headers.last().name@, name) {
        occurrences(headers.drop_last(), name).push((headers.len() - 1) as usize)
    } else {
        occurrences(headers.drop_last(), name)
    }
}

/// The places that an index selects among the headers called `name`:
/// without an index all of them; with the index `k` above zero the `k`-th
/// from the start; with the index `-k` the `k`-th from the end; and none
/// where there are fewer than `k`.
pub open spec fn picked(headers: Seq<Header>, name: HeaderNameView, index: Option<i32>) -> Seq<
    usize,
> {
    let all = occurrences(headers, name);
    match index {
        None => all,
        Some(k) => if 0 < k <= all.len() {
            seq![all[k - 1]]
        } else if k < 0 && -k <= all.len() {
            seq![all[all.len() + k]]
        } else {
            Seq::empty()
        },
    }
}

/// The places that an index selects in one part, for each of the names in
/// turn.
pub open spec fn picked_of_names(
    headers: Seq<Header>,
    names: Seq<HeaderNameView>,
    index: Option<i32>,
) -> Seq<usize>
    decreases names.len(),
{
    if names.len() == 0 {
        Seq::empty()
    } else {
        picked_of_names(headers, names.drop_last(), index) + picked(headers, names.last(), index)
    }
}

/// The models of a list of names.
pub open spec fn name_views(names: Seq<HeaderName>) -> Seq<HeaderNameView> {
    Seq::new(names.len(), |i: int| names[i]@)
}

/// The places of the headers called `name` rise, each is the place of such
/// a header, and no such header is left out.
pub proof fn lemma_occurrences(headers: Seq<Header>, name: HeaderNameView)
    requires
        headers.len() <= usize::MAX,
    ensures
        forall|k: int|
            0 <= k < occurrences(headers, name).len() ==> (#[trigger] occurrences(
                headers,
                name,
            )[k]) < headers.len() && same_header(
                headers[occurrences(headers, name)[k] as int].name@,
                name,
            ),
        forall|k: int, l: int|
            0 <= k < l < occurrences(headers, name).len() ==> occurrences(headers, name)[k]
                < occurrences(headers, name)[l],
        forall|i: int|
            0 <= i < headers.len() && same_header(#[trigger] headers[i].name@, name)
                ==> occurrences(headers, name).contains(i as usize),
    decreases headers.len(),
{
    if headers.len() > 0 {
        let rest = headers.drop_last();
        lemma_occurrences(rest, name);
        let before = occurrences(rest, name);
        let all = occurrences(headers, name);
        assert forall|i: int|
            0 <= i < headers.len() && same_header(#[trigger] headers[i].name@, name) implies all.contains(
            i as usize,
        ) by {
            if i < headers.len() - 1 {
                assert(rest[i] == headers[i]);
                assert(before.contains(i as usize));
                let k = choose|k: int| 0 <= k < before.len() && before[k] == i as usize;
                assert(all[k] == i as usize);
            } else {
                assert(all[all.len() - 1] == i as usize);
            }
        }
        assert forall|k: int| 0 <= k < all.len() implies (#[trigger] all[k]) < headers.len()
            && same_header(headers[all[k] as int].name@, name) by {
            if k < before.len() {
                assert(all[k] == before[k]);
                assert(rest[before[k] as int] == headers[before[k] as int]);
            }
        }
        assert forall|k: int, l: int| 0 <= k < l < all.len() implies all[k] < all[l] by {
            assert(all[k] == before[k]);
            if l < before.len() {
                assert(all[l] == before[l]);
            }
        }
    }
}

/// With the index 1 the first header of the name is selected, and with the
/// index -1 the last, where the part has a header of that name.
pub proof fn lemma_first_and_last(headers: Seq<Header>, name: HeaderNameView)
    requires
        occurrences(headers, name).len() > 0,
    ensures
        picked(headers, name, Some(1i32)) == seq![occurrences(headers, name).first()],
        picked(headers, name, Some(-1i32)) == seq![occurrences(headers, name).last()],
{
}

/// The places of the headers called `name` in a part.
fn find_occurrences(headers: &Vec<Header>, name: &HeaderName) -> (r: Vec<usize>)
    ensures
        r@ == occurrences(headers@, name@),
        forall|k: int| 0 <= k < r@.len() ==> (#[trigger] r@[k]) < headers.len(),
{
    let mut found: Vec<usize> = Vec::new();
    let mut i: usize = 0;
    assert(found@ =~= occurrences(headers@.take(0), name@));
    while i < headers.len()
        invariant
            i <= headers.len(),
            found@ == occurrences(headers@.take(i as int), name@),
            forall|k: int| 0 <= k < found@.len() ==> (#[trigger] found@[k]) < i,
        decreases headers.len() - i,
    {
        assert(headers@.take(i + 1).drop_last() == headers@.take(i as int));
        if header_name_eq(&headers[i].name, name) {
            found.push(i);
        }
        i += 1;
    }
    assert(headers@.take(headers@.len() as int) == headers@);
    found
}

/// Adds to `out` the places that the index selects among the headers called
/// `name`, each with the part.
fn pick(
    headers: &Vec<Header>,
    part: usize,
    name: &HeaderName,
    index: Option<i32>,
    out: &mut Vec<(usize, usize)>,
)
    ensures
        final(out)@ == old(out)@ + picked(headers@, name@, index).map_values(
            |pos: usize| (part, pos),
        ),
        forall|k: int|
            0 <= k < picked(headers@, name@, index).len() ==> (#[trigger] picked(
                headers@,
                name@,
                index,
            )[k]) < headers.len(),
{
    let found = find_occurrences(headers, name);
    let ghost f = |pos: usize| (part, pos);
    match index {
        None => {
            let mut i: usize = 0;
            assert(out@ =~= old(out)@ + found@.take(0).map_values(f));
            while i < found.len()
                invariant
                    i <= found.len(),
                    f == |pos: usize| (part, pos),
                    out@ == old(out)@ + found@.take(i as int).map_values(f),
                decreases found.len() - i,
            {
                out.push((part, found[i]));
                assert(out@ =~= old(out)@ + found@.take(i + 1).map_values(f));
                i += 1;
            }
            assert(found@.take(found@.len() as int) == found@);
        },
        Some(k) => {
            if k > 0 && (k as usize) <= found.len() {
                out.push((part, found[k as usize - 1]));
                assert(out@ =~= old(out)@ + seq![found@[k - 1]].map_values(f));
            } else if k < 0 && (-(k as i64)) as usize <= found.len() {
                let n = (-(k as i64)) as usize;
                out.push((part, found[found.len() - n]));
                assert(out@ =~= old(out)@ + seq![found@[found@.len() + k]].map_values(f));
            } else {
                assert(out@ =~= old(out)@ + Seq::<usize>::empty().map_values(f));
            }
        },
    }
}

/// The part `id` and every part below it, in the order of the document. A
/// part lists the parts directly below it; only a part that comes later in
/// the message counts as one below.
pub open spec fn subtree(parts: Seq<MessagePart>, id: usize) -> Seq<usize>
    decreases parts.len() - id, parts.len() + 1,
{
    if id < parts.len() {
        seq![id] + below(parts, id, 0)
    } else {
        Seq::empty()
    }
}

/// The parts below the part `id`, from the `k`-th of the parts listed
/// directly below it on.
pub open spec fn below(parts: Seq<MessagePart>, id: usize, k: nat) -> Seq<usize>
    decreases parts.len() - id, parts.len() - k,
{
    if id < parts.len() && k < parts[id as int].sub_parts@.len() && k < parts.len() {
        let child = parts[id as int].sub_parts@[k as int];
        (if id < child < parts.len() {
            subtree(parts, child)
        } else {
            Seq::empty()
        }) + below(parts, id, k + 1)
    } else {
        Seq::empty()
    }
}

/// The parts that a search looks at: the part in focus, and with
/// `any_child` every part below it too.
pub open spec fn visited_parts(message: Message, part: usize, any_child: bool) -> Seq<usize> {
    if any_child {
        subtree(message.parts@, part)
    } else if part < message.parts@.len() {
        seq![part]
    } else {
        Seq::empty()
    }
}

/// The headers that a search selects in the parts `visited`, each as its
/// part and its place among the headers of that part, in the order in which
/// the search comes to them.
pub open spec fn candidates_in(
    parts: Seq<MessagePart>,
    visited: Seq<usize>,
    names: Seq<HeaderNameView>,
    index: Option<i32>,
) -> Seq<(usize, usize)>
    decreases visited.len(),
{
    if visited.len() == 0 {
        Seq::empty()
    } else {
        let part = visited.last();
        candidates_in(parts, visited.drop_last(), names, index) + picked_of_names(
            parts[part as int].headers@,
            names,
            index,
        ).map_values(|pos: usize| (part, pos))
    }
}

/// The headers that a search for `names` selects in a message.
pub open spec fn candidates(
    message: Message,
    part: usize,
    names: Seq<HeaderNameView>,
    index: Option<i32>,
    any_child: bool,
) -> Seq<(usize, usize)> {
    candidates_in(message.parts@, visited_parts(message, part, any_child), names, index)
}

/// Adds the part `id` and every part below it to `out`.
fn visit(parts: &Vec<MessagePart>, id: usize, out: &mut Vec<usize>)
    ensures
        final(out)@ == old(out)@ + subtree(parts@, id),
        forall|k: int| 0 <= k < subtree(parts@, id).len() ==> subtree(parts@, id)[k] < parts.len(),
    decreases parts.len() - id,
{
    if id < parts.len() {
        out.push(id);
        let subs = &parts[id].sub_parts;
        let ghost mut done: Seq<usize> = Seq::empty();
        let mut k: usize = 0;
        assert(out@ =~= old(out)@ + seq![id] + done);
        assert(done + below(parts@, id, 0) =~= below(parts@, id, 0));
        while k < subs.len() && k < parts.len()
            invariant
                id < parts.len(),
                subs == &parts[id as int].sub_parts,
                out@ == old(out)@ + seq![id] + done,
                below(parts@, id, 0) == done + below(parts@, id, k as nat),
                forall|l: int| 0 <= l < done.len() ==> done[l] < parts.len(),
            decreases subs.len() - k,
        {
            let child = subs[k];
            let ghost before = out@;
            if id < child && child < parts.len() {
                visit(parts, child, out);
                proof {
                    let more = subtree(parts@, child);
                    assert(done + (more + below(parts@, id, (k + 1) as nat)) =~= (done + more)
                        + below(parts@, id, (k + 1) as nat));
                    assert(before + more =~= old(out)@ + seq![id] + (done + more));
                    done = done + more;
                }
            } else {
                assert(done + (Seq::<usize>::empty() + below(parts@, id, (k + 1) as nat)) =~= done
                    + below(parts@, id, (k + 1) as nat));
            }
            k += 1;
        }
        proof {
            assert(below(parts@, id, k as nat) =~= Seq::<usize>::empty());
            assert(done + Seq::<usize>::empty() =~= done);
            assert(old(out)@ + seq![id] + done =~= old(out)@ + (seq![id] + done));
        }
    } else {
        assert(out@ =~= old(out)@ + Seq::<usize>::empty());
    }
}

/// The places that an index selects in one part, for each of the names in
/// turn, each with the part.
fn pick_in_part(
    parts: &Vec<MessagePart>,
    part: usize,
    names: &Vec<HeaderName>,
    index: Option<i32>,
    out: &mut Vec<(usize, usize)>,
)
    requires
        part < parts.len(),
        forall|k: int|
            0 <= k < old(out)@.len() ==> (#[trigger] old(out)@[k]).0 < parts@.len() && old(out)@[k].1 < parts@[old(out)@[k].0 as int].headers@.len(),
    ensures
        final(out)@ == old(out)@ + picked_of_names(
            parts@[part as int].headers@,
            name_views(names@),
            index,
        ).map_values(|pos: usize| (part, pos)),
        forall|k: int|
            0 <= k < final(out)@.len() ==> (#[trigger] final(out)@[k]).0 < parts@.len() && final(out)@[k].1 < parts@[final(out)@[k].0 as int].headers@.len(),
{
    let headers = &parts[part].headers;
    let ghost f = |pos: usize| (part, pos);
    let ghost all = name_views(names@);
    let mut i: usize = 0;
    assert(all.take(0) =~= Seq::<HeaderNameView>::empty());
    assert(out@ =~= old(out)@ + picked_of_names(headers@, all.take(0), index).map_values(f));
    while i < names.len()
        invariant
            i <= names.len(),
            part < parts.len(),
            headers == &parts@[part as int].headers,
            f == |pos: usize| (part, pos),
            all == name_views(names@),
            out@ == old(out)@ + picked_of_names(headers@, all.take(i as int), index).map_values(f),
            forall|k: int|
                0 <= k < out@.len() ==> (#[trigger] out@[k]).0 < parts@.len() && out@[k].1
                    < parts@[out@[k].0 as int].headers@.len(),
        decreases names.len() - i,
    {
        let ghost before = out@;
        pick(headers, part, &names[i], index, out);
        proof {
            let chosen = picked(headers@, names@[i as int]@, index);
            let earlier = picked_of_names(headers@, all.take(i as int), index);
            assert(all.take(i + 1).drop_last() == all.take(i as int));
            assert(all.take(i + 1).last() == names@[i as int]@);
            assert((earlier + chosen).map_values(f) =~= earlier.map_values(f) + chosen.map_values(
                f,
            ));
            assert(old(out)@ + (earlier.map_values(f) + chosen.map_values(f)) =~= (old(out)@
                + earlier.map_values(f)) + chosen.map_values(f));
            assert forall|k: int| 0 <= k < out@.len() implies (#[trigger] out@[k]).0 < parts@.len()
                && out@[k].1 < parts@[out@[k].0 as int].headers@.len() by {
                if k < before.len() {
                    assert(out@[k] == before[k]);
                } else {
                    assert(out@[k] == (part, chosen[k - before.len()]));
                }
            }
        }
        i += 1;
    }
    assert(all.take(all.len() as int) == all);
}

impl Context {
    /// The headers that a search for `names` selects, each as its part and
    /// its place among the headers of that part, in the order in which the
    /// search comes to them: part by part, name by name, and place by place.
    pub fn header_candidates(&self, names: &Vec<HeaderName>, index: Option<i32>, any_child: bool) -> (r:
        Vec<(usize, usize)>)
        ensures
            r@ == candidates(self.message, self.part, name_views(names@), index, any_child),
            forall|k: int|
                0 <= k < r@.len() ==> (#[trigger] r@[k]).0 < self.message.parts@.len() && r@[k].1
                    < self.message.parts@[r@[k].0 as int].headers@.len(),
    {
        let parts = &self.message.parts;
        let mut visited: Vec<usize> = Vec::new();
        if any_child {
            visit(parts, self.part, &mut visited);
            assert(visited@ =~= subtree(parts@, self.part));
        } else if self.part < parts.len() {
            visited.push(self.part);
            assert(visited@ =~= seq![self.part]);
        }
        let mut out: Vec<(usize, usize)> = Vec::new();
        let mut i: usize = 0;
        assert(visited@.take(0) =~= Seq::<usize>::empty());
        assert(out@ =~= candidates_in(parts@, visited@.take(0), name_views(names@), index));
        while i < visited.len()
            invariant
                i <= visited.len(),
                parts == &self.message.parts,
                forall|k: int| 0 <= k < visited@.len() ==> visited@[k] < parts.len(),
                out@ == candidates_in(parts@, visited@.take(i as int), name_views(names@), index),
                forall|k: int|
                    0 <= k < out@.len() ==> (#[trigger] out@[k]).0 < parts@.len() && out@[k].1
                        < parts@[out@[k].0 as int].headers@.len(),
            decreases visited.len() - i,
        {
            assert(visited@.take(i + 1).drop_last() == visited@.take(i as int));
            assert(visited@.take(i + 1).last() == visited@[i as int]);
            pick_in_part(parts, visited[i], names, index, &mut out);
            i += 1;
        }
        assert(visited@.take(visited@.len() as int) == visited@);
        out
    }
}

impl Message {
    /// The header at a place of a part.
    pub open spec fn header_at(self, place: (usize, usize)) -> Header {
        self.parts@[place.0 as int].headers@[place.1 as int]
    }
}

/// Whether the visitor may give `verdict` on the header at `place`.
pub open spec fn says<F: Fn(&Header, usize, usize) -> bool>(
    visitor: F,
    message: Message,
    place: (usize, usize),
    verdict: bool,
) -> bool {
    call_ensures(visitor, (&message.header_at(place), place.0, place.1), verdict)
}

/// Whether the visitor said yes to the `k`-th of the headers `found`, and no
/// to all before it.
pub open spec fn first_yes<F: Fn(&Header, usize, usize) -> bool>(
    visitor: F,
    message: Message,
    found: Seq<(usize, usize)>,
    k: int,
) -> bool {
    &&& 0 <= k < found.len()
    &&& says(visitor, message, found[k], true)
    &&& forall|l: int| 0 <= l < k ==> says(visitor, message, #[trigger] found[l], false)
}

impl Context {
    /// Shows the headers that a search for `names` selects to `visitor`, one
    /// after the other, each with its part and its place, until the visitor
    /// says yes to one. Tells whether it said yes.
    pub fn find_headers<F: Fn(&Header, usize, usize) -> bool>(
        &self,
        names: &Vec<HeaderName>,
        index: Option<i32>,
        any_child: bool,
        visitor: F,
    ) -> (r: bool)
        requires
            forall|h: &Header, part: usize, pos: usize| call_requires(visitor, (h, part, pos)),
        ensures
            r ==> exists|k: int| #[trigger]
                first_yes(
                    visitor,
                    self.message,
                    candidates(self.message, self.part, name_views(names@), index, any_child),
                    k,
                ),
            !r ==> forall|l: int|
                0 <= l < candidates(self.message, self.part, name_views(names@), index, any_child).len()
                    ==> says(
                    visitor,
                    self.message,
                    #[trigger] candidates(self.message, self.part, name_views(names@), index, any_child)[l],
                    false,
                ),
    {
        let places = self.header_candidates(names, index, any_child);
        let ghost found = candidates(self.message, self.part, name_views(names@), index, any_child);
        let mut k: usize = 0;
        while k < places.len()
            invariant
                k <= places.len(),
                places@ == found,
                found == candidates(self.message, self.part, name_views(names@), index, any_child),
                forall|h: &Header, part: usize, pos: usize| call_requires(visitor, (h, part, pos)),
                forall|l: int|
                    0 <= l < places@.len() ==> (#[trigger] places@[l]).0
                        < self.message.parts@.len() && places@[l].1
                        < self.message.parts@[places@[l].0 as int].headers@.len(),
                forall|l: int| 0 <= l < k ==> says(visitor, self.message, #[trigger] found[l], false),
            decreases places.len() - k,
        {
            let (part, pos) = places[k];
            assert(found[k as int] == (part, pos));
            if visitor(&self.message.parts[part].headers[pos], part, pos) {
                assert(first_yes(visitor, self.message, found, k as int));
                return true;
            }
            k += 1;
        }
        false
    }
}

} // verus!
