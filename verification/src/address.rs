//! Clean-up of the address that a redirect is sent to.

use vstd::prelude::*;
use crate::text::{char_is_whitespace, is_whitespace, push_char, to_chars};

verus! {

/// What the scan of an address has seen so far.
pub struct Scan {
    /// The characters kept.
    pub kept: Seq<char>,
    /// Whether the scan stands inside a double-quoted run.
    pub in_quote: bool,
    /// The character read last; a line feed before the first one.
    pub last: char,
    /// Whether an unquoted `@` was kept.
    pub has_at: bool,
    /// Whether an unquoted `.` was kept after the `@`.
    pub has_dot: bool,
}

/// The scan before any character was read.
pub open spec fn scan_start() -> Scan {
    Scan { kept: Seq::empty(), in_quote: false, last: '\n', has_at: false, has_dot: false }
}

/// One step of the scan; `None` when `ch` makes the address malformed.
pub open spec fn scan_step(st: Scan, ch: char) -> Option<Scan> {
    if st.in_quote {
        if ch == '"' && st.last != '\\' {
            Some(Scan { in_quote: false, last: ch, ..st })
        } else {
            Some(Scan { kept: st.kept.push(ch), last: ch, ..st })
        }
    } else if ch == '"' {
        Some(Scan { in_quote: true, last: ch, ..st })
    } else if ch == '@' {
        if !st.has_at && st.kept.len() > 0 {
            Some(Scan { kept: st.kept.push(ch), has_at: true, last: ch, ..st })
        } else {
            None
        }
    } else if ch == '.' {
        if st.has_at && !st.has_dot {
            Some(Scan { kept: st.kept.push(ch), has_dot: true, last: ch, ..st })
        } else {
            None
        }
    } else if ch == '<' {
        Some(Scan { kept: Seq::empty(), has_at: false, has_dot: false, last: ch, ..st })
    } else if ch == '>' || is_whitespace(ch) {
        Some(Scan { last: ch, ..st })
    } else {
        Some(Scan { kept: st.kept.push(ch), last: ch, ..st })
    }
}

/// The scan after all of `text` was read, from left to right.
pub open spec fn scan(text: Seq<char>) -> Option<Scan>
    decreases text.len(),
{
    if text.len() == 0 {
        Some(scan_start())
    } else {
        match scan(text.drop_last()) {
            Some(st) => scan_step(st, text.last()),
            None => None,
        }
    }
}

/// The number of `@` in the text, and the number of `.` that stand after
/// the first of them.
pub open spec fn shape(text: Seq<char>) -> (nat, nat)
    decreases text.len(),
{
    if text.len() == 0 {
        (0, 0)
    } else {
        let (ats, dots) = shape(text.drop_last());
        if text.last() == '@' {
            (ats + 1, dots)
        } else if text.last() == '.' && ats > 0 {
            (ats, dots + 1)
        } else {
            (ats, dots)
        }
    }
}

/// Whether the text has the shape of a clean address: it is not empty and
/// holds exactly one `@`, and exactly one `.` after it.
pub open spec fn well_shaped(text: Seq<char>) -> bool {
    text.len() > 0 && shape(text) == (1nat, 1nat)
}

/// The clean address in `text`, if it holds one: what the scan has kept, if
/// it has kept an unquoted `@` and an unquoted `.` after it, and if what it
/// has kept has the shape of a clean address.
pub open spec fn sanitized(text: Seq<char>) -> Option<Seq<char>> {
    match scan(text) {
        Some(st) => if st.has_at && st.has_dot && well_shaped(st.kept) {
            Some(st.kept)
        } else {
            None
        },
        None => None,
    }
}

/// Tells whether the text has the shape of a clean address.
pub fn is_well_shaped(text: &str) -> (r: bool)
    ensures
        r == well_shaped(text@),
{
    let chars = to_chars(text);
    let mut ats: usize = 0;
    let mut dots: usize = 0;
    let mut i: usize = 0;
    while i < chars.len()
        invariant
            i <= chars.len(),
            ats <= 2,
            dots <= 2,
            ats == if shape(chars@.take(i as int)).0 <= 2 {
                shape(chars@.take(i as int)).0
            } else {
                2nat
            },
            dots == if shape(chars@.take(i as int)).1 <= 2 {
                shape(chars@.take(i as int)).1
            } else {
                2nat
            },
        decreases chars.len() - i,
    {
        assert(chars@.take(i + 1).drop_last() == chars@.take(i as int));
        if chars[i] == '@' {
            if ats < 2 {
                ats += 1;
            }
        } else if chars[i] == '.' && ats > 0 {
            if dots < 2 {
                dots += 1;
            }
        }
        i += 1;
    }
    assert(chars@.take(chars@.len() as int) == chars@);
    chars.len() > 0 && ats == 1 && dots == 1
}

/// Once a prefix of the text is malformed, the whole text is.
pub proof fn lemma_scan_prefix_fails(text: Seq<char>, n: int)
    requires
        0 <= n <= text.len(),
        scan(text.take(n)) is None,
    ensures
        scan(text) is None,
    decreases text.len() - n,
{
    if n < text.len() {
        assert(text.take(n + 1).drop_last() == text.take(n));
        lemma_scan_prefix_fails(text, n + 1);
    } else {
        assert(text.take(n) == text);
    }
}

/// Extracts the bare address from `addr`, dropping a display name, angle
/// brackets, quotes and unquoted whitespace.
pub fn sanitize_address(addr: &str) -> (r: Option<String>)
    ensures
        match r {
            Some(s) => sanitized(addr@) == Some(s@),
            None => sanitized(addr@) is None,
        },
{
    let mut result = String::new();
    let mut in_quote = false;
    let mut last_ch = '\n';
    let mut has_at = false;
    let mut has_dot = false;

    for ch in it: addr.chars()
        invariant
            it.seq() == addr@,
            scan(addr@.take(it.index() as int)) == Some(
                Scan { kept: result@, in_quote, last: last_ch, has_at, has_dot },
            ),
    {
        proof {
            assert(addr@.take(it.index() + 1).drop_last() == addr@.take(it.index() as int));
        }
        if in_quote {
            if ch == '"' && last_ch != '\\' {
                in_quote = false;
            } else {
                push_char(&mut result, ch);
            }
        } else if ch == '"' {
            in_quote = true;
        } else if ch == '@' {
            if !has_at && !result.as_str().is_empty() {
                has_at = true;
                push_char(&mut result, ch);
            } else {
                proof {
                    lemma_scan_prefix_fails(addr@, it.index() + 1);
                }
                return None;
            }
        } else if ch == '.' {
            if has_at && !has_dot {
                has_dot = true;
                push_char(&mut result, ch);
            } else {
                proof {
                    lemma_scan_prefix_fails(addr@, it.index() + 1);
                }
                return None;
            }
        } else if ch == '<' {
            result = String::new();
            has_at = false;
            has_dot = false;
        } else if ch == '>' || char_is_whitespace(ch) {
        } else {
            push_char(&mut result, ch);
        }
        last_ch = ch;
    }
    proof {
        assert(addr@.take(addr@.len() as int) == addr@);
    }
    if has_at && has_dot && is_well_shaped(result.as_str()) {
        Some(result)
    } else {
        None
    }
}

} // verus!
