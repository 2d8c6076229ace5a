//! Small helpers over the standard string types.

use vstd::prelude::*;

verus! {

/// `String::push` of the standard library: appends one character to the text.
#[verifier::external_body]
pub(crate) fn push_char(s: &mut String, c: char)
    ensures
        final(s)@ == old(s)@.push(c),
{
    s.push(c);
}

/// Whether `c` is one of the five ASCII whitespace characters: space, tab,
/// line feed, form feed or carriage return.
pub open spec fn is_whitespace(c: char) -> bool {
    c == ' ' || c == '\t' || c == '\n' || c == '\x0C' || c == '\r'
}

/// Tells whether `c` is ASCII whitespace.
pub fn char_is_whitespace(c: char) -> (r: bool)
    ensures
        r == is_whitespace(c),
{
    c == ' ' || c == '\t' || c == '\n' || c == '\x0C' || c == '\r'
}

/// The ASCII lower-case form of `c`; other characters stay as they are.
pub open spec fn ascii_lower(c: char) -> char {
    if 'A' <= c && c <= 'Z' {
        ((c as u8 + 32) as u8) as char
    } else {
        c
    }
}

/// Whether two texts are the same once ASCII letters are lower-cased.
pub open spec fn eq_ignore_case(a: Seq<char>, b: Seq<char>) -> bool {
    &&& a.len() == b.len()
    &&& forall|i: int| 0 <= i < a.len() ==> ascii_lower(#[trigger] a[i]) == ascii_lower(b[i])
}

/// `String::from_utf8` of the standard library: the text that the bytes
/// encode, or nothing when they are not well-formed UTF-8.
#[verifier::external_body]
pub(crate) fn text_from_utf8(bytes: Vec<u8>) -> (r: Option<String>)
    ensures
        r is Some == vstd::utf8::valid_utf8(bytes@),
        r matches Some(s) ==> s@ == vstd::utf8::decode_utf8(bytes@),
{
    match String::from_utf8(bytes) {
        Ok(s) => Some(s),
        Err(_) => None,
    }
}

/// The characters of a text.
pub fn to_chars(s: &str) -> (r: Vec<char>)
    ensures
        r@ == s@,
{
    let mut chars: Vec<char> = Vec::new();
    for c in it: s.chars()
        invariant
            it.seq() == s@,
            chars@ == s@.take(it.index() as int),
    {
        chars.push(c);
        assert(chars@ =~= s@.take(it.index() + 1));
    }
    assert(s@.take(s@.len() as int) == s@);
    chars
}

/// The ASCII lower-case form of `c`.
pub fn lower(c: char) -> (r: char)
    ensures
        r == ascii_lower(c),
{
    if 'A' <= c && c <= 'Z' {
        ((c as u8) + 32) as char
    } else {
        c
    }
}

/// Whether `c` has the Unicode property White_Space.
pub open spec fn is_unicode_space(c: char) -> bool {
    ||| '\u{9}' <= c <= '\u{d}'
    ||| c == ' '
    ||| c == '\u{85}'
    ||| c == '\u{a0}'
    ||| c == '\u{1680}'
    ||| '\u{2000}' <= c <= '\u{200a}'
    ||| c == '\u{2028}'
    ||| c == '\u{2029}'
    ||| c == '\u{202f}'
    ||| c == '\u{205f}'
    ||| c == '\u{3000}'
}

/// Tells whether `c` has the Unicode property White_Space.
pub fn char_is_unicode_space(c: char) -> (r: bool)
    ensures
        r == is_unicode_space(c),
{
    ('\u{9}' <= c && c <= '\u{d}') || c == ' ' || c == '\u{85}' || c == '\u{a0}' || c
        == '\u{1680}' || ('\u{2000}' <= c && c <= '\u{200a}') || c == '\u{2028}' || c
        == '\u{2029}' || c == '\u{202f}' || c == '\u{205f}' || c == '\u{3000}'
}

/// The text without the white space at its start.
pub open spec fn trim_start(s: Seq<char>) -> Seq<char>
    decreases s.len(),
{
    if s.len() > 0 && is_unicode_space(s[0]) {
        trim_start(s.drop_first())
    } else {
        s
    }
}

/// The text without the white space at its end.
pub open spec fn trim_end(s: Seq<char>) -> Seq<char>
    decreases s.len(),
{
    if s.len() > 0 && is_unicode_space(s.last()) {
        trim_end(s.drop_last())
    } else {
        s
    }
}

/// The text without the white space at its two ends.
pub open spec fn trim(s: Seq<char>) -> Seq<char> {
    trim_end(trim_start(s))
}

/// The bounds of what is left of `chars[from..to]` when the white space at
/// its two ends is taken off.
pub fn trim_range(chars: &Vec<char>, from: usize, to: usize) -> (r: (usize, usize))
    requires
        from <= to <= chars.len(),
    ensures
        from <= r.0 <= r.1 <= to,
        chars@.subrange(r.0 as int, r.1 as int) == trim(chars@.subrange(from as int, to as int)),
{
    let mut a = from;
    while a < to && char_is_unicode_space(chars[a])
        invariant
            from <= a <= to <= chars.len(),
            trim_start(chars@.subrange(from as int, to as int)) == trim_start(
                chars@.subrange(a as int, to as int),
            ),
        decreases to - a,
    {
        assert(chars@.subrange(a as int, to as int).drop_first() == chars@.subrange(
            a + 1,
            to as int,
        ));
        a += 1;
    }
    let mut b = to;
    while b > a && char_is_unicode_space(chars[b - 1])
        invariant
            a <= b <= to <= chars.len(),
            trim_end(chars@.subrange(a as int, to as int)) == trim_end(
                chars@.subrange(a as int, b as int),
            ),
        decreases b - a,
    {
        assert(chars@.subrange(a as int, b as int).drop_last() == chars@.subrange(
            a as int,
            b - 1,
        ));
        b -= 1;
    }
    (a, b)
}

/// Whether `needle` stands in `haystack` at `i`; with `fold`, ASCII case
/// aside.
pub open spec fn occurs_at(haystack: Seq<char>, needle: Seq<char>, i: int, fold: bool) -> bool {
    &&& 0 <= i
    &&& i + needle.len() <= haystack.len()
    &&& if fold {
        eq_ignore_case(haystack.subrange(i, i + needle.len()), needle)
    } else {
        haystack.subrange(i, i + needle.len()) == needle
    }
}

/// Whether `needle` stands somewhere in `haystack`; with `fold`, ASCII case
/// aside.
pub open spec fn occurs(haystack: Seq<char>, needle: Seq<char>, fold: bool) -> bool {
    exists|i: int| occurs_at(haystack, needle, i, fold)
}

/// Tells whether `needle` stands in `haystack` at `from`.
pub fn chars_occur_at(haystack: &Vec<char>, needle: &Vec<char>, from: usize, fold: bool) -> (r:
    bool)
    ensures
        r == occurs_at(haystack@, needle@, from as int, fold),
{
    if needle.len() > haystack.len() || from > haystack.len() - needle.len() {
        return false;
    }
    let ghost piece = haystack@.subrange(from as int, from + needle.len());
    let mut i: usize = 0;
    while i < needle.len()
        invariant
            from + needle.len() <= haystack.len(),
            i <= needle.len(),
            piece == haystack@.subrange(from as int, from + needle.len()),
            fold ==> forall|j: int|
                0 <= j < i ==> ascii_lower(#[trigger] piece[j]) == ascii_lower(needle@[j]),
            !fold ==> forall|j: int| 0 <= j < i ==> #[trigger] piece[j] == needle@[j],
        decreases needle.len() - i,
    {
        let a = haystack[from + i];
        let b = needle[i];
        assert(piece[i as int] == a);
        if fold {
            if lower(a) != lower(b) {
                return false;
            }
        } else if a != b {
            return false;
        }
        i += 1;
    }
    assert(!fold ==> piece =~= needle@);
    true
}

/// Tells whether `chars[from..to]` is `word`, ASCII case aside.
pub fn range_eq_ignore_case(chars: &Vec<char>, from: usize, to: usize, word: &str) -> (r: bool)
    requires
        from <= to <= chars.len(),
    ensures
        r == eq_ignore_case(chars@.subrange(from as int, to as int), word@),
{
    let letters = to_chars(word);
    if letters.len() != to - from {
        return false;
    }
    chars_occur_at(chars, &letters, from, true)
}

/// Tells whether two texts are the same once ASCII letters are lower-cased.
pub fn text_eq_ignore_case(a: &str, b: &str) -> (r: bool)
    ensures
        r == eq_ignore_case(a@, b@),
{
    let x = to_chars(a);
    let y = to_chars(b);
    if x.len() != y.len() {
        return false;
    }
    assert(x@.subrange(0, x@.len() as int) == x@);
    chars_occur_at(&x, &y, 0, true)
}

/// Tells whether two texts are the same.
pub fn text_eq(a: &str, b: &str) -> (r: bool)
    ensures
        r == (a@ == b@),
{
    let x = to_chars(a);
    let y = to_chars(b);
    if x.len() != y.len() {
        return false;
    }
    assert(x@.subrange(0, x@.len() as int) == x@);
    chars_occur_at(&x, &y, 0, false)
}

/// Tells whether `needle` stands somewhere in `haystack`.
pub fn chars_occur(haystack: &Vec<char>, needle: &Vec<char>, fold: bool) -> (r: bool)
    ensures
        r == occurs(haystack@, needle@, fold),
{
    if needle.len() > haystack.len() {
        return false;
    }
    let last = haystack.len() - needle.len();
    let mut i: usize = 0;
    loop
        invariant
            last == haystack.len() - needle.len(),
            i <= last,
            forall|j: int| 0 <= j < i ==> !occurs_at(haystack@, needle@, j, fold),
        decreases last - i,
    {
        if chars_occur_at(haystack, needle, i, fold) {
            return true;
        }
        if i == last {
            return false;
        }
        i += 1;
    }
}

/// Tells whether `needle` stands somewhere in `haystack`, ASCII case aside.
pub fn text_contains_ignore_case(haystack: &str, needle: &str) -> (r: bool)
    ensures
        r == occurs(haystack@, needle@, true),
{
    let h = to_chars(haystack);
    let n = to_chars(needle);
    chars_occur(&h, &n, true)
}

/// Whether the text holds the character.
pub fn text_has_char(text: &str, c: char) -> (r: bool)
    ensures
        r == text@.contains(c),
{
    let chars = to_chars(text);
    let mut i: usize = 0;
    while i < chars.len()
        invariant
            i <= chars.len(),
            chars@ == text@,
            forall|j: int| 0 <= j < i ==> chars@[j] != c,
        decreases chars.len() - i,
    {
        if chars[i] == c {
            return true;
        }
        i += 1;
    }
    false
}

/// The text made of `chars[from..to]`.
pub fn text_of_range(chars: &Vec<char>, from: usize, to: usize) -> (r: String)
    requires
        from <= to <= chars.len(),
    ensures
        r@ == chars@.subrange(from as int, to as int),
{
    let mut result = String::new();
    let mut i = from;
    while i < to
        invariant
            from <= i <= to <= chars.len(),
            result@ == chars@.subrange(from as int, i as int),
        decreases to - i,
    {
        push_char(&mut result, chars[i]);
        assert(result@ =~= chars@.subrange(from as int, i + 1));
        i += 1;
    }
    result
}

/// Appends the bytes to the buffer.
pub fn put_bytes(buf: &mut Vec<u8>, bytes: &[u8])
    ensures
        final(buf)@ == old(buf)@ + bytes@,
{
    let mut i: usize = 0;
    while i < bytes.len()
        invariant
            i <= bytes.len(),
            buf@ == old(buf)@ + bytes@.take(i as int),
        decreases bytes.len() - i,
    {
        buf.push(bytes[i]);
        assert(buf@ =~= old(buf)@ + bytes@.take(i + 1));
        i += 1;
    }
    assert(bytes@.take(bytes@.len() as int) == bytes@);
}

/// Appends the text to the buffer, as UTF-8.
pub fn put_text(buf: &mut Vec<u8>, text: &str)
    ensures
        final(buf)@ == old(buf)@ + vstd::utf8::encode_utf8(text@),
{
    put_bytes(buf, text.as_bytes());
}

/// The character of a decimal digit.
pub open spec fn digit(d: nat) -> char
    recommends
        d < 10,
{
    if d == 0 {
        '0'
    } else if d == 1 {
        '1'
    } else if d == 2 {
        '2'
    } else if d == 3 {
        '3'
    } else if d == 4 {
        '4'
    } else if d == 5 {
        '5'
    } else if d == 6 {
        '6'
    } else if d == 7 {
        '7'
    } else if d == 8 {
        '8'
    } else {
        '9'
    }
}

/// The decimal digits of a number, without leading zeros.
pub open spec fn decimal(n: nat) -> Seq<char>
    decreases n,
{
    if n < 10 {
        seq![digit(n)]
    } else {
        decimal(n / 10).push(digit(n % 10))
    }
}

/// The decimal digits of a number, with zeros before them up to `width`
/// digits.
pub open spec fn padded(n: nat, width: nat) -> Seq<char> {
    let zeros = if width > decimal(n).len() {
        (width - decimal(n).len()) as nat
    } else {
        0
    };
    Seq::new(zeros, |i: int| '0') + decimal(n)
}

/// A whole number in decimal digits, with a minus sign when it is below
/// zero.
pub open spec fn signed_decimal(n: int) -> Seq<char> {
    if n < 0 {
        seq!['-'] + decimal((-n) as nat)
    } else {
        decimal(n as nat)
    }
}

/// The character of a decimal digit.
fn digit_char(d: u64) -> (r: char)
    requires
        d < 10,
    ensures
        r == digit(d as nat),
{
    if d == 0 {
        '0'
    } else if d == 1 {
        '1'
    } else if d == 2 {
        '2'
    } else if d == 3 {
        '3'
    } else if d == 4 {
        '4'
    } else if d == 5 {
        '5'
    } else if d == 6 {
        '6'
    } else if d == 7 {
        '7'
    } else if d == 8 {
        '8'
    } else {
        '9'
    }
}

/// Appends the decimal digits of a number.
pub fn push_decimal(s: &mut String, n: u64)
    ensures
        final(s)@ == old(s)@ + decimal(n as nat),
    decreases n,
{
    if n >= 10 {
        push_decimal(s, n / 10);
        push_char(s, digit_char(n % 10));
        assert(s@ =~= old(s)@ + decimal(n as nat));
    } else {
        push_char(s, digit_char(n));
        assert(s@ =~= old(s)@ + decimal(n as nat));
    }
}

/// Whether `bound` is ten to the `k`.
spec fn is_power_of_ten(bound: nat, k: nat) -> bool
    decreases k,
{
    if k == 0 {
        bound == 1
    } else {
        bound % 10 == 0 && is_power_of_ten(bound / 10, (k - 1) as nat)
    }
}

/// A number below ten to the `k` has at most `k` digits.
proof fn lemma_decimal_bound(n: nat, bound: nat, k: nat)
    requires
        k >= 1,
        is_power_of_ten(bound, k),
        n < bound,
    ensures
        decimal(n).len() <= k,
    decreases k,
{
    if n >= 10 {
        if k == 1 {
            assert(is_power_of_ten(bound / 10, 0));
            assert(bound == 10);
        }
        lemma_decimal_bound(n / 10, bound / 10, (k - 1) as nat);
    }
}

/// A number of the machine has at most twenty digits.
proof fn lemma_decimal_len(n: nat)
    requires
        n <= u64::MAX,
    ensures
        decimal(n).len() <= 20,
{
    reveal_with_fuel(is_power_of_ten, 21);
    assert(is_power_of_ten(100000000000000000000nat, 20));
    lemma_decimal_bound(n, 100000000000000000000nat, 20);
}

/// The number of decimal digits of a number.
fn decimal_len(n: u64) -> (r: usize)
    ensures
        r == decimal(n as nat).len(),
        1 <= r <= 20,
    decreases n,
{
    proof {
        lemma_decimal_len(n as nat);
    }
    if n >= 10 {
        decimal_len(n / 10) + 1
    } else {
        1
    }
}

/// Appends the decimal digits of a number, with zeros before them up to
/// `width` digits.
pub fn push_padded(s: &mut String, n: u64, width: usize)
    ensures
        final(s)@ == old(s)@ + padded(n as nat, width as nat),
{
    let len = decimal_len(n);
    let count: usize = if width > len {
        width - len
    } else {
        0
    };
    let ghost zeros = Seq::new(count as nat, |i: int| '0');
    let mut i: usize = 0;
    assert(s@ =~= old(s)@ + zeros.take(0));
    while i < count
        invariant
            i <= count,
            zeros == Seq::new(count as nat, |i: int| '0'),
            s@ == old(s)@ + zeros.take(i as int),
        decreases count - i,
    {
        push_char(s, '0');
        assert(s@ =~= old(s)@ + zeros.take(i + 1));
        i += 1;
    }
    assert(zeros.take(zeros.len() as int) == zeros);
    push_decimal(s, n);
    assert(s@ =~= old(s)@ + padded(n as nat, width as nat));
}

/// Appends a whole number in decimal digits.
pub fn push_signed(s: &mut String, n: i64)
    ensures
        final(s)@ == old(s)@ + signed_decimal(n as int),
{
    if n < 0 {
        push_char(s, '-');
        let magnitude: u64 = if n == i64::MIN {
            9223372036854775808u64
        } else {
            (-n) as u64
        };
        push_decimal(s, magnitude);
        assert(s@ =~= old(s)@ + signed_decimal(n as int));
    } else {
        push_decimal(s, n as u64);
    }
}

} // verus!
