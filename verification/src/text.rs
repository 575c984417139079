//! Character-level helpers on `str` and `String`, with their models over `Seq<char>`.
use vstd::prelude::*;
use vstd::utf8::{decode_utf8, valid_utf8};

verus! {

broadcast use vstd::string::group_string_axioms;

// ---------------------------------------------------------------------------
// Models
// ---------------------------------------------------------------------------

/// `p` occurs in `s` starting at index `i`.
pub open spec fn occurs_at(s: Seq<char>, p: Seq<char>, i: int) -> bool {
    &&& 0 <= i
    &&& i + p.len() <= s.len()
    &&& s.subrange(i, i + p.len()) =~= p
}

/// `p` occurs somewhere in `s` (the empty text occurs in every text).
pub open spec fn contains_text(s: Seq<char>, p: Seq<char>) -> bool {
    exists|i: int| #[trigger] occurs_at(s, p, i)
}

/// Whether `c` is whitespace, as `char::is_whitespace` has it: the code points
/// with the White_Space property of the Unicode Character Database (PropList.txt).
pub open spec fn white_space(c: char) -> bool {
    let n = c as u32;
    ||| 0x09 <= n <= 0x0D
    ||| n == 0x20
    ||| n == 0x85
    ||| n == 0xA0
    ||| n == 0x1680
    ||| 0x2000 <= n <= 0x200A
    ||| n == 0x2028
    ||| n == 0x2029
    ||| n == 0x202F
    ||| n == 0x205F
    ||| n == 0x3000
}

/// `s` without its leading whitespace.
pub open spec fn trim_start(s: Seq<char>) -> Seq<char>
    decreases s.len(),
{
    if s.len() > 0 && white_space(s[0]) {
        trim_start(s.drop_first())
    } else {
        s
    }
}

/// `s` without its trailing whitespace.
pub open spec fn trim_end(s: Seq<char>) -> Seq<char>
    decreases s.len(),
{
    if s.len() > 0 && white_space(s.last()) {
        trim_end(s.drop_last())
    } else {
        s
    }
}

/// `s` without leading and trailing whitespace, as `str::trim` gives it.
pub open spec fn trimmed(s: Seq<char>) -> Seq<char> {
    trim_end(trim_start(s))
}

/// `s` with every leading repetition of `p` removed, as `str::trim_start_matches`
/// gives it for a non-empty pattern.
pub open spec fn strip_leading(s: Seq<char>, p: Seq<char>) -> Seq<char>
    decreases s.len(),
{
    if p.len() > 0 && p.is_prefix_of(s) {
        strip_leading(s.skip(p.len() as int), p)
    } else {
        s
    }
}

/// The character of a decimal digit.
pub open spec fn digit_char(d: nat) -> char {
    if d == 0 {
        '0'
    } else if d == 1 {
        '1'
    } else if d == 2 {
        '2'
    } else if d == 3 {
        '3'
    } else if d == 4 {
        '4'
    } else if d == 5 {
        '5'
    } else if d == 6 {
        '6'
    } else if d == 7 {
        '7'
    } else if d == 8 {
        '8'
    } else {
        '9'
    }
}

/// The decimal representation of `n`, without leading zeros.
pub open spec fn decimal(n: nat) -> Seq<char>
    decreases n,
{
    if n < 10 {
        seq![digit_char(n)]
    } else {
        decimal(n / 10).push(digit_char(n % 10))
    }
}

/// The name for `String::from_utf8_lossy`: the text of `bytes`, with each invalid
/// sequence replaced by U+FFFD.
pub uninterp spec fn lossy_utf8(bytes: Seq<u8>) -> Seq<char>;

// ---------------------------------------------------------------------------
// Trusted items over std
// ---------------------------------------------------------------------------

/// Calls `String::push`. Claimed: `c` is appended to the text.
#[verifier::external_body]
fn push_char(s: &mut String, c: char)
    ensures
        final(s)@ == old(s)@.push(c),
{
    s.push(c);
}

/// Calls `String::from_utf8_lossy`. Claimed: the result is `lossy_utf8(bytes)`, and
/// valid UTF-8 is decoded as it stands, as the documentation says.
#[verifier::external_body]
pub(crate) fn from_utf8_lossy(bytes: &[u8]) -> (r: String)
    ensures
        r@ == lossy_utf8(bytes@),
        valid_utf8(bytes@) ==> r@ == decode_utf8(bytes@),
{
    String::from_utf8_lossy(bytes).into_owned()
}

// ---------------------------------------------------------------------------
// Executable helpers
// ---------------------------------------------------------------------------

/// The characters of `s`, in order.
pub fn chars_of(s: &str) -> (out: Vec<char>)
    ensures
        out@ == s@,
{
    let mut out: Vec<char> = Vec::new();
    for c in it: s.chars()
        invariant
            it.seq() == s@,
            out@ == it.seq().take(it.index() as int),
    {
        out.push(c);
    }
    out
}

/// The text made of the characters `cs`.
pub fn string_of(cs: &[char]) -> (s: String)
    ensures
        s@ == cs@,
{
    let mut s = String::new();
    for i in 0..cs.len()
        invariant
            s@ == cs@.take(i as int),
    {
        push_char(&mut s, cs[i]);
        assert(cs@.take(i + 1) =~= cs@.take(i as int).push(cs@[i as int]));
    }
    assert(cs@.take(cs.len() as int) =~= cs@);
    s
}

/// Appends the characters `cs` to `s`.
pub fn push_chars(s: &mut String, cs: &[char])
    ensures
        final(s)@ == old(s)@ + cs@,
{
    for i in 0..cs.len()
        invariant
            s@ == old(s)@ + cs@.take(i as int),
    {
        push_char(s, cs[i]);
        assert(cs@.take(i + 1) =~= cs@.take(i as int).push(cs@[i as int]));
    }
    assert(cs@.take(cs.len() as int) =~= cs@);
}

/// Appends the text `t` to `s`.
pub fn push_text(s: &mut String, t: &str)
    ensures
        final(s)@ == old(s)@ + t@,
{
    let cs = chars_of(t);
    push_chars(s, cs.as_slice());
}

/// Whether the two texts are equal.
pub fn same_text(a: &str, b: &str) -> (r: bool)
    ensures
        r == (a@ == b@),
{
    let x = chars_of(a);
    let y = chars_of(b);
    if x.len() != y.len() {
        return false;
    }
    let mut i: usize = 0;
    while i < x.len()
        invariant
            x@ == a@,
            y@ == b@,
            x.len() == y.len(),
            i <= x.len(),
            forall|k: int| 0 <= k < i ==> x@[k] == y@[k],
        decreases x.len() - i,
    {
        if x[i] != y[i] {
            return false;
        }
        i = i + 1;
    }
    assert(x@ =~= y@);
    true
}

/// Whether `prefix` is a prefix of `s`, on characters.
pub fn chars_start_with(s: &[char], prefix: &[char]) -> (r: bool)
    ensures
        r == prefix@.is_prefix_of(s@),
{
    if prefix.len() > s.len() {
        return false;
    }
    let mut i: usize = 0;
    while i < prefix.len()
        invariant
            prefix.len() <= s.len(),
            i <= prefix.len(),
            forall|k: int| 0 <= k < i ==> s@[k] == prefix@[k],
        decreases prefix.len() - i,
    {
        if s[i] != prefix[i] {
            assert(s@.subrange(0, prefix@.len() as int)[i as int] != prefix@[i as int]);
            return false;
        }
        i = i + 1;
    }
    assert(prefix@ =~= s@.subrange(0, prefix@.len() as int));
    true
}

/// Whether `prefix` is a prefix of `s`, as `str::starts_with` with a text pattern.
pub fn text_starts_with(s: &str, prefix: &str) -> (r: bool)
    ensures
        r == prefix@.is_prefix_of(s@),
{
    let x = chars_of(s);
    let p = chars_of(prefix);
    chars_start_with(x.as_slice(), p.as_slice())
}

/// Whether `p` occurs in `s` at index `at`.
fn chars_occur_at(s: &[char], p: &[char], at: usize) -> (r: bool)
    requires
        at + p@.len() <= s@.len(),
    ensures
        r == occurs_at(s@, p@, at as int),
{
    let mut k: usize = 0;
    while k < p.len()
        invariant
            at + p@.len() <= s@.len(),
            p@.len() == p.len(),
            s@.len() == s.len(),
            k <= p.len(),
            forall|j: int| 0 <= j < k ==> s@[at + j] == p@[j],
        decreases p.len() - k,
    {
        if s[at + k] != p[k] {
            assert(s@.subrange(at as int, at + p@.len())[k as int] != p@[k as int]);
            return false;
        }
        k = k + 1;
    }
    assert(s@.subrange(at as int, at + p@.len()) =~= p@);
    true
}

/// Whether `p` occurs somewhere in `s`, as `str::contains` with a text pattern.
pub fn text_contains(s: &str, p: &str) -> (r: bool)
    ensures
        r == contains_text(s@, p@),
{
    let x = chars_of(s);
    let y = chars_of(p);
    if y.len() > x.len() {
        assert forall|i: int| !occurs_at(s@, p@, i) by {}
        return false;
    }
    let last = x.len() - y.len();
    let mut at: usize = 0;
    while at <= last
        invariant
            x@ == s@,
            y@ == p@,
            last == x.len() - y.len(),
            y.len() <= x.len(),
            forall|i: int| 0 <= i < at ==> !occurs_at(s@, p@, i),
        decreases last + 1 - at,
    {
        if chars_occur_at(x.as_slice(), y.as_slice(), at) {
            assert(occurs_at(s@, p@, at as int));
            return true;
        }
        at = at + 1;
    }
    assert forall|i: int| !occurs_at(s@, p@, i) by {
        if 0 <= i < at {
        }
    }
    false
}

/// Whether `c` is whitespace, as `char::is_whitespace` tells.
pub fn is_white_space(c: char) -> (r: bool)
    ensures
        r == white_space(c),
{
    let n = c as u32;
    (0x09 <= n && n <= 0x0D) || n == 0x20 || n == 0x85 || n == 0xA0 || n == 0x1680 || (0x2000
        <= n && n <= 0x200A) || n == 0x2028 || n == 0x2029 || n == 0x202F || n == 0x205F || n
        == 0x3000
}

/// The bounds of `cs` without leading and trailing whitespace.
fn trim_bounds(cs: &[char]) -> (r: (usize, usize))
    ensures
        r.0 <= r.1 <= cs@.len(),
        cs@.subrange(r.0 as int, r.1 as int) == trimmed(cs@),
{
    let n = cs.len();
    let mut i: usize = 0;
    assert(cs@.skip(0) =~= cs@);
    while i < n && is_white_space(cs[i])
        invariant
            n == cs@.len(),
            i <= n,
            trim_start(cs@) == trim_start(cs@.skip(i as int)),
        decreases n - i,
    {
        assert(cs@.skip(i as int).drop_first() =~= cs@.skip(i + 1));
        i = i + 1;
    }
    assert(trim_start(cs@) == cs@.skip(i as int));
    let mut j: usize = n;
    assert(cs@.subrange(i as int, n as int) =~= cs@.skip(i as int));
    while j > i && is_white_space(cs[j - 1])
        invariant
            n == cs@.len(),
            i <= j <= n,
            trim_end(cs@.subrange(i as int, n as int)) == trim_end(cs@.subrange(i as int, j as int)),
        decreases j,
    {
        assert(cs@.subrange(i as int, j as int).drop_last() =~= cs@.subrange(i as int, j - 1));
        j = j - 1;
    }
    (i, j)
}

/// `s` without leading and trailing whitespace, as `str::trim` gives it.
pub fn trim(s: &str) -> (r: String)
    ensures
        r@ == trimmed(s@),
{
    let cs = chars_of(s);
    let (a, b) = trim_bounds(cs.as_slice());
    let mut out = String::new();
    let mut k = a;
    while k < b
        invariant
            cs@ == s@,
            a <= k <= b <= cs@.len(),
            out@ == cs@.subrange(a as int, k as int),
        decreases b - k,
    {
        push_char(&mut out, cs[k]);
        assert(cs@.subrange(a as int, k + 1) =~= cs@.subrange(a as int, k as int).push(cs@[k as int]));
        k = k + 1;
    }
    out
}

/// The character of the decimal digit `d`.
fn digit(d: u8) -> (c: char)
    requires
        d < 10,
    ensures
        c == digit_char(d as nat),
{
    if d == 0 {
        '0'
    } else if d == 1 {
        '1'
    } else if d == 2 {
        '2'
    } else if d == 3 {
        '3'
    } else if d == 4 {
        '4'
    } else if d == 5 {
        '5'
    } else if d == 6 {
        '6'
    } else if d == 7 {
        '7'
    } else if d == 8 {
        '8'
    } else {
        '9'
    }
}

/// Appends the decimal representation of `n` to `s`, as `{}` formats a `u8`.
pub fn push_decimal(s: &mut String, n: u8)
    ensures
        final(s)@ == old(s)@ + decimal(n as nat),
{
    proof {
        reveal_with_fuel(decimal, 3);
    }
    if n >= 100 {
        push_char(s, digit(n / 100));
        push_char(s, digit((n / 10) % 10));
        push_char(s, digit(n % 10));
        assert(decimal(n as nat) =~= seq![
            digit_char((n / 100) as nat),
            digit_char(((n / 10) % 10) as nat),
            digit_char((n % 10) as nat),
        ]);
    } else if n >= 10 {
        push_char(s, digit(n / 10));
        push_char(s, digit(n % 10));
        assert(decimal(n as nat) =~= seq![digit_char((n / 10) as nat), digit_char((n % 10) as nat)]);
    } else {
        push_char(s, digit(n));
    }
    assert(s@ =~= old(s)@ + decimal(n as nat));
}


/// `s` with every leading repetition of `p` removed, as `str::trim_start_matches`
/// with a text pattern gives it.
pub fn strip_leading_repeats(s: &str, p: &str) -> (r: String)
    ensures
        r@ == strip_leading(s@, p@),
{
    let cs = chars_of(s);
    let ps = chars_of(p);
    let mut at: usize = 0;
    assert(cs@.skip(0) =~= cs@);
    if ps.len() > 0 {
        while at <= cs.len() && ps.len() <= cs.len() - at && chars_occur_at(
            cs.as_slice(),
            ps.as_slice(),
            at,
        )
            invariant
                cs@ == s@,
                ps@ == p@,
                ps@.len() > 0,
                at <= cs@.len(),
                strip_leading(s@, p@) == strip_leading(cs@.skip(at as int), p@),
            decreases cs.len() - at,
        {
            assert(p@.is_prefix_of(cs@.skip(at as int))) by {
                assert(cs@.skip(at as int).subrange(0, p@.len() as int) =~= cs@.subrange(
                    at as int,
                    at + p@.len(),
                ));
            }
            assert(cs@.skip(at as int).skip(p@.len() as int) =~= cs@.skip(at + ps.len()));
            at = at + ps.len();
        }
        if ps.len() <= cs.len() - at {
            assert(!p@.is_prefix_of(cs@.skip(at as int))) by {
                if p@.is_prefix_of(cs@.skip(at as int)) {
                    assert(cs@.skip(at as int).subrange(0, p@.len() as int) =~= cs@.subrange(
                        at as int,
                        at + p@.len(),
                    ));
                }
            }
        }
    }
    let mut out = String::new();
    let mut k = at;
    while k < cs.len()
        invariant
            cs@ == s@,
            at <= k <= cs@.len(),
            out@ == cs@.subrange(at as int, k as int),
        decreases cs.len() - k,
    {
        push_char(&mut out, cs[k]);
        assert(cs@.subrange(at as int, k + 1) =~= cs@.subrange(at as int, k as int).push(cs@[k as int]));
        k = k + 1;
    }
    assert(out@ =~= cs@.skip(at as int));
    out
}

} // verus!
