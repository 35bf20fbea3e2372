//! Character-level text helpers shared by the protocol modules: quoting,
//! decimal rendering, substring replacement and string building.

use vstd::prelude::*;

verus! {

/// What Rust's `Debug` formatting writes for a string: the text in double
/// quotes, with quotes, backslashes and control characters escaped.
pub uninterp spec fn debug_quoted(s: Seq<char>) -> Seq<char>;

/// `format!("{:?}", s)` for a string slice (std's `Debug` for `str`).
/// Claimed: the result is `debug_quoted` of the input text; nothing more is
/// said of the escaping rules here.
#[verifier::external_body]
pub(crate) fn quote_debug(s: &str) -> (r: String)
    ensures
        r@ == debug_quoted(s@),
{
    format!("{:?}", s)
}

/// `String::push` from std.
/// Claimed: the character is appended at the end and nothing else changes.
#[verifier::external_body]
pub(crate) fn push_char(s: &mut String, c: char)
    ensures
        final(s)@ == old(s)@.push(c),
{
    s.push(c)
}

/// Appends `other` to `s`.
pub fn push_str(s: &mut String, other: &str)
    ensures
        final(s)@ == old(s)@ + other@,
{
    let cs = chars_of(other);
    let mut i: usize = 0;
    while i < cs.len()
        invariant
            0 <= i <= cs.len(),
            cs@ == other@,
            s@ == old(s)@ + other@.take(i as int),
        decreases cs.len() - i,
    {
        push_char(s, cs[i]);
        assert(other@.take(i + 1) =~= other@.take(i as int).push(cs@[i as int]));
        i += 1;
    }
    assert(other@.take(cs.len() as int) =~= other@);
}

/// The characters of a string slice, in order.
pub fn chars_of(s: &str) -> (v: Vec<char>)
    ensures
        v@ == s@,
{
    let mut v: Vec<char> = Vec::new();
    for c in it: s.chars()
        invariant
            it.seq() == s@,
            v@ == it.seq().take(it.index() as int),
    {
        v.push(c);
        assert(it.seq().take(it.index() + 1) =~= it.seq().take(it.index() as int).push(c));
    }
    assert(s@.take(s@.len() as int) =~= s@);
    v
}

/// Whether two string slices hold the same characters.
pub fn str_eq(a: &str, b: &str) -> (r: bool)
    ensures
        r == (a@ == b@),
{
    let x = a.to_owned();
    let y = b.to_owned();
    x == y
}

/// The ASCII digit for `d < 10`.
pub open spec fn digit_char(d: nat) -> char {
    (48 + d) as char
}

/// Decimal digits of a natural number, most significant first.
pub open spec fn nat_decimal(n: nat) -> Seq<char>
    decreases n,
{
    if n < 10 {
        seq![digit_char(n)]
    } else {
        nat_decimal(n / 10).push(digit_char(n % 10))
    }
}

/// Decimal rendering of an integer, with a leading `-` when negative.
pub open spec fn int_decimal(i: int) -> Seq<char> {
    if i < 0 {
        seq!['-'] + nat_decimal((-i) as nat)
    } else {
        nat_decimal(i as nat)
    }
}

/// Appends the decimal digits of `n`.
pub fn push_decimal(out: &mut String, n: u64)
    ensures
        final(out)@ == old(out)@ + nat_decimal(n as nat),
    decreases n,
{
    if n >= 10 {
        push_decimal(out, n / 10);
    }
    let d: u8 = (n % 10) as u8;
    push_char(out, (48u8 + d) as char);
    assert(old(out)@ + nat_decimal(n as nat) =~= final(out)@) by {
        if n >= 10 {
            assert(nat_decimal(n as nat) == nat_decimal((n / 10) as nat).push(digit_char((n % 10) as nat)));
        }
    }
}

/// Decimal rendering of a signed 64-bit integer, as `i64::to_string` writes it.
pub fn i64_decimal(i: i64) -> (r: String)
    ensures
        r@ == int_decimal(i as int),
{
    let mut r = String::new();
    if i < 0 {
        push_char(&mut r, '-');
        let wide: i128 = i as i128;
        let mag: u64 = (-wide) as u64;
        push_decimal(&mut r, mag);
    } else {
        push_decimal(&mut r, i as u64);
    }
    r
}

/// Left-to-right replacement of every non-overlapping occurrence of a
/// non-empty pattern, as `str::replace` does.
pub open spec fn replace_all(s: Seq<char>, pat: Seq<char>, rep: Seq<char>) -> Seq<char>
    decreases s.len(),
{
    if pat.len() == 0 || s.len() < pat.len() {
        s
    } else if s.take(pat.len() as int) == pat {
        rep + replace_all(s.skip(pat.len() as int), pat, rep)
    } else {
        seq![s[0]] + replace_all(s.skip(1), pat, rep)
    }
}

/// Whether `pat` occurs in `s` starting at position `i`.
fn occurs_at(s: &Vec<char>, pat: &Vec<char>, i: usize) -> (r: bool)
    requires
        i + pat.len() <= s.len(),
    ensures
        r == (s@.subrange(i as int, i + pat.len()) == pat@),
{
    let mut k: usize = 0;
    while k < pat.len()
        invariant
            0 <= k <= pat.len(),
            i + pat.len() <= s.len(),
            forall|j: int| 0 <= j < k ==> s@[i + j] == pat@[j],
        decreases pat.len() - k,
    {
        if s[i + k] != pat[k] {
            assert(s@.subrange(i as int, i + pat.len())[k as int] != pat@[k as int]);
            return false;
        }
        k += 1;
    }
    assert(s@.subrange(i as int, i + pat.len()) =~= pat@);
    true
}

/// Replaces every non-overlapping occurrence of `pat` in `s` by `rep`,
/// scanning left to right.
pub fn replace_str(s: &str, pat: &str, rep: &str) -> (r: String)
    requires
        pat@.len() > 0,
    ensures
        r@ == replace_all(s@, pat@, rep@),
{
    let cs = chars_of(s);
    let ps = chars_of(pat);
    let mut out = String::new();
    let mut i: usize = 0;
    assert(cs@.skip(0) =~= cs@);
    while i < cs.len()
        invariant
            0 <= i <= cs.len(),
            cs@ == s@,
            ps@ == pat@,
            ps@.len() > 0,
            replace_all(s@, pat@, rep@) == out@ + replace_all(cs@.skip(i as int), pat@, rep@),
        decreases cs.len() - i,
    {
        let ghost rest = cs@.skip(i as int);
        if ps.len() <= cs.len() - i && occurs_at(&cs, &ps, i) {
            assert(rest.take(pat@.len() as int) =~= cs@.subrange(i as int, i + ps.len()));
            assert(rest.skip(pat@.len() as int) =~= cs@.skip(i + ps.len()));
            let ghost before = out@;
            push_str(&mut out, rep);
            assert(before + (rep@ + replace_all(cs@.skip(i + ps.len()), pat@, rep@)) =~= out@
                + replace_all(cs@.skip(i + ps.len()), pat@, rep@));
            i = i + ps.len();
        } else {
            if ps.len() <= cs.len() - i {
                assert(rest.take(pat@.len() as int) =~= cs@.subrange(i as int, i + ps.len()));
            }
            assert(rest.skip(1) =~= cs@.skip(i + 1));
            assert(rest[0] == cs@[i as int]);
            let ghost before = out@;
            push_char(&mut out, cs[i]);
            assert(before + (seq![cs@[i as int]] + replace_all(cs@.skip(i + 1), pat@, rep@)) =~= out@
                + replace_all(cs@.skip(i + 1), pat@, rep@));
            i = i + 1;
        }
    }
    assert(cs@.skip(cs.len() as int) =~= Seq::<char>::empty());
    out
}

} // verus!
