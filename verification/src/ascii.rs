//! ASCII helpers shared by the SQL text processing: case folding, trimming,
//! equality, searching, and decimal digit rendering and parsing.
//!
//! SQL text travels through the crate as UTF-8 bytes; all delimiters the
//! grammar cares about are ASCII, so byte-level processing is exact.

use vstd::prelude::*;
use vstd::string::StrSliceExecFns;

verus! {

/// ASCII whitespace, as the statement grammar trims it.
pub open spec fn is_ws(b: u8) -> bool {
    b == 0x20 || (0x09 <= b && b <= 0x0d)
}

/// Lower-case image of one ASCII byte.
pub open spec fn spec_lower(b: u8) -> u8 {
    if 0x41 <= b && b <= 0x5a {
        (b + 0x20) as u8
    } else {
        b
    }
}

/// Upper-case image of one ASCII byte.
pub open spec fn spec_upper(b: u8) -> u8 {
    if 0x61 <= b && b <= 0x7a {
        (b - 0x20) as u8
    } else {
        b
    }
}

pub fn lower_byte(b: u8) -> (r: u8)
    ensures
        r == spec_lower(b),
{
    if 0x41 <= b && b <= 0x5a {
        b + 0x20
    } else {
        b
    }
}

pub fn upper_byte(b: u8) -> (r: u8)
    ensures
        r == spec_upper(b),
{
    if 0x61 <= b && b <= 0x7a {
        b - 0x20
    } else {
        b
    }
}

/// Byte-wise equality of two slices.
pub fn bytes_eq(a: &[u8], b: &[u8]) -> (r: bool)
    ensures
        r == (a@ == b@),
{
    if a.len() != b.len() {
        return false;
    }
    let mut i: usize = 0;
    while i < a.len()
        invariant
            i <= a.len(),
            a.len() == b.len(),
            forall|j: int| 0 <= j < i ==> a@[j] == b@[j],
        decreases a.len() - i,
    {
        if a[i] != b[i] {
            return false;
        }
        i += 1;
    }
    proof {
        assert(a@ =~= b@);
    }
    true
}

/// Lower-case image of a byte sequence.
pub open spec fn spec_lower_seq(s: Seq<u8>) -> Seq<u8> {
    s.map_values(|b: u8| spec_lower(b))
}

/// Upper-case image of a byte sequence.
pub open spec fn spec_upper_seq(s: Seq<u8>) -> Seq<u8> {
    s.map_values(|b: u8| spec_upper(b))
}

pub fn to_lower(s: &[u8]) -> (r: Vec<u8>)
    ensures
        r@ == spec_lower_seq(s@),
{
    let mut out: Vec<u8> = Vec::new();
    let mut i: usize = 0;
    while i < s.len()
        invariant
            i <= s.len(),
            out@ == spec_lower_seq(s@.subrange(0, i as int)),
        decreases s.len() - i,
    {
        out.push(lower_byte(s[i]));
        i += 1;
        proof {
            assert(spec_lower_seq(s@.subrange(0, i as int)) =~= spec_lower_seq(
                s@.subrange(0, i - 1),
            ).push(spec_lower(s@[i - 1])));
        }
    }
    proof {
        assert(s@.subrange(0, s@.len() as int) =~= s@);
    }
    out
}

pub fn to_upper(s: &[u8]) -> (r: Vec<u8>)
    ensures
        r@ == spec_upper_seq(s@),
{
    let mut out: Vec<u8> = Vec::new();
    let mut i: usize = 0;
    while i < s.len()
        invariant
            i <= s.len(),
            out@ == spec_upper_seq(s@.subrange(0, i as int)),
        decreases s.len() - i,
    {
        out.push(upper_byte(s[i]));
        i += 1;
        proof {
            assert(spec_upper_seq(s@.subrange(0, i as int)) =~= spec_upper_seq(
                s@.subrange(0, i - 1),
            ).push(spec_upper(s@[i - 1])));
        }
    }
    proof {
        assert(s@.subrange(0, s@.len() as int) =~= s@);
    }
    out
}

/// Case-insensitive (ASCII) equality.
pub fn eq_ignore_case(a: &[u8], b: &[u8]) -> (r: bool)
    ensures
        r == (spec_lower_seq(a@) == spec_lower_seq(b@)),
{
    let la = to_lower(a);
    let lb = to_lower(b);
    bytes_eq(la.as_slice(), lb.as_slice())
}

/// The sequence with leading ASCII whitespace removed.
pub open spec fn spec_trim_front(s: Seq<u8>) -> Seq<u8>
    decreases s.len(),
{
    if s.len() > 0 && is_ws(s[0]) {
        spec_trim_front(s.drop_first())
    } else {
        s
    }
}

/// The sequence with trailing ASCII whitespace removed.
pub open spec fn spec_trim_back(s: Seq<u8>) -> Seq<u8>
    decreases s.len(),
{
    if s.len() > 0 && is_ws(s.last()) {
        spec_trim_back(s.drop_last())
    } else {
        s
    }
}

/// The sequence with whitespace removed at both ends.
pub open spec fn spec_trim(s: Seq<u8>) -> Seq<u8> {
    spec_trim_back(spec_trim_front(s))
}

proof fn lemma_trim_front_range(s: Seq<u8>, i: int)
    requires
        0 <= i <= s.len(),
        forall|j: int| 0 <= j < i ==> is_ws(s[j]),
        i == s.len() || !is_ws(s[i]),
    ensures
        spec_trim_front(s) == s.subrange(i, s.len() as int),
    decreases i,
{
    if i == 0 {
        if s.len() > 0 && is_ws(s[0]) {
            assert(false);
        }
        assert(s.subrange(0, s.len() as int) =~= s);
    } else {
        assert(is_ws(s[0]));
        let t = s.drop_first();
        assert(forall|j: int| 0 <= j < i - 1 ==> is_ws(t[j]));
        lemma_trim_front_range(t, i - 1);
        assert(t.subrange(i - 1, t.len() as int) =~= s.subrange(i, s.len() as int));
    }
}

proof fn lemma_trim_back_range(s: Seq<u8>, i: int)
    requires
        0 <= i <= s.len(),
        forall|j: int| i <= j < s.len() ==> is_ws(s[j]),
        i == 0 || !is_ws(s[i - 1]),
    ensures
        spec_trim_back(s) == s.subrange(0, i),
    decreases s.len() - i,
{
    if i == s.len() {
        if s.len() > 0 && is_ws(s.last()) {
            assert(false);
        }
        assert(s.subrange(0, s.len() as int) =~= s);
    } else {
        assert(is_ws(s.last()));
        let t = s.drop_last();
        assert(forall|j: int| i <= j < t.len() ==> t[j] == s[j]);
        lemma_trim_back_range(t, i);
        assert(t.subrange(0, i) =~= s.subrange(0, i));
    }
}

fn is_ws_byte(b: u8) -> (r: bool)
    ensures
        r == is_ws(b),
{
    b == 0x20 || (0x09 <= b && b <= 0x0d)
}

/// Copy of `s` with ASCII whitespace removed at both ends.
pub fn trim(s: &[u8]) -> (r: Vec<u8>)
    ensures
        r@ == spec_trim(s@),
{
    let mut start: usize = 0;
    while start < s.len() && is_ws_byte(s[start])
        invariant
            start <= s.len(),
            forall|j: int| 0 <= j < start ==> is_ws(s@[j]),
        decreases s.len() - start,
    {
        start += 1;
    }
    proof {
        lemma_trim_front_range(s@, start as int);
    }
    let mut end: usize = s.len();
    while end > start && is_ws_byte(s[end - 1])
        invariant
            start <= end <= s.len(),
            forall|j: int| end <= j < s.len() ==> is_ws(s@[j]),
        decreases end,
    {
        end -= 1;
    }
    let ghost front = s@.subrange(start as int, s@.len() as int);
    proof {
        assert(forall|j: int| end - start <= j < front.len() ==> is_ws(front[j]));
        if end > start {
            assert(front[end - start - 1] == s@[end - 1]);
        }
        lemma_trim_back_range(front, end - start);
    }
    let mut out: Vec<u8> = Vec::new();
    let mut i: usize = start;
    while i < end
        invariant
            start <= i <= end <= s.len(),
            out@ == s@.subrange(start as int, i as int),
        decreases end - i,
    {
        out.push(s[i]);
        i += 1;
        proof {
            assert(s@.subrange(start as int, i as int) =~= s@.subrange(
                start as int,
                i - 1,
            ).push(s@[i - 1]));
        }
    }
    proof {
        assert(front.subrange(0, end - start) =~= s@.subrange(start as int, end as int));
    }
    out
}

/// First index of `b` in `s`, if any.
pub fn find_byte(s: &[u8], b: u8) -> (r: Option<usize>)
    ensures
        match r {
            Some(i) => i < s@.len() && s@[i as int] == b && forall|j: int|
                0 <= j < i ==> s@[j] != b,
            None => forall|j: int| 0 <= j < s@.len() ==> s@[j] != b,
        },
{
    let mut i: usize = 0;
    while i < s.len()
        invariant
            i <= s.len(),
            forall|j: int| 0 <= j < i ==> s@[j] != b,
        decreases s.len() - i,
    {
        if s[i] == b {
            return Some(i);
        }
        i += 1;
    }
    None
}

/// Whether `s` starts with `p`, byte for byte.
pub open spec fn spec_starts_with(s: Seq<u8>, p: Seq<u8>) -> bool {
    p.len() <= s.len() && s.subrange(0, p.len() as int) == p
}

pub fn starts_with(s: &[u8], p: &[u8]) -> (r: bool)
    ensures
        r == spec_starts_with(s@, p@),
{
    if p.len() > s.len() {
        return false;
    }
    let mut i: usize = 0;
    while i < p.len()
        invariant
            i <= p.len() <= s.len(),
            forall|j: int| 0 <= j < i ==> s@[j] == p@[j],
        decreases p.len() - i,
    {
        if s[i] != p[i] {
            proof {
                assert(s@.subrange(0, p@.len() as int)[i as int] == s@[i as int]);
            }
            return false;
        }
        i += 1;
    }
    proof {
        assert(s@.subrange(0, p@.len() as int) =~= p@);
    }
    true
}

/// The ASCII code of a decimal digit.
pub open spec fn spec_digit(d: int) -> u8 {
    (0x30 + d) as u8
}

/// Decimal digit string of a natural number, most significant digit first.
pub open spec fn spec_dec_digits(n: nat) -> Seq<u8>
    decreases n,
{
    if n < 10 {
        seq![spec_digit(n as int)]
    } else {
        spec_dec_digits(n / 10).push(spec_digit((n % 10) as int))
    }
}

/// The natural number a digit string denotes.
pub open spec fn spec_digits_value(s: Seq<u8>) -> nat
    decreases s.len(),
{
    if s.len() == 0 {
        0
    } else {
        spec_digits_value(s.drop_last()) * 10 + (if 0x30 <= s.last() && s.last() <= 0x39 {
            (s.last() - 0x30) as nat
        } else {
            0
        })
    }
}

/// Whether every byte of `s` is a decimal digit.
pub open spec fn spec_all_digits(s: Seq<u8>) -> bool {
    forall|j: int| 0 <= j < s.len() ==> 0x30 <= #[trigger] s[j] && s[j] <= 0x39
}

/// Rendering a number and reading the digits back is the identity.
pub proof fn lemma_digits_value_of_dec(n: nat)
    ensures
        spec_digits_value(spec_dec_digits(n)) == n,
        spec_all_digits(spec_dec_digits(n)),
        spec_dec_digits(n).len() >= 1,
    decreases n,
{
    if n < 10 {
        let s = spec_dec_digits(n);
        assert(s.len() == 1);
        assert(s.drop_last() =~= Seq::<u8>::empty());
        assert(spec_digits_value(Seq::<u8>::empty()) == 0);
        assert(s.last() == spec_digit(n as int));
        assert(0x30 <= s.last() && s.last() <= 0x39);
        assert(spec_digits_value(s) == spec_digits_value(s.drop_last()) * 10 + (s.last()
            - 0x30) as nat);
        assert(spec_digits_value(s) == n);
    } else {
        lemma_digits_value_of_dec(n / 10);
        let s = spec_dec_digits(n);
        assert(s.drop_last() =~= spec_dec_digits(n / 10));
        assert(spec_digits_value(s) == (n / 10) * 10 + n % 10);
        assert((n / 10) * 10 + n % 10 == n) by (nonlinear_arith);
    }
}

/// Decimal rendering of an unsigned number, appended to `out`.
pub fn push_dec_u128(out: &mut Vec<u8>, n: u128)
    ensures
        final(out)@ == old(out)@ + spec_dec_digits(n as nat),
{
    let mut rev: Vec<u8> = Vec::new();
    let mut m: u128 = n;
    proof {
        assert(spec_dec_digits(n as nat) =~= spec_dec_digits(m as nat) + rev@.reverse());
    }
    loop
        invariant_except_break
            spec_dec_digits(n as nat) == spec_dec_digits(m as nat) + rev@.reverse(),
        ensures
            spec_dec_digits(n as nat) == rev@.reverse(),
        decreases m,
    {
        let ghost old_rev = rev@;
        let d: u8 = (m % 10) as u8;
        rev.push(0x30 + d);
        proof {
            assert(rev@.reverse() =~= seq![(0x30 + d) as u8] + old_rev.reverse());
        }
        if m < 10 {
            proof {
                assert(spec_dec_digits(m as nat) =~= seq![spec_digit(m as int)]);
                assert(seq![spec_digit(m as int)] + old_rev.reverse() =~= rev@.reverse());
                assert(spec_dec_digits(n as nat) == rev@.reverse());
            }
            break;
        }
        proof {
            assert(spec_dec_digits(m as nat) =~= spec_dec_digits((m as nat) / 10).push(
                spec_digit(((m as nat) % 10) as int),
            ));
            assert(spec_dec_digits((m as nat) / 10).push(spec_digit(((m as nat) % 10) as int))
                =~= spec_dec_digits((m as nat) / 10) + seq![spec_digit(((m as nat) % 10) as int)]);
            assert(spec_dec_digits((m as nat) / 10) + seq![(0x30 + d) as u8] + old_rev.reverse()
                =~= spec_dec_digits((m as nat) / 10) + rev@.reverse());
            assert(spec_dec_digits(n as nat) == spec_dec_digits((m as nat) / 10) + rev@.reverse());
        }
        m = m / 10;
    }
    let mut i: usize = rev.len();
    while i > 0
        invariant
            i <= rev.len(),
            out@ == old(out)@ + rev@.subrange(i as int, rev@.len() as int).reverse(),
        decreases i,
    {
        i -= 1;
        out.push(rev[i]);
        proof {
            assert(rev@.subrange(i as int, rev@.len() as int).reverse() =~= rev@.subrange(
                i + 1,
                rev@.len() as int,
            ).reverse().push(rev@[i as int]));
        }
    }
    proof {
        assert(rev@.subrange(0, rev@.len() as int) =~= rev@);
    }
}

/// Decimal rendering of a `u64`, appended to `out`.
pub fn push_dec_u64(out: &mut Vec<u8>, n: u64)
    ensures
        final(out)@ == old(out)@ + spec_dec_digits(n as nat),
{
    push_dec_u128(out, n as u128);
}

/// What `parse_u16` accepts: an optional `+`, then at least one digit,
/// denoting a value at most 65535.
pub open spec fn spec_u16_digits(s: Seq<u8>) -> Seq<u8> {
    if s.len() > 0 && s[0] == 0x2b {
        s.drop_first()
    } else {
        s
    }
}

pub open spec fn spec_is_u16(s: Seq<u8>) -> bool {
    &&& spec_u16_digits(s).len() > 0
    &&& spec_all_digits(spec_u16_digits(s))
    &&& spec_digits_value(spec_u16_digits(s)) <= 0xffff
}

/// Port-number parse, as the standard unsigned parse accepts it: optional
/// leading `+`, digits only, value in range.
pub fn parse_u16(s: &[u8]) -> (r: Option<u16>)
    ensures
        match r {
            Some(v) => spec_is_u16(s@) && v == spec_digits_value(spec_u16_digits(s@)),
            None => !spec_is_u16(s@),
        },
{
    let digits: &[u8] = if s.len() > 0 && s[0] == 0x2b {
        proof {
            assert(s@.subrange(1, s@.len() as int) =~= spec_u16_digits(s@));
        }
        slice_drop_first(s)
    } else {
        s
    };
    if digits.len() == 0 {
        return None;
    }
    let mut acc: u32 = 0;
    let mut i: usize = 0;
    while i < digits.len()
        invariant
            i <= digits@.len(),
            digits@ == spec_u16_digits(s@),
            digits@.len() > 0,
            acc == spec_digits_value(digits@.subrange(0, i as int)),
            acc <= 0xffff,
            spec_all_digits(digits@.subrange(0, i as int)),
        decreases digits.len() - i,
    {
        let b = digits[i];
        if b < 0x30 || b > 0x39 {
            proof {
                assert(digits@[i as int] == b);
                assert(!spec_all_digits(digits@));
                assert(!spec_is_u16(s@));
            }
            return None;
        }
        let v: u32 = acc * 10 + (b - 0x30) as u32;
        proof {
            let p = digits@.subrange(0, i + 1);
            assert(p.drop_last() =~= digits@.subrange(0, i as int));
            assert(p.last() == b);
            assert(spec_digits_value(p) == v);
        }
        if v > 0xffff {
            proof {
                lemma_digits_value_monotone(digits@, i + 1);
                assert(spec_digits_value(digits@) > 0xffff);
                assert(!spec_is_u16(s@));
            }
            return None;
        }
        acc = v;
        i += 1;
    }
    proof {
        assert(digits@.subrange(0, digits@.len() as int) =~= digits@);
    }
    Some(acc as u16)
}

/// A digit string's value bounds the value of each of its prefixes.
proof fn lemma_digits_value_monotone(s: Seq<u8>, i: int)
    requires
        0 <= i <= s.len(),
    ensures
        spec_digits_value(s.subrange(0, i)) <= spec_digits_value(s),
    decreases s.len() - i,
{
    if i < s.len() {
        lemma_digits_value_monotone(s, i + 1);
        let p = s.subrange(0, i + 1);
        assert(p.drop_last() =~= s.subrange(0, i));
        assert(spec_digits_value(s.subrange(0, i)) * 10 >= spec_digits_value(s.subrange(0, i)))
            by (nonlinear_arith);
    } else {
        assert(s.subrange(0, s.len() as int) =~= s);
    }
}

/// Subslice without the first element.
pub fn slice_drop_first(s: &[u8]) -> (r: &[u8])
    requires
        s@.len() > 0,
    ensures
        r@ == s@.drop_first(),
{
    proof {
        assert(s@.subrange(1, s@.len() as int) =~= s@.drop_first());
    }
    vstd::slice::slice_subrange(s, 1, s.len())
}

/// Upper-case hexadecimal digit for a nibble.
pub open spec fn spec_hex_upper(d: int) -> u8 {
    if d < 10 {
        (0x30 + d) as u8
    } else {
        (0x41 + (d - 10)) as u8
    }
}

/// `0x`-style upper-case hex rendering of a byte string.
pub open spec fn spec_hex_bytes(s: Seq<u8>) -> Seq<u8>
    decreases s.len(),
{
    if s.len() == 0 {
        Seq::empty()
    } else {
        spec_hex_bytes(s.drop_last()) + seq![
            spec_hex_upper((s.last() as int) / 16),
            spec_hex_upper((s.last() as int) % 16),
        ]
    }
}

/// Appends the upper-case hex digits of `s` to `out`.
pub fn push_hex_upper(out: &mut Vec<u8>, s: &[u8])
    ensures
        final(out)@ == old(out)@ + spec_hex_bytes(s@),
{
    let mut i: usize = 0;
    while i < s.len()
        invariant
            i <= s.len(),
            out@ == old(out)@ + spec_hex_bytes(s@.subrange(0, i as int)),
        decreases s.len() - i,
    {
        let b = s[i];
        let hi: u8 = b / 16;
        let lo: u8 = b % 16;
        out.push(if hi < 10 {
            0x30 + hi
        } else {
            0x41 + (hi - 10)
        });
        out.push(if lo < 10 {
            0x30 + lo
        } else {
            0x41 + (lo - 10)
        });
        i += 1;
        proof {
            let p = s@.subrange(0, i as int);
            assert(p.drop_last() =~= s@.subrange(0, i - 1));
            assert(spec_hex_bytes(p) =~= spec_hex_bytes(p.drop_last()) + seq![
                spec_hex_upper((p.last() as int) / 16),
                spec_hex_upper((p.last() as int) % 16),
            ]);
            assert(out@ =~= old(out)@ + spec_hex_bytes(p));
        }
    }
    proof {
        assert(s@.subrange(0, s@.len() as int) =~= s@);
    }
}

/// Appends all of `s` to `out`.
pub fn push_bytes(out: &mut Vec<u8>, s: &[u8])
    ensures
        final(out)@ == old(out)@ + s@,
{
    let mut i: usize = 0;
    while i < s.len()
        invariant
            i <= s.len(),
            out@ == old(out)@ + s@.subrange(0, i as int),
        decreases s.len() - i,
    {
        out.push(s[i]);
        i += 1;
        proof {
            assert(old(out)@ + s@.subrange(0, i as int) =~= (old(out)@ + s@.subrange(
                0,
                i - 1,
            )).push(s@[i - 1]));
        }
    }
    proof {
        assert(s@.subrange(0, s@.len() as int) =~= s@);
        assert(out@ =~= old(out)@ + s@);
    }
}


/// The byte sequence of an ASCII string.
pub open spec fn spec_ascii(s: &str) -> Seq<u8> {
    Seq::new(s@.len(), |i: int| s@.index(i) as u8)
}

/// Bytes of an ASCII string, for stating SQL text constants exactly.
pub fn ascii_bytes(s: &str) -> (r: Vec<u8>)
    requires
        s.is_ascii(),
    ensures
        r@ == spec_ascii(s),
{
    broadcast use vstd::string::is_ascii_spec_bytes;

    s.as_bytes_vec()
}

} // verus!
