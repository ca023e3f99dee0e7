//! Textual helpers: decimal rendering and parsing, and hex encoding.
//!
//! Text travels through the library as UTF-8 bytes. Attribute values of
//! the integer data type render as signed decimal text; manifest fields
//! such as the version code parse back from decimal text; digests render
//! as lowercase hex.

use vstd::prelude::*;

verus! {

broadcast use vstd::slice::axiom_spec_len;

/// The decimal digits of the non-negative number `n`, most significant
/// first, without leading zeros (a single `0` for zero).
pub open spec fn spec_udec(n: int) -> Seq<u8>
    recommends
        n >= 0,
    decreases n,
{
    if n < 10 {
        seq![(0x30 + n) as u8]
    } else {
        spec_udec(n / 10) + seq![(0x30 + n % 10) as u8]
    }
}

/// The signed decimal text of `v`: a leading minus sign for negative
/// values, then the digits of the magnitude.
pub open spec fn spec_idec(v: int) -> Seq<u8> {
    if v < 0 {
        seq![0x2du8] + spec_udec(-v)
    } else {
        spec_udec(v)
    }
}

/// Renders the unsigned number `n` as decimal digits.
pub fn render_u32(n: u32) -> (r: Vec<u8>)
    ensures
        r@ == spec_udec(n as int),
    decreases n,
{
    if n < 10 {
        let mut out: Vec<u8> = Vec::new();
        out.push(0x30 + n as u8);
        assert(out@ =~= spec_udec(n as int));
        out
    } else {
        let mut out = render_u32(n / 10);
        out.push(0x30 + (n % 10) as u8);
        assert(out@ =~= spec_udec(n as int / 10) + seq![(0x30 + n as int % 10) as u8]);
        out
    }
}

/// Renders the 32-bit value `v` as signed decimal text, two's-complement:
/// negative values render with a minus sign and their exact magnitude.
pub fn render_i32(v: i32) -> (r: Vec<u8>)
    ensures
        r@ == spec_idec(v as int),
{
    if v < 0 {
        let m = (-(v as i64)) as u32;
        let mut digits = render_u32(m);
        let mut out: Vec<u8> = Vec::new();
        out.push(0x2d);
        out.append(&mut digits);
        assert(out@ =~= seq![0x2du8] + spec_udec(-(v as int)));
        out
    } else {
        render_u32(v as u32)
    }
}

/// Every byte of `s` is an ASCII decimal digit.
pub open spec fn spec_all_digits(s: Seq<u8>) -> bool {
    forall|i: int| 0 <= i < s.len() ==> 0x30 <= #[trigger] s[i] <= 0x39
}

/// The number the ASCII digits `s` denote.
pub open spec fn spec_digits_val(s: Seq<u8>) -> int
    recommends
        spec_all_digits(s),
    decreases s.len(),
{
    if s.len() == 0 {
        0
    } else {
        spec_digits_val(s.drop_last()) * 10 + (s.last() - 0x30)
    }
}

/// What parsing `s` as an unsigned 32-bit decimal number yields, with the
/// same acceptance as the standard library: an optional leading plus
/// sign, then one or more digits, and the value must fit.
pub open spec fn spec_parse_u32(s: Seq<u8>) -> Option<u32> {
    let t = if s.len() >= 1 && s[0] == 0x2b { s.skip(1) } else { s };
    if t.len() == 0 || !spec_all_digits(t) || spec_digits_val(t) > u32::MAX {
        None
    } else {
        Some(spec_digits_val(t) as u32)
    }
}

proof fn lemma_digits_val_nonneg(s: Seq<u8>)
    requires
        spec_all_digits(s),
    ensures
        spec_digits_val(s) >= 0,
    decreases s.len(),
{
    if s.len() > 0 {
        assert(spec_all_digits(s.drop_last()));
        lemma_digits_val_nonneg(s.drop_last());
    }
}

proof fn lemma_digits_val_mono(s: Seq<u8>, i: int)
    requires
        spec_all_digits(s),
        0 <= i <= s.len(),
    ensures
        spec_digits_val(s.take(i)) <= spec_digits_val(s),
    decreases s.len(),
{
    if i == s.len() {
        assert(s.take(i) =~= s);
    } else {
        assert(spec_all_digits(s.drop_last()));
        assert(s.drop_last().take(i) =~= s.take(i));
        lemma_digits_val_mono(s.drop_last(), i);
        lemma_digits_val_nonneg(s.drop_last());
    }
}

/// Parses `s` as an unsigned 32-bit decimal number: an optional leading
/// plus sign, then one or more digits; anything else, or a value that
/// does not fit in 32 bits, yields nothing.
pub fn parse_u32(s: &[u8]) -> (r: Option<u32>)
    ensures
        r == spec_parse_u32(s@),
{
    let n = s.len();
    let start: usize = if n >= 1 && s[0] == 0x2b {
        1
    } else {
        0
    };
    let ghost t = if s@.len() >= 1 && s@[0] == 0x2b { s@.skip(1) } else { s@ };
    assert(t =~= s@.subrange(start as int, n as int));
    if n - start == 0 {
        return None;
    }
    let mut acc: u64 = 0;
    let mut i: usize = start;
    while i < n
        invariant
            start <= i <= n,
            n == s@.len(),
            t == s@.subrange(start as int, n as int),
            t == (if s@.len() >= 1 && s@[0] == 0x2b {
                s@.skip(1)
            } else {
                s@
            }),
            spec_all_digits(t.take(i - start)),
            acc == spec_digits_val(t.take(i - start)),
            acc <= u32::MAX,
        decreases n - i,
    {
        let c = s[i];
        if c < 0x30 || c > 0x39 {
            proof {
                assert(t[i - start] == c);
                assert(!spec_all_digits(t));
                assert(spec_parse_u32(s@) is None);
            }
            return None;
        }
        assert(t.take(i + 1 - start).drop_last() =~= t.take(i - start));
        assert(t.take(i + 1 - start).last() == t[i - start]);
        assert(t[i - start] == c);
        acc = acc * 10 + (c - 0x30) as u64;
        if acc > 0xffff_ffff {
            proof {
                assert(acc == spec_digits_val(t.take(i + 1 - start)));
                if spec_all_digits(t) {
                    lemma_digits_val_mono(t, i + 1 - start);
                    assert(spec_digits_val(t) > u32::MAX);
                }
                assert(spec_parse_u32(s@) is None);
            }
            return None;
        }
        i = i + 1;
    }
    assert(t.take(n - start) =~= t);
    Some(acc as u32)
}

/// The lowercase hex digit of the value `n` below 16.
pub open spec fn spec_hex_digit(n: int) -> u8
    recommends
        0 <= n < 16,
{
    if n < 10 {
        (0x30 + n) as u8
    } else {
        (0x61 + (n - 10)) as u8
    }
}

/// The lowercase hex text of the bytes `s`: two digits per byte, high
/// nibble first.
pub open spec fn spec_hex(s: Seq<u8>) -> Seq<u8>
    decreases s.len(),
{
    if s.len() == 0 {
        Seq::empty()
    } else {
        spec_hex(s.drop_last()) + seq![
            spec_hex_digit(s.last() as int / 16),
            spec_hex_digit(s.last() as int % 16),
        ]
    }
}

fn hex_digit(n: u8) -> (r: u8)
    requires
        n < 16,
    ensures
        r == spec_hex_digit(n as int),
{
    if n < 10 {
        0x30 + n
    } else {
        0x61 + (n - 10)
    }
}

/// Renders the bytes of `s` as lowercase hex text, two digits per byte.
pub fn hex_encode(s: &[u8]) -> (r: Vec<u8>)
    ensures
        r@ == spec_hex(s@),
{
    let n = s.len();
    let mut out: Vec<u8> = Vec::new();
    let mut i: usize = 0;
    assert(out@ =~= spec_hex(s@.take(0)));
    while i < n
        invariant
            i <= n,
            n == s@.len(),
            out@ == spec_hex(s@.take(i as int)),
        decreases n - i,
    {
        let b = s[i];
        let ghost prev = out@;
        out.push(hex_digit(b / 16));
        out.push(hex_digit(b % 16));
        proof {
            assert(s@.take(i + 1).drop_last() =~= s@.take(i as int));
            assert(s@.take(i + 1).last() == s@[i as int]);
            assert(out@ =~= prev + seq![
                spec_hex_digit(s@[i as int] as int / 16),
                spec_hex_digit(s@[i as int] as int % 16),
            ]);
        }
        i = i + 1;
    }
    assert(s@.take(n as int) =~= s@);
    out
}

} // verus!
