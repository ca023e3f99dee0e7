//! Length-prefixed slice readers shared by both signing-block decoders.
//!
//! Every value in the signing-block wire format is preceded by a 4-byte
//! little-endian length. These primitives read a single prefixed value, a
//! sequence of prefixed values, and a sequence of key/value entries whose
//! key is a 4-byte little-endian integer. Every bounds check of the two
//! decoders lives here, so both inherit identical failure behaviour.

use vstd::prelude::*;
use vstd::bytes::{spec_u16_from_le_bytes, spec_u32_from_le_bytes, spec_u64_from_le_bytes};
use vstd::bytes::{u16_from_le_bytes, u32_from_le_bytes, u64_from_le_bytes};
use vstd::slice::slice_to_vec;
use crate::errors::ApkError;

verus! {

broadcast use vstd::slice::axiom_spec_len;

/// The 16-bit little-endian integer stored at byte offset `pos`.
pub open spec fn le16_at(s: Seq<u8>, pos: int) -> u16
    recommends
        0 <= pos,
        pos + 2 <= s.len(),
{
    spec_u16_from_le_bytes(s.subrange(pos, pos + 2))
}

/// The 32-bit little-endian integer stored at byte offset `pos`.
pub open spec fn le32_at(s: Seq<u8>, pos: int) -> u32
    recommends
        0 <= pos,
        pos + 4 <= s.len(),
{
    spec_u32_from_le_bytes(s.subrange(pos, pos + 4))
}

/// The 64-bit little-endian integer stored at byte offset `pos`.
pub open spec fn le64_at(s: Seq<u8>, pos: int) -> u64
    recommends
        0 <= pos,
        pos + 8 <= s.len(),
{
    spec_u64_from_le_bytes(s.subrange(pos, pos + 8))
}

/// Reads the 16-bit little-endian integer at `pos`.
pub fn read_le16(slice: &[u8], pos: usize) -> (r: u16)
    requires
        pos + 2 <= slice@.len(),
    ensures
        r == le16_at(slice@, pos as int),
{
    let n = slice.len();
    assert(pos + 2 <= n);
    u16_from_le_bytes(&slice[pos..pos + 2])
}

/// Reads the 32-bit little-endian integer at `pos`.
pub fn read_le32(slice: &[u8], pos: usize) -> (r: u32)
    requires
        pos + 4 <= slice@.len(),
    ensures
        r == le32_at(slice@, pos as int),
{
    let n = slice.len();
    assert(pos + 4 <= n);
    u32_from_le_bytes(&slice[pos..pos + 4])
}

/// Reads the 64-bit little-endian integer at `pos`.
pub fn read_le64(slice: &[u8], pos: usize) -> (r: u64)
    requires
        pos + 8 <= slice@.len(),
    ensures
        r == le64_at(slice@, pos as int),
{
    let n = slice.len();
    assert(pos + 8 <= n);
    u64_from_le_bytes(&slice[pos..pos + 8])
}

/// Copies the bytes `slice[start..end]` into an owned vector.
pub fn copy_range(slice: &[u8], start: usize, end: usize) -> (r: Vec<u8>)
    requires
        start <= end,
        end <= slice@.len(),
    ensures
        r@ == slice@.subrange(start as int, end as int),
{
    slice_to_vec(&slice[start..end])
}

/// A single length-prefixed value starts at `pos`: a 4-byte length fits in
/// the remainder, and the value it declares does too.
pub open spec fn spec_lv_ok(s: Seq<u8>, pos: int) -> bool {
    &&& pos + 4 <= s.len()
    &&& le32_at(s, pos) as int <= s.len() - pos - 4
}

/// The value of the length-prefixed field at `pos`.
pub open spec fn spec_lv_value(s: Seq<u8>, pos: int) -> Seq<u8>
    recommends
        spec_lv_ok(s, pos),
{
    s.subrange(pos + 4, pos + 4 + le32_at(s, pos) as int)
}

/// The offset just past the length-prefixed field at `pos`.
pub open spec fn spec_lv_end(s: Seq<u8>, pos: int) -> int
    recommends
        spec_lv_ok(s, pos),
{
    pos + 4 + le32_at(s, pos) as int
}

/// Reads the length-prefixed value at `pos` and returns it with the offset
/// of whatever follows it. Fails when the length prefix itself does not
/// fit, or claims more bytes than remain.
pub fn take_lv_u32(slice: &[u8], pos: usize) -> (r: Result<(Vec<u8>, usize), ApkError>)
    requires
        pos <= slice@.len(),
    ensures
        match r {
            Ok((v, end)) => {
                &&& spec_lv_ok(slice@, pos as int)
                &&& v@ == spec_lv_value(slice@, pos as int)
                &&& end as int == spec_lv_end(slice@, pos as int)
            },
            Err(e) => {
                &&& !spec_lv_ok(slice@, pos as int)
                &&& e == ApkError::TruncatedOrOversized
            },
        },
{
    if slice.len() - pos < 4 {
        return Err(ApkError::TruncatedOrOversized);
    }
    let len = read_le32(slice, pos) as usize;
    if len > slice.len() - pos - 4 {
        return Err(ApkError::TruncatedOrOversized);
    }
    let v = copy_range(slice, pos + 4, pos + 4 + len);
    Ok((v, pos + 4 + len))
}

/// Reads the single length-prefixed value at the start of `slice`.
pub fn get_lv_u32(slice: &[u8]) -> (r: Result<Vec<u8>, ApkError>)
    ensures
        match r {
            Ok(v) => spec_lv_ok(slice@, 0) && v@ == spec_lv_value(slice@, 0),
            Err(e) => !spec_lv_ok(slice@, 0) && e == ApkError::TruncatedOrOversized,
        },
{
    match take_lv_u32(slice, 0) {
        Ok((v, _)) => Ok(v),
        Err(e) => Err(e),
    }
}

/// The length-prefixed value at the start of `slice`, split into its
/// leading 4-byte little-endian key and the bytes after it.
pub open spec fn spec_lv_kv_ok(s: Seq<u8>) -> bool {
    spec_lv_ok(s, 0) && spec_lv_value(s, 0).len() >= 4
}

/// Reads the length-prefixed value at the start of `slice` and splits off
/// its leading 4-byte little-endian key.
pub fn get_lv_u32_kv(slice: &[u8]) -> (r: Result<(u32, Vec<u8>), ApkError>)
    ensures
        match r {
            Ok((k, v)) => {
                &&& spec_lv_kv_ok(slice@)
                &&& k == le32_at(spec_lv_value(slice@, 0), 0)
                &&& v@ == spec_lv_value(slice@, 0).skip(4)
            },
            Err(e) => !spec_lv_kv_ok(slice@) && e == ApkError::TruncatedOrOversized,
        },
{
    let data = get_lv_u32(slice)?;
    if data.len() < 4 {
        return Err(ApkError::TruncatedOrOversized);
    }
    let k = read_le32(data.as_slice(), 0);
    let v = copy_range(data.as_slice(), 4, data.len());
    assert(v@ =~= spec_lv_value(slice@, 0).skip(4));
    assert(data@.subrange(0, 4) =~= spec_lv_value(slice@, 0).subrange(0, 4));
    Ok((k, v))
}

/// The sequence of length-prefixed values that fills `s` from `pos` on.
/// A trailing fragment of fewer than 4 bytes ends the sequence; a length
/// prefix that overruns the remainder makes the whole sequence invalid.
pub open spec fn spec_lv_seq_at(s: Seq<u8>, pos: int) -> Option<Seq<Seq<u8>>>
    decreases s.len() - pos,
{
    if s.len() - pos < 4 {
        Some(Seq::empty())
    } else if !spec_lv_ok(s, pos) {
        None
    } else {
        match spec_lv_seq_at(s, spec_lv_end(s, pos)) {
            None => None,
            Some(t) => Some(seq![spec_lv_value(s, pos)] + t),
        }
    }
}

/// The sequence of length-prefixed values that fills `s`.
pub open spec fn spec_lv_seq(s: Seq<u8>) -> Option<Seq<Seq<u8>>> {
    spec_lv_seq_at(s, 0)
}

/// The byte sequences held by a vector of byte vectors.
pub open spec fn seqs_view(v: Seq<Vec<u8>>) -> Seq<Seq<u8>> {
    v.map_values(|x: Vec<u8>| x@)
}

fn lv_sequence_at(slice: &[u8], pos: usize) -> (r: Result<Vec<Vec<u8>>, ApkError>)
    requires
        pos <= slice@.len(),
    ensures
        match r {
            Ok(v) => spec_lv_seq_at(slice@, pos as int) == Some(seqs_view(v@)),
            Err(e) => {
                &&& spec_lv_seq_at(slice@, pos as int) is None
                &&& e == ApkError::TruncatedOrOversized
            },
        },
    decreases slice@.len() - pos,
{
    if slice.len() - pos < 4 {
        let v: Vec<Vec<u8>> = Vec::new();
        assert(seqs_view(v@) =~= Seq::<Seq<u8>>::empty());
        return Ok(v);
    }
    let (val, end) = take_lv_u32(slice, pos)?;
    let mut rest = lv_sequence_at(slice, end)?;
    rest.insert(0, val);
    assert(seqs_view(rest@) =~= seq![spec_lv_value(slice@, pos as int)]
        + spec_lv_seq_at(slice@, spec_lv_end(slice@, pos as int)).unwrap());
    Ok(rest)
}

/// Reads zero or more length-prefixed values until fewer than 4 bytes
/// remain; the remainder is never interpreted.
pub fn get_lv_sequence(slice: &[u8]) -> (r: Result<Vec<Vec<u8>>, ApkError>)
    ensures
        match r {
            Ok(v) => spec_lv_seq(slice@) == Some(seqs_view(v@)),
            Err(e) => spec_lv_seq(slice@) is None && e == ApkError::TruncatedOrOversized,
        },
{
    lv_sequence_at(slice, 0)
}

/// Splits a sequence entry into its leading 4-byte little-endian key and
/// the bytes after it.
pub open spec fn spec_kv_entry(e: Seq<u8>) -> (u32, Seq<u8>) {
    (le32_at(e, 0), e.skip(4))
}

/// The key/value entries of the length-prefixed sequence that fills `s`:
/// each entry of the sequence must be at least 4 bytes, and splits into a
/// key and the value bytes.
pub open spec fn spec_kv_seq(s: Seq<u8>) -> Option<Seq<(u32, Seq<u8>)>> {
    match spec_lv_seq(s) {
        None => None,
        Some(es) => {
            if forall|i: int| 0 <= i < es.len() ==> (#[trigger] es[i]).len() >= 4 {
                Some(es.map_values(|e: Seq<u8>| spec_kv_entry(e)))
            } else {
                None
            }
        },
    }
}

/// The key/value pairs held by a vector of key/byte-vector pairs.
pub open spec fn kvs_view(v: Seq<(u32, Vec<u8>)>) -> Seq<(u32, Seq<u8>)> {
    v.map_values(|p: (u32, Vec<u8>)| (p.0, p.1@))
}

/// Reads a length-prefixed sequence and splits each entry into its 4-byte
/// little-endian key and value bytes. An entry shorter than 4 bytes fails
/// the whole read.
pub fn get_sequence_kv(slice: &[u8]) -> (r: Result<Vec<(u32, Vec<u8>)>, ApkError>)
    ensures
        match r {
            Ok(v) => spec_kv_seq(slice@) == Some(kvs_view(v@)),
            Err(e) => spec_kv_seq(slice@) is None && e == ApkError::TruncatedOrOversized,
        },
{
    let es = get_lv_sequence(slice)?;
    let ghost ses = seqs_view(es@);
    let mut out: Vec<(u32, Vec<u8>)> = Vec::new();
    let mut i: usize = 0;
    while i < es.len()
        invariant
            i <= es.len(),
            ses == seqs_view(es@),
            spec_lv_seq(slice@) == Some(ses),
            forall|j: int| 0 <= j < i ==> (#[trigger] ses[j]).len() >= 4,
            out@.len() == i,
            forall|j: int| 0 <= j < i ==> #[trigger] kvs_view(out@)[j] == spec_kv_entry(ses[j]),
        decreases es.len() - i,
    {
        let e = &es[i];
        if e.len() < 4 {
            assert(ses[i as int].len() < 4);
            return Err(ApkError::TruncatedOrOversized);
        }
        let k = read_le32(e.as_slice(), 0);
        let v = copy_range(e.as_slice(), 4, e.len());
        assert(e@.subrange(0, 4) =~= ses[i as int].subrange(0, 4));
        assert(v@ =~= ses[i as int].skip(4));
        let ghost prev = out@;
        out.push((k, v));
        assert(kvs_view(out@) =~= kvs_view(prev).push((k, v@)));
        i = i + 1;
    }
    assert(kvs_view(out@) =~= ses.map_values(|e: Seq<u8>| spec_kv_entry(e)));
    Ok(out)
}

/// The slice that remains after stripping redundant 4-byte length layers:
/// starting just past the first length `l1`, drop further 4-byte prefixes
/// while each reads exactly `l1 - 4`.
pub open spec fn spec_strip_from(s: Seq<u8>, l1: int, pos: int) -> Option<Seq<u8>>
    decreases s.len() - pos,
{
    if s.len() - pos < 4 {
        None
    } else if l1 != le32_at(s, pos) as int + 4 {
        Some(s.skip(pos))
    } else {
        spec_strip_from(s, l1, pos + 4)
    }
}

/// The result of removing the redundant nested length layers at the start
/// of `s`.
pub open spec fn spec_remove_prefix_layers(s: Seq<u8>) -> Option<Seq<u8>> {
    if s.len() < 4 {
        None
    } else {
        spec_strip_from(s, le32_at(s, 0) as int, 4)
    }
}

/// Strips one or more redundant nested length layers: a documented oddity
/// of the V2 wire format wraps the payload in extra 4-byte length prefixes
/// whose values each read 4 less than the outermost one. The scan has no
/// bound other than the layers ceasing to match, as the format gives none;
/// it stops at the first prefix that breaks the pattern, or fails when
/// fewer than 4 bytes remain to read one.
pub fn remove_prefix_layers(slice: &[u8]) -> (r: Result<Vec<u8>, ApkError>)
    ensures
        match r {
            Ok(v) => spec_remove_prefix_layers(slice@) == Some(v@),
            Err(e) => {
                &&& spec_remove_prefix_layers(slice@) is None
                &&& e == ApkError::TruncatedOrOversized
            },
        },
{
    if slice.len() < 4 {
        return Err(ApkError::TruncatedOrOversized);
    }
    let l1 = read_le32(slice, 0) as u64;
    let mut pos: usize = 4;
    loop
        invariant
            4 <= pos <= slice@.len(),
            l1 == le32_at(slice@, 0) as u64,
            slice@.len() >= 4,
            spec_strip_from(slice@, l1 as int, 4) == spec_strip_from(slice@, l1 as int, pos as int),
        decreases slice@.len() - pos,
    {
        if slice.len() - pos < 4 {
            return Err(ApkError::TruncatedOrOversized);
        }
        let l2 = read_le32(slice, pos) as u64;
        if l1 != l2 + 4 {
            let v = copy_range(slice, pos, slice.len());
            assert(v@ =~= slice@.skip(pos as int));
            return Ok(v);
        }
        pos = pos + 4;
    }
}

} // verus!
