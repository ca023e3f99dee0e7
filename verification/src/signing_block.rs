//! The APK Signing Block: locator and scheme decoders.
//!
//! The signing block is appended near the end of a ZIP-based file. A
//! 16-byte trailer magic follows the block; two redundant 8-byte size
//! fields bracket it, one at the very start of the block and one just
//! before the magic. The block body is a sequence of
//! `{8-byte total entry length}{4-byte id}{value}` records which must
//! consume the declared body length exactly. Entries with the scheme V2 or
//! V3 id decode further into digests, signatures, certificates and
//! attributes; entries with any other id are ignored.

use vstd::prelude::*;
use vstd::slice::slice_to_vec;
use vstd::string::StringSliceAdditionalSpecFns;
use crate::errors::ApkError;
use crate::text::{spec_hex, hex_encode};
use crate::tlv::{
    le32_at, le64_at, read_le32, read_le64, copy_range,
    spec_lv_ok, spec_lv_value, spec_lv_end, take_lv_u32,
    spec_lv_seq, get_lv_sequence, seqs_view,
    spec_kv_seq, get_sequence_kv, kvs_view,
    spec_remove_prefix_layers, remove_prefix_layers,
};

verus! {

broadcast use vstd::slice::axiom_spec_len;

/// Block entry id of signature scheme V2.
pub const V2_SIG_BLOCK_ID: u32 = 0x7109871a;

/// Block entry id of signature scheme V3.
pub const V3_SIG_BLOCK_ID: u32 = 0xf05368c0;

/// A named signature algorithm from the closed registry of 4-byte
/// algorithm ids. Ids outside the registry cause the single signature
/// entry that carries them to be dropped, never a decode failure.
#[derive(Debug, Clone, Copy, PartialEq, Eq, Structural)]
pub enum ApkSignatureAlgo {
    RsaSsaPssSha256,
    RsaSsaPssSha512,
    RsaSsaPkcs1Sha256,
    RsaSsaPkcs1Sha512,
    EcdsaSha256,
    EcdsaSha512,
    DsaSha256,
}

/// The algorithm the 4-byte id names, if any. The registry is closed:
/// exactly these seven ids resolve.
pub open spec fn spec_algo_of(id: u32) -> Option<ApkSignatureAlgo> {
    if id == 0x0101 {
        Some(ApkSignatureAlgo::RsaSsaPssSha256)
    } else if id == 0x0102 {
        Some(ApkSignatureAlgo::RsaSsaPssSha512)
    } else if id == 0x0103 {
        Some(ApkSignatureAlgo::RsaSsaPkcs1Sha256)
    } else if id == 0x0104 {
        Some(ApkSignatureAlgo::RsaSsaPkcs1Sha512)
    } else if id == 0x0201 {
        Some(ApkSignatureAlgo::EcdsaSha256)
    } else if id == 0x0202 {
        Some(ApkSignatureAlgo::EcdsaSha512)
    } else if id == 0x0301 {
        Some(ApkSignatureAlgo::DsaSha256)
    } else {
        None
    }
}

impl ApkSignatureAlgo {
    /// Looks the 4-byte algorithm id up in the closed registry.
    pub fn try_from(value: u32) -> (r: Option<ApkSignatureAlgo>)
        ensures
            r == spec_algo_of(value),
    {
        match value {
            0x0101 => Some(ApkSignatureAlgo::RsaSsaPssSha256),
            0x0102 => Some(ApkSignatureAlgo::RsaSsaPssSha512),
            0x0103 => Some(ApkSignatureAlgo::RsaSsaPkcs1Sha256),
            0x0104 => Some(ApkSignatureAlgo::RsaSsaPkcs1Sha512),
            0x0201 => Some(ApkSignatureAlgo::EcdsaSha256),
            0x0202 => Some(ApkSignatureAlgo::EcdsaSha512),
            0x0301 => Some(ApkSignatureAlgo::DsaSha256),
            _ => None,
        }
    }

    /// The display name of the algorithm.
    pub fn name(&self) -> (r: &'static str)
        ensures
            r@ == self.spec_name(),
    {
        match self {
            ApkSignatureAlgo::RsaSsaPssSha256 => "RSASSA-PSS-SHA256",
            ApkSignatureAlgo::RsaSsaPssSha512 => "RSASSA-PSS-SHA512",
            ApkSignatureAlgo::RsaSsaPkcs1Sha256 => "RSASSA-PKCS1-SHA256",
            ApkSignatureAlgo::RsaSsaPkcs1Sha512 => "RSASSA-PKCS1-SHA512",
            ApkSignatureAlgo::EcdsaSha256 => "ECDSA-SHA256",
            ApkSignatureAlgo::EcdsaSha512 => "ECDSA-SHA512",
            ApkSignatureAlgo::DsaSha256 => "DSA-SHA256",
        }
    }

    /// The display name of the algorithm, as a sequence of characters.
    pub open spec fn spec_name(self) -> Seq<char> {
        match self {
            ApkSignatureAlgo::RsaSsaPssSha256 => "RSASSA-PSS-SHA256"@,
            ApkSignatureAlgo::RsaSsaPssSha512 => "RSASSA-PSS-SHA512"@,
            ApkSignatureAlgo::RsaSsaPkcs1Sha256 => "RSASSA-PKCS1-SHA256"@,
            ApkSignatureAlgo::RsaSsaPkcs1Sha512 => "RSASSA-PKCS1-SHA512"@,
            ApkSignatureAlgo::EcdsaSha256 => "ECDSA-SHA256"@,
            ApkSignatureAlgo::EcdsaSha512 => "ECDSA-SHA512"@,
            ApkSignatureAlgo::DsaSha256 => "DSA-SHA256"@,
        }
    }
}

/// One decoded signature: the named algorithm, the signature bytes, and
/// the digest bytes recorded under the same algorithm id.
#[derive(Debug, Clone)]
pub struct ApkSignature {
    pub algo: ApkSignatureAlgo,
    pub signature: Vec<u8>,
    pub digest: Vec<u8>,
}

/// Mathematical model of one decoded signature.
pub ghost struct SigModel {
    pub algo: ApkSignatureAlgo,
    pub signature: Seq<u8>,
    pub digest: Seq<u8>,
}

impl View for ApkSignature {
    type V = SigModel;

    open spec fn view(&self) -> SigModel {
        SigModel { algo: self.algo, signature: self.signature@, digest: self.digest@ }
    }
}

/// The models of a vector of decoded signatures.
pub open spec fn sigs_view(v: Seq<ApkSignature>) -> Seq<SigModel> {
    v.map_values(|s: ApkSignature| s@)
}

/// One decoded signing scheme.
#[derive(Debug, Clone)]
pub enum ApkSignatureBlock {
    /// A block entry that carries no recognized scheme.
    Unknown { data: Vec<u8> },
    /// Signature scheme V2.
    V2 {
        signatures: Vec<ApkSignature>,
        public_key: Vec<u8>,
        certificates: Vec<Vec<u8>>,
        attributes: Vec<(u32, Vec<u8>)>,
    },
    /// Signature scheme V3, which additionally binds an SDK range. The
    /// wire format records the range twice; both copies must agree.
    V3 {
        signatures: Vec<ApkSignature>,
        certificates: Vec<Vec<u8>>,
        public_key: Vec<u8>,
        attributes: Vec<(u32, Vec<u8>)>,
        min_sdk: u32,
        max_sdk: u32,
    },
}

/// Mathematical model of one decoded signing scheme.
pub ghost enum BlockModel {
    Unknown { data: Seq<u8> },
    V2 {
        signatures: Seq<SigModel>,
        public_key: Seq<u8>,
        certificates: Seq<Seq<u8>>,
        attributes: Seq<(u32, Seq<u8>)>,
    },
    V3 {
        signatures: Seq<SigModel>,
        certificates: Seq<Seq<u8>>,
        public_key: Seq<u8>,
        attributes: Seq<(u32, Seq<u8>)>,
        min_sdk: u32,
        max_sdk: u32,
    },
}

impl View for ApkSignatureBlock {
    type V = BlockModel;

    open spec fn view(&self) -> BlockModel {
        match self {
            ApkSignatureBlock::Unknown { data } => BlockModel::Unknown { data: data@ },
            ApkSignatureBlock::V2 { signatures, public_key, certificates, attributes } => {
                BlockModel::V2 {
                    signatures: sigs_view(signatures@),
                    public_key: public_key@,
                    certificates: seqs_view(certificates@),
                    attributes: kvs_view(attributes@),
                }
            },
            ApkSignatureBlock::V3 {
                signatures,
                certificates,
                public_key,
                attributes,
                min_sdk,
                max_sdk,
            } => {
                BlockModel::V3 {
                    signatures: sigs_view(signatures@),
                    certificates: seqs_view(certificates@),
                    public_key: public_key@,
                    attributes: kvs_view(attributes@),
                    min_sdk: *min_sdk,
                    max_sdk: *max_sdk,
                }
            },
        }
    }
}

/// The models of a vector of decoded schemes.
pub open spec fn blocks_view(v: Seq<ApkSignatureBlock>) -> Seq<BlockModel> {
    v.map_values(|b: ApkSignatureBlock| b@)
}

// ------------------------------------------------------------------
// Locator
// ------------------------------------------------------------------

/// The 16 trailer magic bytes `"APK Sig Block 42"` stand at offset `pos`.
pub open spec fn magic_at(s: Seq<u8>, pos: int) -> bool {
    &&& 0 <= pos
    &&& pos + 16 <= s.len()
    &&& s[pos] == 0x41u8
    &&& s[pos + 1] == 0x50u8
    &&& s[pos + 2] == 0x4bu8
    &&& s[pos + 3] == 0x20u8
    &&& s[pos + 4] == 0x53u8
    &&& s[pos + 5] == 0x69u8
    &&& s[pos + 6] == 0x67u8
    &&& s[pos + 7] == 0x20u8
    &&& s[pos + 8] == 0x42u8
    &&& s[pos + 9] == 0x6cu8
    &&& s[pos + 10] == 0x6fu8
    &&& s[pos + 11] == 0x63u8
    &&& s[pos + 12] == 0x6bu8
    &&& s[pos + 13] == 0x20u8
    &&& s[pos + 14] == 0x34u8
    &&& s[pos + 15] == 0x32u8
}

/// The offset of the trailer magic found by scanning backward from `pos`:
/// the largest magic offset at most `pos`, where offsets at or below 16
/// are never considered (the block needs room before the magic).
pub open spec fn spec_find_magic(s: Seq<u8>, pos: int) -> Option<int>
    decreases pos,
{
    if pos <= 16 {
        None
    } else if magic_at(s, pos) {
        Some(pos)
    } else {
        spec_find_magic(s, pos - 1)
    }
}

/// The entries that fill the block body at `pos`, of `remaining` bytes:
/// each is an 8-byte total length (at least 4), a 4-byte id, and the value
/// bytes, and the running remainder must land exactly on zero.
pub open spec fn spec_parse_entries(s: Seq<u8>, pos: int, remaining: int) -> Option<
    Seq<(u32, Seq<u8>)>,
>
    recommends
        0 <= pos,
        pos + remaining <= s.len(),
    decreases remaining,
{
    if remaining == 0 {
        Some(Seq::empty())
    } else if remaining < 12 {
        None
    } else {
        let kv_len = le64_at(s, pos) as int;
        if kv_len < 4 || 8 + kv_len > remaining {
            None
        } else {
            let k = le32_at(s, pos + 8);
            let v = s.subrange(pos + 12, pos + 8 + kv_len);
            match spec_parse_entries(s, pos + 8 + kv_len, remaining - 8 - kv_len) {
                None => None,
                Some(t) => Some(seq![(k, v)] + t),
            }
        }
    }
}

/// What locating the signing block in the byte source `s` yields: the
/// validated block size and the (id, value) entries, or the exact failure.
pub open spec fn spec_locate(s: Seq<u8>) -> Result<(u64, Seq<(u32, Seq<u8>)>), ApkError> {
    match spec_find_magic(s, s.len() - 17) {
        None => Err(ApkError::SigningBlockNotFound),
        Some(pos) => {
            let size1 = le64_at(s, pos - 8);
            if size1 as int > s.len() {
                Err(ApkError::BlockLargerThanFile { size: size1, file_len: s.len() as u64 })
            } else if pos + 8 - (size1 as int) < 0 {
                Err(ApkError::TruncatedSigningBlock)
            } else {
                let size2 = le64_at(s, pos + 8 - size1 as int);
                if size1 != size2 {
                    Err(ApkError::InconsistentBlockSize { size1, size2 })
                } else if size1 < 24 {
                    Err(ApkError::TruncatedSigningBlock)
                } else {
                    match spec_parse_entries(s, pos + 16 - size1 as int, size1 as int - 24) {
                        None => Err(ApkError::TruncatedSigningBlock),
                        Some(es) => Ok((size1, es)),
                    }
                }
            }
        },
    }
}

/// A found magic offset lies above 16 and carries the magic bytes.
proof fn lemma_find_magic_props(s: Seq<u8>, pos: int)
    requires
        spec_find_magic(s, pos) is Some,
    ensures
        spec_find_magic(s, pos)->Some_0 > 16,
        magic_at(s, spec_find_magic(s, pos)->Some_0),
        spec_find_magic(s, pos)->Some_0 <= pos,
    decreases pos,
{
    if pos <= 16 {
    } else if magic_at(s, pos) {
    } else {
        lemma_find_magic_props(s, pos - 1);
    }
}

fn is_magic_at(slice: &[u8], pos: usize) -> (r: bool)
    requires
        pos + 16 <= slice@.len(),
    ensures
        r == magic_at(slice@, pos as int),
{
    let n = slice.len();
    slice[pos] == 0x41u8 && slice[pos + 1] == 0x50u8 && slice[pos + 2] == 0x4bu8
        && slice[pos + 3] == 0x20u8 && slice[pos + 4] == 0x53u8 && slice[pos + 5] == 0x69u8
        && slice[pos + 6] == 0x67u8 && slice[pos + 7] == 0x20u8 && slice[pos + 8] == 0x42u8
        && slice[pos + 9] == 0x6cu8 && slice[pos + 10] == 0x6fu8 && slice[pos + 11] == 0x63u8
        && slice[pos + 12] == 0x6bu8 && slice[pos + 13] == 0x20u8 && slice[pos + 14] == 0x34u8
        && slice[pos + 15] == 0x32u8
}

fn find_magic(data: &[u8]) -> (r: Option<usize>)
    ensures
        match r {
            Some(p) => {
                &&& 16 < p
                &&& p + 16 <= data@.len()
                &&& spec_find_magic(data@, data@.len() - 17) == Some(p as int)
            },
            None => spec_find_magic(data@, data@.len() - 17) is None,
        },
{
    let flen = data.len();
    if flen < 17 {
        return None;
    }
    let mut pos: usize = flen - 17;
    loop
        invariant
            data@.len() == flen,
            17 <= flen,
            pos <= flen - 17,
            spec_find_magic(data@, flen - 17) == spec_find_magic(data@, pos as int),
        decreases pos,
    {
        if pos <= 16 {
            return None;
        }
        if is_magic_at(data, pos) {
            return Some(pos);
        }
        pos = pos - 1;
    }
}

fn parse_entries(data: &[u8], pos: usize, remaining: usize) -> (r: Result<
    Vec<(u32, Vec<u8>)>,
    ApkError,
>)
    requires
        pos + remaining <= data@.len(),
    ensures
        match r {
            Ok(v) => spec_parse_entries(data@, pos as int, remaining as int) == Some(kvs_view(v@)),
            Err(e) => {
                &&& spec_parse_entries(data@, pos as int, remaining as int) is None
                &&& e == ApkError::TruncatedSigningBlock
            },
        },
    decreases remaining,
{
    if remaining == 0 {
        let v: Vec<(u32, Vec<u8>)> = Vec::new();
        assert(kvs_view(v@) =~= Seq::<(u32, Seq<u8>)>::empty());
        return Ok(v);
    }
    if remaining < 12 {
        return Err(ApkError::TruncatedSigningBlock);
    }
    let n = data.len();
    assert(pos + remaining <= n);
    let kv_len = read_le64(data, pos);
    if kv_len < 4 || kv_len > (remaining - 8) as u64 {
        return Err(ApkError::TruncatedSigningBlock);
    }
    let kv_len = kv_len as usize;
    let k = read_le32(data, pos + 8);
    let v = copy_range(data, pos + 12, pos + 8 + kv_len);
    let mut rest = parse_entries(data, pos + 8 + kv_len, remaining - 8 - kv_len)?;
    rest.insert(0, (k, v));
    assert(kvs_view(rest@) =~= seq![(k, v@)] + spec_parse_entries(
        data@,
        pos as int + 8 + kv_len as int,
        remaining as int - 8 - kv_len as int,
    ).unwrap());
    Ok(rest)
}

/// The located APK Signing Block: its validated total size and its
/// ordered (id, value) entries, copied out of the source buffer.
#[derive(Debug, Clone)]
pub struct ApkSigningBlock {
    /// The (id, value) entries, in wire order.
    pub data: Vec<(u32, Vec<u8>)>,
    /// The block size the two redundant size fields agreed on.
    pub size: u64,
}

impl ApkSigningBlock {
    /// Locates the signing block in a complete file image: scans backward
    /// from the end for the trailer magic, validates the two redundant
    /// size fields that bracket the block, and decodes the body into
    /// (id, value) entries whose sizes must consume it exactly.
    pub fn from_bytes(data: &[u8]) -> (r: Result<ApkSigningBlock, ApkError>)
        ensures
            match r {
                Ok(b) => spec_locate(data@) == Ok::<_, ApkError>((b.size, kvs_view(b.data@))),
                Err(e) => spec_locate(data@) == Err::<(u64, Seq<(u32, Seq<u8>)>), _>(e),
            },
    {
        let flen = data.len();
        let pos = match find_magic(data) {
            None => {
                return Err(ApkError::SigningBlockNotFound);
            },
            Some(p) => p,
        };
        proof {
            lemma_find_magic_props(data@, flen - 17);
        }
        let size1 = read_le64(data, pos - 8);
        if size1 > flen as u64 {
            return Err(ApkError::BlockLargerThanFile { size: size1, file_len: flen as u64 });
        }
        if size1 > pos as u64 + 8 {
            return Err(ApkError::TruncatedSigningBlock);
        }
        let q: usize = pos + 8 - size1 as usize;
        let size2 = read_le64(data, q);
        if size1 != size2 {
            return Err(ApkError::InconsistentBlockSize { size1, size2 });
        }
        if size1 < 24 {
            return Err(ApkError::TruncatedSigningBlock);
        }
        let body: usize = q + 8;
        let remaining: usize = size1 as usize - 24;
        let entries = parse_entries(data, body, remaining)?;
        Ok(ApkSigningBlock { data: entries, size: size1 })
    }
}

// ------------------------------------------------------------------
// Scheme decoders
// ------------------------------------------------------------------

/// The digest recorded under algorithm id `k`: of several entries with the
/// same id, the last one wins.
pub open spec fn spec_lookup_digest(digests: Seq<(u32, Seq<u8>)>, k: u32) -> Option<Seq<u8>>
    decreases digests.len(),
{
    if digests.len() == 0 {
        None
    } else if digests.last().0 == k {
        Some(digests.last().1)
    } else {
        spec_lookup_digest(digests.drop_last(), k)
    }
}

/// The signature assembled from one (algorithm id, raw) entry, or nothing
/// when the entry is dropped. An entry is dropped when its inner length
/// prefix overruns the raw bytes, its algorithm id is outside the
/// registry, or no digest under the same id exists; a signature is emitted
/// if and only if none of that holds. The digest's own leading 4 bytes are
/// its length prefix and are stripped the same way.
pub open spec fn spec_sig_of(k: u32, v: Seq<u8>, digests: Seq<(u32, Seq<u8>)>) -> Option<SigModel> {
    if v.len() < 4 {
        None
    } else if le32_at(v, 0) as int > v.len() - 4 {
        None
    } else {
        match spec_algo_of(k) {
            None => None,
            Some(algo) => match spec_lookup_digest(digests, k) {
                None => None,
                Some(d) => {
                    if d.len() < 4 {
                        None
                    } else {
                        Some(
                            SigModel {
                                algo,
                                signature: v.subrange(4, 4 + le32_at(v, 0) as int),
                                digest: d.skip(4),
                            },
                        )
                    }
                },
            },
        }
    }
}

/// The signatures assembled from the (algorithm id, raw) entries, in
/// order, with dropped entries omitted.
pub open spec fn spec_parse_sigs(
    sigs: Seq<(u32, Seq<u8>)>,
    digests: Seq<(u32, Seq<u8>)>,
) -> Seq<SigModel>
    decreases sigs.len(),
{
    if sigs.len() == 0 {
        Seq::empty()
    } else {
        let rest = spec_parse_sigs(sigs.skip(1), digests);
        match spec_sig_of(sigs[0].0, sigs[0].1, digests) {
            None => rest,
            Some(m) => seq![m] + rest,
        }
    }
}

fn lookup_digest(digests: &Vec<(u32, Vec<u8>)>, k: u32) -> (r: Option<Vec<u8>>)
    ensures
        match r {
            Some(d) => spec_lookup_digest(kvs_view(digests@), k) == Some(d@),
            None => spec_lookup_digest(kvs_view(digests@), k) is None,
        },
{
    let ghost ds = kvs_view(digests@);
    let mut i: usize = digests.len();
    assert(ds.take(i as int) =~= ds);
    while i > 0
        invariant
            i <= digests.len(),
            ds == kvs_view(digests@),
            spec_lookup_digest(ds, k) == spec_lookup_digest(ds.take(i as int), k),
        decreases i,
    {
        i = i - 1;
        assert(ds.take(i + 1).last() == ds[i as int]);
        assert(ds.take(i + 1).drop_last() =~= ds.take(i as int));
        if digests[i].0 == k {
            let d = copy_range(digests[i].1.as_slice(), 0, digests[i].1.len());
            assert(d@ =~= ds[i as int].1);
            return Some(d);
        }
    }
    assert(ds.take(0).len() == 0);
    None
}

/// Assembles signatures from the (algorithm id, raw) entries against the
/// sibling digest entries. Entries whose inner length prefix overruns,
/// whose algorithm id is unknown, or which have no digest under the same
/// id are dropped, never an error.
pub fn parse_sigs(signatures: &Vec<(u32, Vec<u8>)>, digests: &Vec<(u32, Vec<u8>)>) -> (r: Vec<
    ApkSignature,
>)
    ensures
        sigs_view(r@) == spec_parse_sigs(kvs_view(signatures@), kvs_view(digests@)),
{
    let ghost ss = kvs_view(signatures@);
    let ghost ds = kvs_view(digests@);
    let mut out: Vec<ApkSignature> = Vec::new();
    let mut i: usize = 0;
    assert(ss.skip(0) =~= ss);
    assert(sigs_view(out@) + spec_parse_sigs(ss, ds) =~= spec_parse_sigs(ss, ds));
    while i < signatures.len()
        invariant
            i <= signatures.len(),
            ss == kvs_view(signatures@),
            ds == kvs_view(digests@),
            spec_parse_sigs(ss, ds) == sigs_view(out@) + spec_parse_sigs(ss.skip(i as int), ds),
        decreases signatures@.len() - i,
    {
        let k = signatures[i].0;
        let v = &signatures[i].1;
        assert(ss.skip(i as int)[0] == (k, v@));
        let ghost prev = out@;
        if v.len() >= 4 {
            let sig_len = read_le32(v.as_slice(), 0) as usize;
            if sig_len <= v.len() - 4 {
                if let Some(algo) = ApkSignatureAlgo::try_from(k) {
                    if let Some(d) = lookup_digest(digests, k) {
                        if d.len() >= 4 {
                            let digest = copy_range(d.as_slice(), 4, d.len());
                            let signature = copy_range(v.as_slice(), 4, 4 + sig_len);
                            assert(digest@ =~= d@.skip(4));
                            out.push(ApkSignature { algo, signature, digest });
                        }
                    }
                }
            }
        }
        proof {
            let headsig = spec_sig_of(k, v@, ds);
            if out@.len() > prev.len() {
                assert(sigs_view(out@) =~= sigs_view(prev) + seq![out@.last()@]);
                assert(seq![out@.last()@] + spec_parse_sigs(ss.skip(i + 1), ds) =~= seq![
                    headsig->Some_0,
                ] + spec_parse_sigs(ss.skip(i + 1), ds));
                assert((sigs_view(prev) + seq![out@.last()@]) + spec_parse_sigs(ss.skip(i + 1), ds)
                    =~= sigs_view(prev) + (seq![out@.last()@] + spec_parse_sigs(ss.skip(i + 1), ds)));
            }
            assert(ss.skip(i as int).skip(1) =~= ss.skip(i + 1));
        }
        i = i + 1;
    }
    proof {
        assert(ss.skip(i as int).len() == 0);
        assert(sigs_view(out@) + spec_parse_sigs(ss.skip(i as int), ds) =~= sigs_view(out@));
    }
    out
}

/// What decoding a scheme V2 block entry value yields: the redundant
/// nested length layers are stripped, the payload must be a 3-element
/// sequence [signed-data, signatures, public-key], and signed-data a
/// sequence whose first three elements are digests (key/value), then
/// certificates, then attributes (key/value).
pub open spec fn spec_decode_v2(v: Seq<u8>) -> Result<BlockModel, ApkError> {
    match spec_remove_prefix_layers(v) {
        None => Err(ApkError::TruncatedOrOversized),
        Some(w) => match spec_lv_seq(w) {
            None => Err(ApkError::TruncatedOrOversized),
            Some(outer) => {
                if outer.len() != 3 {
                    Err(ApkError::MalformedContainer)
                } else {
                    match spec_lv_seq(outer[0]) {
                        None => Err(ApkError::TruncatedOrOversized),
                        Some(sd) => {
                            if sd.len() < 3 {
                                Err(ApkError::MalformedContainer)
                            } else {
                                match (spec_kv_seq(sd[0]), spec_lv_seq(sd[1]), spec_kv_seq(sd[2]),
                                spec_kv_seq(outer[1])) {
                                    (Some(digests), Some(certs), Some(attrs), Some(sigs)) => Ok(
                                        BlockModel::V2 {
                                            signatures: spec_parse_sigs(sigs, digests),
                                            public_key: outer[2],
                                            certificates: certs,
                                            attributes: attrs,
                                        },
                                    ),
                                    _ => Err(ApkError::TruncatedOrOversized),
                                }
                            }
                        },
                    }
                }
            },
        },
    }
}

/// The outer structure of a scheme V3 block entry value, decoded down to
/// the point where the two SDK pairs can be read: the payload slice, the
/// signed-data slice, the offset past signed-data within the payload, the
/// offset of the signed SDK pair within signed-data, and the decoded
/// digests and certificates. Nothing when any layer up to there is
/// truncated.
pub open spec fn spec_v3_frame(v: Seq<u8>) -> Option<
    (Seq<u8>, Seq<u8>, int, int, Seq<(u32, Seq<u8>)>, Seq<Seq<u8>>),
> {
    if v.len() < 4 {
        None
    } else {
        let s = v.skip(4);
        if !spec_lv_ok(s, 0) {
            None
        } else {
            let v3b = spec_lv_value(s, 0);
            if !spec_lv_ok(v3b, 0) {
                None
            } else {
                let sd = spec_lv_value(v3b, 0);
                let q1 = spec_lv_end(v3b, 0);
                if !spec_lv_ok(sd, 0) {
                    None
                } else {
                    match spec_kv_seq(spec_lv_value(sd, 0)) {
                        None => None,
                        Some(digests) => {
                            let p1 = spec_lv_end(sd, 0);
                            if !spec_lv_ok(sd, p1) {
                                None
                            } else {
                                match spec_lv_seq(spec_lv_value(sd, p1)) {
                                    None => None,
                                    Some(certs) => {
                                        let p2 = spec_lv_end(sd, p1);
                                        if sd.len() - p2 < 8 {
                                            None
                                        } else {
                                            Some((v3b, sd, q1, p2, digests, certs))
                                        }
                                    },
                                }
                            }
                        },
                    }
                }
            }
        }
    }
}

/// What decoding a scheme V3 block entry value yields. The payload nests
/// as [signed-data, min_sdk, max_sdk, signatures, public-key], with
/// signed-data = [digests, certificates, min_sdk, max_sdk, attributes];
/// the SDK pair is recorded twice and both copies must agree, else the
/// decode fails with the cross-check mismatch.
pub open spec fn spec_decode_v3(v: Seq<u8>) -> Result<BlockModel, ApkError> {
    match spec_v3_frame(v) {
        None => Err(ApkError::TruncatedOrOversized),
        Some((v3b, sd, q1, p2, digests, certs)) => spec_decode_v3_inner(
            v3b,
            sd,
            q1,
            p2,
            digests,
            certs,
        ),
    }
}

/// The tail of the V3 decode, past the certificate sequence: the
/// signed-data SDK pair, the attributes, the outer SDK pair, the
/// cross-check of the two pairs, the signatures, and the public key.
pub open spec fn spec_decode_v3_inner(
    v3b: Seq<u8>,
    sd: Seq<u8>,
    q1: int,
    p2: int,
    digests: Seq<(u32, Seq<u8>)>,
    certs: Seq<Seq<u8>>,
) -> Result<BlockModel, ApkError> {
    let min_sdk_signed = le32_at(sd, p2);
    let max_sdk_signed = le32_at(sd, p2 + 4);
    if !spec_lv_ok(sd, p2 + 8) {
        Err(ApkError::TruncatedOrOversized)
    } else {
        match spec_kv_seq(spec_lv_value(sd, p2 + 8)) {
            None => Err(ApkError::TruncatedOrOversized),
            Some(attrs) => {
                if v3b.len() - q1 < 8 {
                    Err(ApkError::TruncatedOrOversized)
                } else {
                    let min_sdk = le32_at(v3b, q1);
                    let max_sdk = le32_at(v3b, q1 + 4);
                    if min_sdk_signed != min_sdk || max_sdk_signed != max_sdk {
                        Err(ApkError::SignedSdkMismatch)
                    } else if !spec_lv_ok(v3b, q1 + 8) {
                        Err(ApkError::TruncatedOrOversized)
                    } else {
                        match spec_kv_seq(spec_lv_value(v3b, q1 + 8)) {
                            None => Err(ApkError::TruncatedOrOversized),
                            Some(sigs) => {
                                let q2 = spec_lv_end(v3b, q1 + 8);
                                if !spec_lv_ok(v3b, q2) {
                                    Err(ApkError::TruncatedOrOversized)
                                } else {
                                    Ok(
                                        BlockModel::V3 {
                                            signatures: spec_parse_sigs(sigs, digests),
                                            certificates: certs,
                                            public_key: spec_lv_value(v3b, q2),
                                            attributes: attrs,
                                            min_sdk,
                                            max_sdk,
                                        },
                                    )
                                }
                            },
                        }
                    }
                }
            },
        }
    }
}

fn decode_v2(v: &[u8]) -> (r: Result<ApkSignatureBlock, ApkError>)
    ensures
        match r {
            Ok(b) => spec_decode_v2(v@) == Ok::<_, ApkError>(b@),
            Err(e) => spec_decode_v2(v@) == Err::<BlockModel, _>(e),
        },
{
    let w = match remove_prefix_layers(v) {
        Ok(w) => w,
        Err(e) => {
            return Err(e);
        },
    };
    let outer = match get_lv_sequence(w.as_slice()) {
        Ok(o) => o,
        Err(e) => {
            return Err(e);
        },
    };
    if outer.len() != 3 {
        return Err(ApkError::MalformedContainer);
    }
    let sd = match get_lv_sequence(outer[0].as_slice()) {
        Ok(s) => s,
        Err(e) => {
            return Err(e);
        },
    };
    if sd.len() < 3 {
        return Err(ApkError::MalformedContainer);
    }
    let digests = match get_sequence_kv(sd[0].as_slice()) {
        Ok(d) => d,
        Err(e) => {
            return Err(e);
        },
    };
    let certificates = match get_lv_sequence(sd[1].as_slice()) {
        Ok(c) => c,
        Err(e) => {
            return Err(e);
        },
    };
    let attributes = match get_sequence_kv(sd[2].as_slice()) {
        Ok(a) => a,
        Err(e) => {
            return Err(e);
        },
    };
    let signatures = match get_sequence_kv(outer[1].as_slice()) {
        Ok(s) => s,
        Err(e) => {
            return Err(e);
        },
    };
    let public_key = copy_range(outer[2].as_slice(), 0, outer[2].len());
    assert(public_key@ =~= seqs_view(outer@)[2]);
    let sigs = parse_sigs(&signatures, &digests);
    Ok(ApkSignatureBlock::V2 { signatures: sigs, public_key, certificates, attributes })
}

fn decode_v3(v: &[u8]) -> (r: Result<ApkSignatureBlock, ApkError>)
    ensures
        match r {
            Ok(b) => spec_decode_v3(v@) == Ok::<_, ApkError>(b@),
            Err(e) => spec_decode_v3(v@) == Err::<BlockModel, _>(e),
        },
{
    if v.len() < 4 {
        return Err(ApkError::TruncatedOrOversized);
    }
    let s = copy_range(v, 4, v.len());
    assert(s@ =~= v@.skip(4));
    let (v3b, _) = match take_lv_u32(s.as_slice(), 0) {
        Ok(t) => t,
        Err(e) => {
            return Err(e);
        },
    };
    let (sd, q1) = match take_lv_u32(v3b.as_slice(), 0) {
        Ok(t) => t,
        Err(e) => {
            return Err(e);
        },
    };
    let (digests_raw, p1) = match take_lv_u32(sd.as_slice(), 0) {
        Ok(t) => t,
        Err(e) => {
            return Err(e);
        },
    };
    let digests = match get_sequence_kv(digests_raw.as_slice()) {
        Ok(d) => d,
        Err(e) => {
            return Err(e);
        },
    };
    let (certs_raw, p2) = match take_lv_u32(sd.as_slice(), p1) {
        Ok(t) => t,
        Err(e) => {
            return Err(e);
        },
    };
    let certificates = match get_lv_sequence(certs_raw.as_slice()) {
        Ok(c) => c,
        Err(e) => {
            return Err(e);
        },
    };
    if sd.len() - p2 < 8 {
        return Err(ApkError::TruncatedOrOversized);
    }
    let min_sdk_signed = read_le32(sd.as_slice(), p2);
    let max_sdk_signed = read_le32(sd.as_slice(), p2 + 4);
    let (attrs_raw, _) = match take_lv_u32(sd.as_slice(), p2 + 8) {
        Ok(t) => t,
        Err(e) => {
            return Err(e);
        },
    };
    let attributes = match get_sequence_kv(attrs_raw.as_slice()) {
        Ok(a) => a,
        Err(e) => {
            return Err(e);
        },
    };
    if v3b.len() - q1 < 8 {
        return Err(ApkError::TruncatedOrOversized);
    }
    let min_sdk = read_le32(v3b.as_slice(), q1);
    let max_sdk = read_le32(v3b.as_slice(), q1 + 4);
    if min_sdk_signed != min_sdk || max_sdk_signed != max_sdk {
        return Err(ApkError::SignedSdkMismatch);
    }
    let (sigs_raw, q2) = match take_lv_u32(v3b.as_slice(), q1 + 8) {
        Ok(t) => t,
        Err(e) => {
            return Err(e);
        },
    };
    let signatures = match get_sequence_kv(sigs_raw.as_slice()) {
        Ok(s2) => s2,
        Err(e) => {
            return Err(e);
        },
    };
    let (public_key, _) = match take_lv_u32(v3b.as_slice(), q2) {
        Ok(t) => t,
        Err(e) => {
            return Err(e);
        },
    };
    let sigs = parse_sigs(&signatures, &digests);
    Ok(
        ApkSignatureBlock::V3 {
            signatures: sigs,
            certificates,
            public_key,
            attributes,
            min_sdk,
            max_sdk,
        },
    )
}

/// What decoding the (id, value) entries of a signing block yields: one
/// decoded scheme per entry with the V2 or V3 id, in order; entries with
/// any other id are dropped; a fatal failure in any recognized entry
/// aborts the whole decode.
pub open spec fn spec_get_signatures(entries: Seq<(u32, Seq<u8>)>) -> Result<
    Seq<BlockModel>,
    ApkError,
>
    decreases entries.len(),
{
    if entries.len() == 0 {
        Ok(Seq::empty())
    } else {
        let k = entries[0].0;
        let v = entries[0].1;
        if k == V2_SIG_BLOCK_ID {
            match spec_decode_v2(v) {
                Err(e) => Err(e),
                Ok(b) => match spec_get_signatures(entries.skip(1)) {
                    Err(e) => Err(e),
                    Ok(t) => Ok(seq![b] + t),
                },
            }
        } else if k == V3_SIG_BLOCK_ID {
            match spec_decode_v3(v) {
                Err(e) => Err(e),
                Ok(b) => match spec_get_signatures(entries.skip(1)) {
                    Err(e) => Err(e),
                    Ok(t) => Ok(seq![b] + t),
                },
            }
        } else {
            spec_get_signatures(entries.skip(1))
        }
    }
}

impl ApkSigningBlock {
    /// Decodes the block's entries into signing schemes: entries with the
    /// V2 or V3 id are decoded in order; all other ids are ignored.
    pub fn get_signatures(&self) -> (r: Result<Vec<ApkSignatureBlock>, ApkError>)
        ensures
            match r {
                Ok(blocks) => spec_get_signatures(kvs_view(self.data@)) == Ok::<_, ApkError>(
                    blocks_view(blocks@),
                ),
                Err(e) => spec_get_signatures(kvs_view(self.data@)) == Err::<Seq<BlockModel>, _>(e),
            },
    {
        let ghost es = kvs_view(self.data@);
        let mut sigs: Vec<ApkSignatureBlock> = Vec::new();
        let mut i: usize = 0;
        proof {
            assert(es.skip(0) =~= es);
            if spec_get_signatures(es) is Ok {
                assert(blocks_view(sigs@) + spec_get_signatures(es)->Ok_0 =~= spec_get_signatures(
                    es,
                )->Ok_0);
            }
        }
        while i < self.data.len()
            invariant
                i <= self.data@.len(),
                es == kvs_view(self.data@),
                match spec_get_signatures(es.skip(i as int)) {
                    Ok(t) => spec_get_signatures(es) == Ok::<_, ApkError>(blocks_view(sigs@) + t),
                    Err(e) => spec_get_signatures(es) == Err::<Seq<BlockModel>, _>(e),
                },
            decreases self.data@.len() - i,
        {
            let k = self.data[i].0;
            let v = &self.data[i].1;
            assert(es.skip(i as int)[0] == (k, v@));
            let ghost prev = sigs@;
            if k == V2_SIG_BLOCK_ID {
                match decode_v2(v.as_slice()) {
                    Ok(b) => {
                        sigs.push(b);
                    },
                    Err(e) => {
                        return Err(e);
                    },
                }
            } else if k == V3_SIG_BLOCK_ID {
                match decode_v3(v.as_slice()) {
                    Ok(b) => {
                        sigs.push(b);
                    },
                    Err(e) => {
                        return Err(e);
                    },
                }
            }
            proof {
                if sigs@.len() > prev.len() {
                    assert(blocks_view(sigs@) =~= blocks_view(prev) + seq![sigs@.last()@]);
                    if spec_get_signatures(es.skip(i + 1)) is Ok {
                        let t = spec_get_signatures(es.skip(i + 1))->Ok_0;
                        assert((blocks_view(prev) + seq![sigs@.last()@]) + t =~= blocks_view(prev)
                            + (seq![sigs@.last()@] + t));
                    }
                }
                assert(es.skip(i as int).skip(1) =~= es.skip(i + 1));
            }
            i = i + 1;
        }
        proof {
            assert(es.skip(i as int).len() == 0);
            assert(blocks_view(sigs@) + spec_get_signatures(es.skip(i as int))->Ok_0 =~= blocks_view(
                sigs@,
            ));
        }
        Ok(sigs)
    }
}

// ------------------------------------------------------------------
// Rendering
// ------------------------------------------------------------------

/// The UTF-8 bytes of an algorithm's display name.
pub open spec fn spec_algo_name_bytes(a: ApkSignatureAlgo) -> Seq<u8> {
    vstd::utf8::encode_utf8(a.spec_name())
}

/// The rendered text of one signature: its algorithm name and its digest
/// and signature bytes in lowercase hex.
pub open spec fn spec_render_sig(m: SigModel) -> Seq<u8> {
    "algo=".spec_bytes() + spec_algo_name_bytes(m.algo) + ", digest=".spec_bytes() + spec_hex(
        m.digest,
    ) + ", sig=".spec_bytes() + spec_hex(m.signature)
}

/// The concatenated rendered text of a sequence of signatures.
pub open spec fn spec_render_sigs(ms: Seq<SigModel>) -> Seq<u8>
    decreases ms.len(),
{
    if ms.len() == 0 {
        Seq::empty()
    } else {
        spec_render_sig(ms[0]) + spec_render_sigs(ms.skip(1))
    }
}

/// The rendered text of one decoded scheme: its scheme label and its
/// signatures.
pub open spec fn spec_render_block(b: BlockModel) -> Seq<u8> {
    match b {
        BlockModel::Unknown { .. } => "unknown".spec_bytes(),
        BlockModel::V2 { signatures, .. } => "v2: ".spec_bytes() + spec_render_sigs(signatures),
        BlockModel::V3 { signatures, .. } => "V3: ".spec_bytes() + spec_render_sigs(signatures),
    }
}

fn render_sig(s: &ApkSignature) -> (r: Vec<u8>)
    ensures
        r@ == spec_render_sig(s@),
{
    let mut out = slice_to_vec("algo=".as_bytes());
    let mut part = slice_to_vec(s.algo.name().as_bytes());
    out.append(&mut part);
    let mut part = slice_to_vec(", digest=".as_bytes());
    out.append(&mut part);
    let mut part = hex_encode(s.digest.as_slice());
    out.append(&mut part);
    let mut part = slice_to_vec(", sig=".as_bytes());
    out.append(&mut part);
    let mut part = hex_encode(s.signature.as_slice());
    out.append(&mut part);
    assert(out@ =~= spec_render_sig(s@));
    out
}

fn render_sigs(sigs: &Vec<ApkSignature>) -> (r: Vec<u8>)
    ensures
        r@ == spec_render_sigs(sigs_view(sigs@)),
{
    let ghost ms = sigs_view(sigs@);
    let mut out: Vec<u8> = Vec::new();
    let mut i: usize = 0;
    assert(ms.skip(0) =~= ms);
    assert(out@ + spec_render_sigs(ms) =~= spec_render_sigs(ms));
    while i < sigs.len()
        invariant
            i <= sigs@.len(),
            ms == sigs_view(sigs@),
            spec_render_sigs(ms) == out@ + spec_render_sigs(ms.skip(i as int)),
        decreases sigs@.len() - i,
    {
        assert(ms.skip(i as int)[0] == ms[i as int]);
        let ghost prev = out@;
        let mut part = render_sig(&sigs[i]);
        out.append(&mut part);
        proof {
            assert(ms.skip(i as int).skip(1) =~= ms.skip(i + 1));
            assert((prev + spec_render_sig(ms[i as int])) + spec_render_sigs(ms.skip(i + 1)) =~= prev
                + (spec_render_sig(ms[i as int]) + spec_render_sigs(ms.skip(i + 1))));
        }
        i = i + 1;
    }
    assert(ms.skip(i as int).len() == 0);
    assert(out@ + spec_render_sigs(ms.skip(i as int)) =~= out@);
    out
}

impl ApkSignatureBlock {
    /// Renders the scheme for display: its label and each signature's
    /// algorithm, digest and signature bytes in lowercase hex, as UTF-8
    /// text.
    pub fn render(&self) -> (r: Vec<u8>)
        ensures
            r@ == spec_render_block(self@),
    {
        match self {
            ApkSignatureBlock::Unknown { .. } => slice_to_vec("unknown".as_bytes()),
            ApkSignatureBlock::V2 { signatures, .. } => {
                let mut out = slice_to_vec("v2: ".as_bytes());
                let mut tail = render_sigs(signatures);
                out.append(&mut tail);
                out
            },
            ApkSignatureBlock::V3 { signatures, .. } => {
                let mut out = slice_to_vec("V3: ".as_bytes());
                let mut tail = render_sigs(signatures);
                out.append(&mut tail);
                out
            },
        }
    }
}

// ------------------------------------------------------------------
// Laws
// ------------------------------------------------------------------

/// The locator reports that no signing block exists exactly when no
/// candidate offset in the backward scan carries the trailer magic; in
/// particular, a source without the magic anywhere yields that failure
/// and no block.
pub proof fn lemma_locator_not_found_iff_no_magic(s: Seq<u8>)
    ensures
        spec_locate(s) == Err::<(u64, Seq<(u32, Seq<u8>)>), ApkError>(
            ApkError::SigningBlockNotFound,
        ) <==> spec_find_magic(s, s.len() - 17) is None,
        (forall|p: int| !magic_at(s, p)) ==> spec_locate(s) == Err::<
            (u64, Seq<(u32, Seq<u8>)>),
            ApkError,
        >(ApkError::SigningBlockNotFound),
{
    if forall|p: int| !magic_at(s, p) {
        lemma_no_magic_finds_none(s, s.len() - 17);
    }
    if spec_find_magic(s, s.len() - 17) is Some {
        lemma_find_magic_props(s, s.len() - 17);
    }
}

proof fn lemma_no_magic_finds_none(s: Seq<u8>, pos: int)
    requires
        forall|p: int| !magic_at(s, p),
    ensures
        spec_find_magic(s, pos) is None,
    decreases pos,
{
    if pos > 16 {
        lemma_no_magic_finds_none(s, pos - 1);
    }
}

/// Around a found trailer magic, the locator fails with the inconsistent
/// block size failure exactly when the two redundant size fields can both
/// be read and disagree, and it then returns no block.
pub proof fn lemma_locator_inconsistent_sizes(s: Seq<u8>)
    requires
        spec_find_magic(s, s.len() - 17) is Some,
    ensures
        ({
            let pos = spec_find_magic(s, s.len() - 17)->Some_0;
            let size1 = le64_at(s, pos - 8);
            let size2 = le64_at(s, pos + 8 - size1 as int);
            (size1 as int <= s.len() && pos + 8 - (size1 as int) >= 0 && size1 != size2)
                <==> spec_locate(s) == Err::<(u64, Seq<(u32, Seq<u8>)>), ApkError>(
                ApkError::InconsistentBlockSize { size1, size2 },
            )
        }),
{
}

/// The wire size of decoded block entries: each entry occupies its 8-byte
/// length field plus the declared length (the 4-byte id and the value).
pub open spec fn spec_entries_size(es: Seq<(u32, Seq<u8>)>) -> int
    decreases es.len(),
{
    if es.len() == 0 {
        0
    } else {
        12 + es[0].1.len() + spec_entries_size(es.skip(1))
    }
}

proof fn lemma_parse_entries_exact(s: Seq<u8>, pos: int, remaining: int)
    requires
        0 <= pos,
        pos + remaining <= s.len(),
        spec_parse_entries(s, pos, remaining) is Some,
    ensures
        spec_entries_size(spec_parse_entries(s, pos, remaining)->Some_0) == remaining,
    decreases remaining,
{
    if remaining == 0 {
    } else {
        let kv_len = le64_at(s, pos) as int;
        let tail = spec_parse_entries(s, pos + 8 + kv_len, remaining - 8 - kv_len);
        lemma_parse_entries_exact(s, pos + 8 + kv_len, remaining - 8 - kv_len);
        let es = spec_parse_entries(s, pos, remaining)->Some_0;
        assert(es.skip(1) =~= tail->Some_0);
        assert(es[0].1.len() == kv_len - 4);
    }
}

/// Exact accounting of the block body: summed entry sizes of a
/// successfully located block equal the declared body length (the block
/// size less the trailing size field and magic and its own leading size
/// field) exactly; a body whose running remainder does not land on zero
/// is refused with a failure classified as a malformed container.
pub proof fn lemma_block_body_exactly_consumed(s: Seq<u8>)
    ensures
        spec_locate(s) is Ok ==> spec_entries_size(spec_locate(s)->Ok_0.1) == spec_locate(
            s,
        )->Ok_0.0 as int - 24,
        ApkError::TruncatedSigningBlock.spec_is_malformed_container(),
{
    if spec_locate(s) is Ok {
        lemma_find_magic_props(s, s.len() - 17);
        let pos = spec_find_magic(s, s.len() - 17)->Some_0;
        let size1 = le64_at(s, pos - 8);
        lemma_parse_entries_exact(s, pos + 16 - size1 as int, size1 as int - 24);
    }
}

/// One signatures entry is eligible exactly when its inner length prefix
/// fits, its algorithm id is in the closed registry, and a digest entry
/// under the same id exists (with room for its own length prefix).
pub proof fn lemma_sig_eligibility(k: u32, v: Seq<u8>, digests: Seq<(u32, Seq<u8>)>)
    ensures
        spec_sig_of(k, v, digests) is Some <==> {
            &&& v.len() >= 4
            &&& le32_at(v, 0) as int <= v.len() - 4
            &&& spec_algo_of(k) is Some
            &&& spec_lookup_digest(digests, k) is Some
            &&& spec_lookup_digest(digests, k)->Some_0.len() >= 4
        },
{
}

/// Every eligible signatures entry appears in the assembled output: the
/// signature built from it is present.
pub proof fn lemma_parse_sigs_complete(
    sigs: Seq<(u32, Seq<u8>)>,
    digests: Seq<(u32, Seq<u8>)>,
    i: int,
)
    requires
        0 <= i < sigs.len(),
        spec_sig_of(sigs[i].0, sigs[i].1, digests) is Some,
    ensures
        spec_parse_sigs(sigs, digests).contains(spec_sig_of(sigs[i].0, sigs[i].1, digests)->Some_0),
    decreases sigs.len(),
{
    let out = spec_parse_sigs(sigs, digests);
    let rest = spec_parse_sigs(sigs.skip(1), digests);
    if i == 0 {
        let m = spec_sig_of(sigs[0].0, sigs[0].1, digests)->Some_0;
        assert(out[0] == m);
        assert(out.contains(m));
    } else {
        lemma_parse_sigs_complete(sigs.skip(1), digests, i - 1);
        let m = spec_sig_of(sigs[i].0, sigs[i].1, digests)->Some_0;
        let j = choose|j: int| 0 <= j < rest.len() && rest[j] == m;
        match spec_sig_of(sigs[0].0, sigs[0].1, digests) {
            None => {
                assert(out.contains(m));
            },
            Some(_) => {
                assert(out[j + 1] == m);
                assert(out.contains(m));
            },
        }
    }
}

/// Nothing else appears in the assembled output: every signature in it
/// was built from some eligible signatures entry.
pub proof fn lemma_parse_sigs_sound(
    sigs: Seq<(u32, Seq<u8>)>,
    digests: Seq<(u32, Seq<u8>)>,
    m: SigModel,
)
    requires
        spec_parse_sigs(sigs, digests).contains(m),
    ensures
        exists|i: int|
            0 <= i < sigs.len() && spec_sig_of(#[trigger] sigs[i].0, sigs[i].1, digests) == Some(m),
    decreases sigs.len(),
{
    let out = spec_parse_sigs(sigs, digests);
    let rest = spec_parse_sigs(sigs.skip(1), digests);
    let j = choose|j: int| 0 <= j < out.len() && out[j] == m;
    match spec_sig_of(sigs[0].0, sigs[0].1, digests) {
        None => {
            lemma_parse_sigs_sound(sigs.skip(1), digests, m);
            let i = choose|i: int|
                0 <= i < sigs.skip(1).len() && spec_sig_of(
                    #[trigger] sigs.skip(1)[i].0,
                    sigs.skip(1)[i].1,
                    digests,
                ) == Some(m);
            assert(sigs.skip(1)[i] == sigs[i + 1]);
            assert(spec_sig_of(sigs[i + 1].0, sigs[i + 1].1, digests) == Some(m));
        },
        Some(m0) => {
            if j == 0 {
                assert(spec_sig_of(sigs[0].0, sigs[0].1, digests) == Some(m));
            } else {
                assert(rest[j - 1] == m);
                assert(rest.contains(m));
                lemma_parse_sigs_sound(sigs.skip(1), digests, m);
                let i = choose|i: int|
                    0 <= i < sigs.skip(1).len() && spec_sig_of(
                        #[trigger] sigs.skip(1)[i].0,
                        sigs.skip(1)[i].1,
                        digests,
                    ) == Some(m);
                assert(sigs.skip(1)[i] == sigs[i + 1]);
                assert(spec_sig_of(sigs[i + 1].0, sigs[i + 1].1, digests) == Some(m));
            }
        },
    }
}

/// The V3 decode reaches the SDK cross-check: every layer down to the two
/// SDK pairs and the attributes decodes.
pub open spec fn spec_v3_reaches_sdk_check(v: Seq<u8>) -> bool {
    match spec_v3_frame(v) {
        None => false,
        Some((v3b, sd, q1, p2, digests, certs)) => {
            &&& spec_lv_ok(sd, p2 + 8)
            &&& spec_kv_seq(spec_lv_value(sd, p2 + 8)) is Some
            &&& v3b.len() - q1 >= 8
        },
    }
}

/// The signed-data copy of the V3 SDK pair.
pub open spec fn spec_v3_signed_pair(v: Seq<u8>) -> (u32, u32)
    recommends
        spec_v3_frame(v) is Some,
{
    let (v3b, sd, q1, p2, digests, certs) = spec_v3_frame(v)->Some_0;
    (le32_at(sd, p2), le32_at(sd, p2 + 4))
}

/// The outer copy of the V3 SDK pair.
pub open spec fn spec_v3_outer_pair(v: Seq<u8>) -> (u32, u32)
    recommends
        spec_v3_frame(v) is Some,
{
    let (v3b, sd, q1, p2, digests, certs) = spec_v3_frame(v)->Some_0;
    (le32_at(v3b, q1), le32_at(v3b, q1 + 4))
}

/// The V3 cross-check: a decode that reaches the check fails with the
/// SDK mismatch exactly when the outer and signed-data pairs differ; the
/// mismatch arises nowhere else; and a successful decode reports the pair
/// both copies agree on, including when its two components are equal.
pub proof fn lemma_v3_sdk_cross_check(v: Seq<u8>)
    ensures
        spec_v3_reaches_sdk_check(v) ==> (spec_decode_v3(v) == Err::<BlockModel, ApkError>(
            ApkError::SignedSdkMismatch,
        ) <==> spec_v3_signed_pair(v) != spec_v3_outer_pair(v)),
        spec_decode_v3(v) == Err::<BlockModel, ApkError>(ApkError::SignedSdkMismatch)
            ==> spec_v3_reaches_sdk_check(v),
        spec_decode_v3(v) is Ok ==> {
            &&& spec_v3_signed_pair(v) == spec_v3_outer_pair(v)
            &&& spec_decode_v3(v)->Ok_0 matches BlockModel::V3 { min_sdk, max_sdk, .. }
                && (min_sdk, max_sdk) == spec_v3_outer_pair(v)
        },
{
}

} // verus!
