//! Decoder for Android's compiled binary XML ("AXML") chunk stream.
//!
//! A document is a stream of typed chunks. Every chunk begins with a
//! 2-byte type tag, a 2-byte header size and a 4-byte total size, all
//! little-endian; the parser reads exactly the total size whether or not
//! every sub-field is interpreted. Recognized chunks decode into the
//! shapes below; resource-table chunks are preserved as opaque blocks;
//! chunks of any other type are skipped wholesale using their declared
//! size. String pools hold their strings as UTF-8 bytes; pools stored as
//! UTF-16 are transcoded.

use vstd::prelude::*;
use crate::errors::AxmlError;
use crate::tlv::{le16_at, le32_at, read_le16, read_le32, copy_range, seqs_view};

verus! {

broadcast use
    vstd::slice::axiom_spec_len,
    vstd::std_specs::vec::axiom_vec_index_decreases,
    vstd::std_specs::vec::axiom_vec_decreases_to_view,
    vstd::seq::axiom_seq_index_decreases;

/// Chunk type tag of a string pool.
pub const CHUNK_STRING_POOL: u16 = 0x0001;

/// Chunk type tag of an XML document.
pub const CHUNK_XML: u16 = 0x0003;

/// Chunk type tag of a namespace start.
pub const CHUNK_XML_START_NAMESPACE: u16 = 0x0100;

/// Chunk type tag of a namespace end.
pub const CHUNK_XML_END_NAMESPACE: u16 = 0x0101;

/// Chunk type tag of an element start.
pub const CHUNK_XML_START_ELEMENT: u16 = 0x0102;

/// Chunk type tag of an element end.
pub const CHUNK_XML_END_ELEMENT: u16 = 0x0103;

/// Chunk type tag of a resource map.
pub const CHUNK_XML_RESOURCE_MAP: u16 = 0x0180;

/// Chunk type tag of a resource-table package.
pub const CHUNK_TABLE_PACKAGE: u16 = 0x0200;

/// Chunk type tag of a resource-table type.
pub const CHUNK_TABLE_TYPE: u16 = 0x0201;

/// Chunk type tag of a resource-table type spec.
pub const CHUNK_TABLE_TYPE_SPEC: u16 = 0x0202;

/// The string-pool flag bit that marks UTF-8 string data.
pub const POOL_UTF8_FLAG: u32 = 0x100;

/// An attribute's typed value: a type tag and the raw 32-bit payload.
#[derive(Debug, Clone, Copy, PartialEq, Eq, Structural)]
pub struct TypedValue {
    pub size: u16,
    pub res0: u8,
    pub data_type: u8,
    pub data: i32,
}

/// One attribute of an element: every name is an index into the document
/// string pool.
#[derive(Debug, Clone, Copy, PartialEq, Eq, Structural)]
pub struct Attribute {
    pub namespace: i32,
    pub name: i32,
    pub raw_value: i32,
    pub typed_value: TypedValue,
}

/// The name of an element, as string-pool indexes.
#[derive(Debug, Clone, Copy, PartialEq, Eq, Structural)]
pub struct Element {
    pub namespace: i32,
    pub name: i32,
}

/// One decoded chunk. The XML chunk owns its children outright; the
/// stream is forward-only, so the tree is built bottom-up in one scan.
#[derive(Debug)]
pub enum Chunk {
    /// The document string pool: its strings as UTF-8 bytes, in pool
    /// order, and the raw pool flags.
    StringPool { strings: Vec<Vec<u8>>, flags: u32 },
    /// An XML document chunk holding child chunks in document order.
    Xml { children: Vec<Chunk> },
    XmlStartNamespace { line: u32, prefix: i32, uri: i32 },
    XmlEndNamespace { line: u32, prefix: i32, uri: i32 },
    XmlStartElement { line: u32, element: Element, attributes: Vec<Attribute> },
    XmlEndElement { line: u32, namespace: i32, name: i32 },
    XmlResourceMap { ids: Vec<u32> },
    /// A resource-table package chunk, kept as an opaque block.
    TablePackage { body: Vec<u8> },
    /// A resource-table type chunk, kept as an opaque block.
    TableType { body: Vec<u8> },
    /// A resource-table type-spec chunk, kept as an opaque block.
    TableTypeSpec { body: Vec<u8> },
}

/// Mathematical model of one decoded chunk.
pub ghost enum ChunkModel {
    StringPool { strings: Seq<Seq<u8>>, flags: u32 },
    Xml { children: Seq<ChunkModel> },
    XmlStartNamespace { line: u32, prefix: i32, uri: i32 },
    XmlEndNamespace { line: u32, prefix: i32, uri: i32 },
    XmlStartElement { line: u32, element: Element, attributes: Seq<Attribute> },
    XmlEndElement { line: u32, namespace: i32, name: i32 },
    XmlResourceMap { ids: Seq<u32> },
    TablePackage { body: Seq<u8> },
    TableType { body: Seq<u8> },
    TableTypeSpec { body: Seq<u8> },
}

/// The model of one decoded chunk.
pub open spec fn chunk_model(c: Chunk) -> ChunkModel
    decreases c,
{
    match c {
        Chunk::StringPool { strings, flags } => ChunkModel::StringPool {
            strings: seqs_view(strings@),
            flags,
        },
        Chunk::Xml { children } => ChunkModel::Xml { children: chunks_view(children@) },
        Chunk::XmlStartNamespace { line, prefix, uri } => ChunkModel::XmlStartNamespace {
            line,
            prefix,
            uri,
        },
        Chunk::XmlEndNamespace { line, prefix, uri } => ChunkModel::XmlEndNamespace {
            line,
            prefix,
            uri,
        },
        Chunk::XmlStartElement { line, element, attributes } => ChunkModel::XmlStartElement {
            line,
            element,
            attributes: attributes@,
        },
        Chunk::XmlEndElement { line, namespace, name } => ChunkModel::XmlEndElement {
            line,
            namespace,
            name,
        },
        Chunk::XmlResourceMap { ids } => ChunkModel::XmlResourceMap { ids: ids@ },
        Chunk::TablePackage { body } => ChunkModel::TablePackage { body: body@ },
        Chunk::TableType { body } => ChunkModel::TableType { body: body@ },
        Chunk::TableTypeSpec { body } => ChunkModel::TableTypeSpec { body: body@ },
    }
}

/// The models of a sequence of decoded chunks.
pub open spec fn chunks_view(v: Seq<Chunk>) -> Seq<ChunkModel>
    decreases v,
{
    Seq::new(
        v.len(),
        |i: int|
            if 0 <= i < v.len() {
                chunk_model(v[i])
            } else {
                ChunkModel::Xml { children: Seq::empty() }
            },
    )
}

// ------------------------------------------------------------------
// UTF-16 to UTF-8 transcoding
// ------------------------------------------------------------------

/// The UTF-8 encoding of the code point `cp`.
pub open spec fn spec_utf8_enc(cp: int) -> Seq<u8>
    recommends
        0 <= cp < 0x110000,
{
    if cp < 0x80 {
        seq![cp as u8]
    } else if cp < 0x800 {
        seq![(0xc0 + cp / 0x40) as u8, (0x80 + cp % 0x40) as u8]
    } else if cp < 0x10000 {
        seq![(0xe0 + cp / 0x1000) as u8, (0x80 + (cp / 0x40) % 0x40) as u8, (0x80 + cp % 0x40) as u8]
    } else {
        seq![
            (0xf0 + cp / 0x40000) as u8,
            (0x80 + (cp / 0x1000) % 0x40) as u8,
            (0x80 + (cp / 0x40) % 0x40) as u8,
            (0x80 + cp % 0x40) as u8,
        ]
    }
}

/// The UTF-8 bytes of the UTF-16 code units `units`: surrogate pairs
/// combine into one code point; a lone or misordered surrogate makes the
/// whole string invalid.
pub open spec fn spec_utf16_to_utf8(units: Seq<u16>) -> Option<Seq<u8>>
    decreases units.len(),
{
    if units.len() == 0 {
        Some(Seq::empty())
    } else {
        let u = units[0] as int;
        if 0xd800 <= u < 0xdc00 {
            if units.len() < 2 {
                None
            } else {
                let u2 = units[1] as int;
                if !(0xdc00 <= u2 < 0xe000) {
                    None
                } else {
                    let cp = 0x10000 + (u - 0xd800) * 0x400 + (u2 - 0xdc00);
                    match spec_utf16_to_utf8(units.skip(2)) {
                        None => None,
                        Some(t) => Some(spec_utf8_enc(cp) + t),
                    }
                }
            }
        } else if 0xdc00 <= u < 0xe000 {
            None
        } else {
            match spec_utf16_to_utf8(units.skip(1)) {
                None => None,
                Some(t) => Some(spec_utf8_enc(u) + t),
            }
        }
    }
}

fn utf8_enc(cp: u32) -> (r: Vec<u8>)
    requires
        cp < 0x110000,
    ensures
        r@ == spec_utf8_enc(cp as int),
{
    let mut out: Vec<u8> = Vec::new();
    if cp < 0x80 {
        out.push(cp as u8);
        assert(out@ =~= spec_utf8_enc(cp as int));
    } else if cp < 0x800 {
        out.push(0xc0 + (cp / 0x40) as u8);
        out.push(0x80 + (cp % 0x40) as u8);
        assert(out@ =~= spec_utf8_enc(cp as int));
    } else if cp < 0x10000 {
        out.push(0xe0 + (cp / 0x1000) as u8);
        out.push(0x80 + ((cp / 0x40) % 0x40) as u8);
        out.push(0x80 + (cp % 0x40) as u8);
        assert(out@ =~= spec_utf8_enc(cp as int));
    } else {
        out.push(0xf0 + (cp / 0x40000) as u8);
        out.push(0x80 + ((cp / 0x1000) % 0x40) as u8);
        out.push(0x80 + ((cp / 0x40) % 0x40) as u8);
        out.push(0x80 + (cp % 0x40) as u8);
        assert(out@ =~= spec_utf8_enc(cp as int));
    }
    out
}

fn utf16_to_utf8_from(units: &Vec<u16>, i: usize) -> (r: Result<Vec<u8>, AxmlError>)
    requires
        i <= units@.len(),
    ensures
        match r {
            Ok(v) => spec_utf16_to_utf8(units@.skip(i as int)) == Some(v@),
            Err(e) => spec_utf16_to_utf8(units@.skip(i as int)) is None && e == AxmlError::BadString,
        },
    decreases units@.len() - i,
{
    let n = units.len();
    if i == n {
        let v: Vec<u8> = Vec::new();
        assert(units@.skip(i as int).len() == 0);
        assert(v@ =~= Seq::<u8>::empty());
        return Ok(v);
    }
    let ghost rest = units@.skip(i as int);
    assert(rest[0] == units@[i as int]);
    let u = units[i];
    if 0xd800 <= u && u < 0xdc00 {
        if n - i < 2 {
            return Err(AxmlError::BadString);
        }
        assert(rest[1] == units@[i + 1]);
        let u2 = units[i + 1];
        if !(0xdc00 <= u2 && u2 < 0xe000) {
            return Err(AxmlError::BadString);
        }
        let cp: u32 = 0x10000 + (u as u32 - 0xd800) * 0x400 + (u2 as u32 - 0xdc00);
        assert(rest.skip(2) =~= units@.skip(i + 2));
        let mut tail = utf16_to_utf8_from(units, i + 2)?;
        let mut out = utf8_enc(cp);
        out.append(&mut tail);
        Ok(out)
    } else if 0xdc00 <= u && u < 0xe000 {
        Err(AxmlError::BadString)
    } else {
        assert(rest.skip(1) =~= units@.skip(i + 1));
        let mut tail = utf16_to_utf8_from(units, i + 1)?;
        let mut out = utf8_enc(u as u32);
        out.append(&mut tail);
        Ok(out)
    }
}

// ------------------------------------------------------------------
// String pool
// ------------------------------------------------------------------

/// One string read at `pos` within the pool chunk that ends at `end`, and
/// the offset just past it. UTF-8 entries carry two length headers (the
/// character count, unused, and the byte count), each one or two bytes
/// wide by its top bit; UTF-16 entries carry a code-unit count, one or
/// two 16-bit words wide. Either form must be followed by its
/// terminator, and UTF-16 data is transcoded to UTF-8.
pub open spec fn spec_parse_string(s: Seq<u8>, pos: int, end: int, utf8: bool) -> Result<
    (Seq<u8>, int),
    AxmlError,
> {
    if utf8 {
        if pos + 2 > end {
            Err(AxmlError::Truncated)
        } else {
            let charsh = s[pos] as int;
            let p1 = if charsh > 0x7f { pos + 2 } else { pos + 1 };
            if p1 + 1 > end {
                Err(AxmlError::Truncated)
            } else {
                let bytesh = s[p1] as int;
                let blen_p = if bytesh > 0x7f {
                    if p1 + 2 > end {
                        None
                    } else {
                        Some((((bytesh - 0x80) * 0x100 + s[p1 + 1]) as int, p1 + 2))
                    }
                } else {
                    Some((bytesh, p1 + 1))
                };
                match blen_p {
                    None => Err(AxmlError::Truncated),
                    Some((blen, p2)) => {
                        if p2 + blen + 1 > end {
                            Err(AxmlError::Truncated)
                        } else if s[p2 + blen] != 0 {
                            Err(AxmlError::BadString)
                        } else {
                            Ok((s.subrange(p2, p2 + blen), p2 + blen + 1))
                        }
                    },
                }
            }
        }
    } else {
        if pos + 2 > end {
            Err(AxmlError::Truncated)
        } else {
            let lensh = le16_at(s, pos) as int;
            let chars_p = if lensh > 0x7fff {
                if pos + 4 > end {
                    None
                } else {
                    Some(((lensh - 0x8000) * 0x10000 + le16_at(s, pos + 2) as int, pos + 4))
                }
            } else {
                Some((lensh, pos + 2))
            };
            match chars_p {
                None => Err(AxmlError::Truncated),
                Some((chars, p1)) => {
                    if p1 + 2 * chars + 2 > end {
                        Err(AxmlError::Truncated)
                    } else if le16_at(s, p1 + 2 * chars) != 0 {
                        Err(AxmlError::BadString)
                    } else {
                        let units = Seq::new(chars as nat, |j: int| le16_at(s, p1 + 2 * j));
                        match spec_utf16_to_utf8(units) {
                            None => Err(AxmlError::BadString),
                            Some(bytes) => Ok((bytes, p1 + 2 * chars + 2)),
                        }
                    }
                },
            }
        }
    }
}

/// The `count` strings read in sequence from `pos`, and the offset just
/// past them.
pub open spec fn spec_parse_strings(
    s: Seq<u8>,
    pos: int,
    end: int,
    count: int,
    utf8: bool,
) -> Result<(Seq<Seq<u8>>, int), AxmlError>
    decreases count,
{
    if count <= 0 {
        Ok((Seq::empty(), pos))
    } else {
        match spec_parse_string(s, pos, end, utf8) {
            Err(e) => Err(e),
            Ok((head, p)) => match spec_parse_strings(s, p, end, count - 1, utf8) {
                Err(e) => Err(e),
                Ok((rest, q)) => Ok((seq![head] + rest, q)),
            },
        }
    }
}

/// What decoding the string-pool chunk at `pos`..`end` yields: the pool
/// header holds the string count, style count and flags; the offset
/// tables are skipped (strings are stored in pool order right after
/// them); each string is read as its flags direct. Styles are not
/// interpreted.
pub open spec fn spec_parse_pool(s: Seq<u8>, pos: int, end: int) -> Result<
    (Seq<Seq<u8>>, u32),
    AxmlError,
> {
    if end - pos < 28 {
        Err(AxmlError::Truncated)
    } else {
        let string_count = le32_at(s, pos + 8) as int;
        let style_count = le32_at(s, pos + 12) as int;
        let flags = le32_at(s, pos + 16);
        let sstart = pos + 28 + 4 * (string_count + style_count);
        if sstart > end {
            Err(AxmlError::Truncated)
        } else {
            match spec_parse_strings(s, sstart, end, string_count, flags & POOL_UTF8_FLAG != 0) {
                Err(e) => Err(e),
                Ok((strings, _)) => Ok((strings, flags)),
            }
        }
    }
}

fn parse_string(data: &[u8], pos: usize, end: usize, utf8: bool) -> (r: Result<
    (Vec<u8>, usize),
    AxmlError,
>)
    requires
        pos <= end,
        end <= data@.len(),
    ensures
        match r {
            Ok((v, p)) => {
                &&& spec_parse_string(data@, pos as int, end as int, utf8) == Ok::<_, AxmlError>(
                    (v@, p as int),
                )
                &&& pos < p <= end
            },
            Err(e) => spec_parse_string(data@, pos as int, end as int, utf8) == Err::<
                (Seq<u8>, int),
                _,
            >(e),
        },
{
    let n = data.len();
    if utf8 {
        if end - pos < 2 {
            return Err(AxmlError::Truncated);
        }
        let charsh = data[pos];
        let p1: usize = if charsh > 0x7f {
            pos + 2
        } else {
            pos + 1
        };
        if end - p1 < 1 {
            return Err(AxmlError::Truncated);
        }
        let bytesh = data[p1];
        let (blen, p2): (usize, usize) = if bytesh > 0x7f {
            if end - p1 < 2 {
                return Err(AxmlError::Truncated);
            }
            ((bytesh - 0x80) as usize * 0x100 + data[p1 + 1] as usize, p1 + 2)
        } else {
            (bytesh as usize, p1 + 1)
        };
        if end - p2 < blen + 1 {
            return Err(AxmlError::Truncated);
        }
        if data[p2 + blen] != 0 {
            return Err(AxmlError::BadString);
        }
        let v = copy_range(data, p2, p2 + blen);
        Ok((v, p2 + blen + 1))
    } else {
        if end - pos < 2 {
            return Err(AxmlError::Truncated);
        }
        let lensh = read_le16(data, pos);
        let (chars, p1): (usize, usize) = if lensh > 0x7fff {
            if end - pos < 4 {
                return Err(AxmlError::Truncated);
            }
            ((lensh - 0x8000) as usize * 0x10000 + read_le16(data, pos + 2) as usize, pos + 4)
        } else {
            (lensh as usize, pos + 2)
        };
        let m = end - p1;
        if m < 2 || (m - 2) / 2 < chars {
            assert(p1 + 2 * chars + 2 > end);
            return Err(AxmlError::Truncated);
        }
        assert(2 * chars + 2 <= m);
        if read_le16(data, p1 + 2 * chars) != 0 {
            return Err(AxmlError::BadString);
        }
        let ghost units_s = Seq::new(chars as nat, |j: int| le16_at(data@, p1 + 2 * j));
        let mut units: Vec<u16> = Vec::new();
        let mut j: usize = 0;
        while j < chars
            invariant
                j <= chars,
                p1 + 2 * chars + 2 <= end <= data@.len(),
                units_s == Seq::new(chars as nat, |k: int| le16_at(data@, p1 as int + 2 * k)),
                units@ =~= units_s.take(j as int),
            decreases chars - j,
        {
            units.push(read_le16(data, p1 + 2 * j));
            assert(units@ =~= units_s.take(j + 1));
            j = j + 1;
        }
        assert(units@ =~= units_s);
        let bytes = match utf16_to_utf8_from(&units, 0) {
            Ok(b) => b,
            Err(e) => {
                proof {
                    assert(units@.skip(0) =~= units_s);
                }
                return Err(e);
            },
        };
        proof {
            assert(units@.skip(0) =~= units_s);
        }
        Ok((bytes, p1 + 2 * chars + 2))
    }
}

fn parse_strings(data: &[u8], pos: usize, end: usize, count: usize, utf8: bool) -> (r: Result<
    (Vec<Vec<u8>>, usize),
    AxmlError,
>)
    requires
        pos <= end,
        end <= data@.len(),
    ensures
        match r {
            Ok((v, p)) => {
                &&& spec_parse_strings(data@, pos as int, end as int, count as int, utf8)
                    == Ok::<_, AxmlError>((seqs_view(v@), p as int))
                &&& pos <= p <= end
            },
            Err(e) => spec_parse_strings(data@, pos as int, end as int, count as int, utf8)
                == Err::<(Seq<Seq<u8>>, int), _>(e),
        },
    decreases count,
{
    if count == 0 {
        let v: Vec<Vec<u8>> = Vec::new();
        assert(seqs_view(v@) =~= Seq::<Seq<u8>>::empty());
        return Ok((v, pos));
    }
    let (head, p) = parse_string(data, pos, end, utf8)?;
    let (mut rest, q) = parse_strings(data, p, end, count - 1, utf8)?;
    let mut out: Vec<Vec<u8>> = Vec::new();
    out.push(head);
    out.append(&mut rest);
    assert(seqs_view(out@) =~= seq![head@] + spec_parse_strings(
        data@,
        p as int,
        end as int,
        count as int - 1,
        utf8,
    )->Ok_0.0);
    Ok((out, q))
}

fn parse_pool(data: &[u8], pos: usize, end: usize) -> (r: Result<(Vec<Vec<u8>>, u32), AxmlError>)
    requires
        pos <= end,
        end <= data@.len(),
        end - pos >= 8,
    ensures
        match r {
            Ok((v, flags)) => spec_parse_pool(data@, pos as int, end as int) == Ok::<_, AxmlError>(
                (seqs_view(v@), flags),
            ),
            Err(e) => spec_parse_pool(data@, pos as int, end as int) == Err::<
                (Seq<Seq<u8>>, u32),
                _,
            >(e),
        },
{
    if end - pos < 28 {
        return Err(AxmlError::Truncated);
    }
    let string_count = read_le32(data, pos + 8);
    let style_count = read_le32(data, pos + 12);
    let flags = read_le32(data, pos + 16);
    let sstart128: u128 = pos as u128 + 28 + 4 * (string_count as u128 + style_count as u128);
    if sstart128 > end as u128 {
        return Err(AxmlError::Truncated);
    }
    let sstart = sstart128 as usize;
    let (strings, _) = parse_strings(
        data,
        sstart,
        end,
        string_count as usize,
        flags & POOL_UTF8_FLAG != 0,
    )?;
    Ok((strings, flags))
}

// ------------------------------------------------------------------
// Chunk stream
// ------------------------------------------------------------------

/// The attribute stored at offset `p`: namespace, name and raw value,
/// then the typed value (size, reserved byte, data type, raw data).
pub open spec fn spec_attr_at(s: Seq<u8>, p: int) -> Attribute
    recommends
        0 <= p,
        p + 20 <= s.len(),
{
    Attribute {
        namespace: le32_at(s, p) as i32,
        name: le32_at(s, p + 4) as i32,
        raw_value: le32_at(s, p + 8) as i32,
        typed_value: TypedValue {
            size: le16_at(s, p + 12),
            res0: s[p + 14],
            data_type: s[p + 15],
            data: le32_at(s, p + 16) as i32,
        },
    }
}

/// What decoding the non-container chunk of type `ty` spanning
/// `pos`..`cend` yields: a chunk model, or nothing for a chunk type that
/// is skipped wholesale, or a failure when a field overruns the chunk.
pub open spec fn spec_parse_flat_chunk(ty: u16, s: Seq<u8>, pos: int, cend: int) -> Result<
    Option<ChunkModel>,
    AxmlError,
> {
    if ty == CHUNK_STRING_POOL {
        match spec_parse_pool(s, pos, cend) {
            Err(e) => Err(e),
            Ok((strings, flags)) => Ok(Some(ChunkModel::StringPool { strings, flags })),
        }
    } else if ty == CHUNK_XML_START_NAMESPACE || ty == CHUNK_XML_END_NAMESPACE {
        if cend - pos < 24 {
            Err(AxmlError::Truncated)
        } else {
            let line = le32_at(s, pos + 8);
            let prefix = le32_at(s, pos + 16) as i32;
            let uri = le32_at(s, pos + 20) as i32;
            if ty == CHUNK_XML_START_NAMESPACE {
                Ok(Some(ChunkModel::XmlStartNamespace { line, prefix, uri }))
            } else {
                Ok(Some(ChunkModel::XmlEndNamespace { line, prefix, uri }))
            }
        }
    } else if ty == CHUNK_XML_START_ELEMENT {
        if cend - pos < 36 {
            Err(AxmlError::Truncated)
        } else {
            let line = le32_at(s, pos + 8);
            let element = Element {
                namespace: le32_at(s, pos + 16) as i32,
                name: le32_at(s, pos + 20) as i32,
            };
            let count = le16_at(s, pos + 28) as int;
            if pos + 36 + 20 * count > cend {
                Err(AxmlError::Truncated)
            } else {
                let attributes = Seq::new(count as nat, |i: int| spec_attr_at(s, pos + 36 + 20 * i));
                Ok(Some(ChunkModel::XmlStartElement { line, element, attributes }))
            }
        }
    } else if ty == CHUNK_XML_END_ELEMENT {
        if cend - pos < 24 {
            Err(AxmlError::Truncated)
        } else {
            let line = le32_at(s, pos + 8);
            let namespace = le32_at(s, pos + 16) as i32;
            let name = le32_at(s, pos + 20) as i32;
            Ok(Some(ChunkModel::XmlEndElement { line, namespace, name }))
        }
    } else if ty == CHUNK_XML_RESOURCE_MAP {
        let count = (cend - pos - 8) / 4;
        let ids = Seq::new(count as nat, |i: int| le32_at(s, pos + 8 + 4 * i));
        Ok(Some(ChunkModel::XmlResourceMap { ids }))
    } else if ty == CHUNK_TABLE_PACKAGE {
        Ok(Some(ChunkModel::TablePackage { body: s.subrange(pos + 8, cend) }))
    } else if ty == CHUNK_TABLE_TYPE {
        Ok(Some(ChunkModel::TableType { body: s.subrange(pos + 8, cend) }))
    } else if ty == CHUNK_TABLE_TYPE_SPEC {
        Ok(Some(ChunkModel::TableTypeSpec { body: s.subrange(pos + 8, cend) }))
    } else {
        Ok(None)
    }
}

/// What decoding the chunk stream spanning `pos`..`end` yields: each
/// chunk's header gives its type and total size; the stream advances by
/// exactly that size; XML chunks recurse into their extent; skipped
/// chunk types leave no trace. A chunk that overruns the remaining
/// extent, or a header that does not fit, fails the decode.
pub open spec fn spec_parse_chunks(s: Seq<u8>, pos: int, end: int) -> Result<
    Seq<ChunkModel>,
    AxmlError,
>
    decreases end - pos,
{
    if pos >= end {
        Ok(Seq::empty())
    } else if end - pos < 8 {
        Err(AxmlError::Truncated)
    } else {
        let ty = le16_at(s, pos);
        let size = le32_at(s, pos + 4) as int;
        if size < 8 || size > end - pos {
            Err(AxmlError::Truncated)
        } else {
            let cend = pos + size;
            let head: Result<Option<ChunkModel>, AxmlError> = if ty == CHUNK_XML {
                match spec_parse_chunks(s, pos + 8, cend) {
                    Err(e) => Err(e),
                    Ok(cs) => Ok(Some(ChunkModel::Xml { children: cs })),
                }
            } else {
                spec_parse_flat_chunk(ty, s, pos, cend)
            };
            match head {
                Err(e) => Err(e),
                Ok(h) => match spec_parse_chunks(s, cend, end) {
                    Err(e) => Err(e),
                    Ok(t) => Ok(
                        match h {
                            None => t,
                            Some(m) => seq![m] + t,
                        },
                    ),
                },
            }
        }
    }
}

/// What decoding a whole document buffer yields: the root chunk, whose
/// declared size must fit the buffer; a root of a skipped chunk type is
/// refused.
pub open spec fn spec_parse(s: Seq<u8>) -> Result<ChunkModel, AxmlError> {
    if s.len() < 8 {
        Err(AxmlError::Truncated)
    } else {
        let size = le32_at(s, 4) as int;
        if size < 8 || size > s.len() {
            Err(AxmlError::Truncated)
        } else {
            match spec_parse_chunks(s, 0, size) {
                Err(e) => Err(e),
                Ok(list) => {
                    if list.len() == 1 {
                        Ok(list[0])
                    } else {
                        Err(AxmlError::NotXml)
                    }
                },
            }
        }
    }
}

fn parse_flat_chunk(ty: u16, data: &[u8], pos: usize, cend: usize) -> (r: Result<
    Option<Chunk>,
    AxmlError,
>)
    requires
        pos + 8 <= cend,
        cend <= data@.len(),
    ensures
        match r {
            Ok(None) => spec_parse_flat_chunk(ty, data@, pos as int, cend as int) == Ok::<
                Option<ChunkModel>,
                AxmlError,
            >(None),
            Ok(Some(c)) => spec_parse_flat_chunk(ty, data@, pos as int, cend as int) == Ok::<
                _,
                AxmlError,
            >(Some(chunk_model(c))),
            Err(e) => spec_parse_flat_chunk(ty, data@, pos as int, cend as int) == Err::<
                Option<ChunkModel>,
                _,
            >(e),
        },
{
    let n = data.len();
    if ty == CHUNK_STRING_POOL {
        let (strings, flags) = match parse_pool(data, pos, cend) {
            Ok(p) => p,
            Err(e) => {
                return Err(e);
            },
        };
        Ok(Some(Chunk::StringPool { strings, flags }))
    } else if ty == CHUNK_XML_START_NAMESPACE || ty == CHUNK_XML_END_NAMESPACE {
        if cend - pos < 24 {
            return Err(AxmlError::Truncated);
        }
        let line = read_le32(data, pos + 8);
        let prefix = #[verifier::truncate] (read_le32(data, pos + 16) as i32);
        let uri = #[verifier::truncate] (read_le32(data, pos + 20) as i32);
        if ty == CHUNK_XML_START_NAMESPACE {
            Ok(Some(Chunk::XmlStartNamespace { line, prefix, uri }))
        } else {
            Ok(Some(Chunk::XmlEndNamespace { line, prefix, uri }))
        }
    } else if ty == CHUNK_XML_START_ELEMENT {
        if cend - pos < 36 {
            return Err(AxmlError::Truncated);
        }
        let line = read_le32(data, pos + 8);
        let element = Element {
            namespace: #[verifier::truncate] (read_le32(data, pos + 16) as i32),
            name: #[verifier::truncate] (read_le32(data, pos + 20) as i32),
        };
        let count = read_le16(data, pos + 28) as usize;
        if cend - pos < 36 + 20 * count {
            return Err(AxmlError::Truncated);
        }
        let ghost attrs_s = Seq::new(
            count as nat,
            |i: int| spec_attr_at(data@, pos as int + 36 + 20 * i),
        );
        let mut attributes: Vec<Attribute> = Vec::new();
        let mut i: usize = 0;
        while i < count
            invariant
                i <= count,
                pos + 36 + 20 * count <= cend <= data@.len(),
                attrs_s == Seq::new(
                    count as nat,
                    |k: int| spec_attr_at(data@, pos as int + 36 + 20 * k),
                ),
                attributes@.len() == i,
                forall|j: int| 0 <= j < i ==> attributes@[j] == attrs_s[j],
            decreases count - i,
        {
            let p = pos + 36 + 20 * i;
            let a = Attribute {
                namespace: #[verifier::truncate] (read_le32(data, p) as i32),
                name: #[verifier::truncate] (read_le32(data, p + 4) as i32),
                raw_value: #[verifier::truncate] (read_le32(data, p + 8) as i32),
                typed_value: TypedValue {
                    size: read_le16(data, p + 12),
                    res0: data[p + 14],
                    data_type: data[p + 15],
                    data: #[verifier::truncate] (read_le32(data, p + 16) as i32),
                },
            };
            attributes.push(a);
            i = i + 1;
        }
        assert(attributes@ =~= attrs_s);
        Ok(Some(Chunk::XmlStartElement { line, element, attributes }))
    } else if ty == CHUNK_XML_END_ELEMENT {
        if cend - pos < 24 {
            return Err(AxmlError::Truncated);
        }
        let line = read_le32(data, pos + 8);
        let namespace = #[verifier::truncate] (read_le32(data, pos + 16) as i32);
        let name = #[verifier::truncate] (read_le32(data, pos + 20) as i32);
        Ok(Some(Chunk::XmlEndElement { line, namespace, name }))
    } else if ty == CHUNK_XML_RESOURCE_MAP {
        let count = (cend - pos - 8) / 4;
        let ghost ids_s = Seq::new(count as nat, |i: int| le32_at(data@, pos as int + 8 + 4 * i));
        let mut ids: Vec<u32> = Vec::new();
        let mut i: usize = 0;
        while i < count
            invariant
                i <= count,
                count == (cend - pos - 8) / 4,
                pos + 8 <= cend <= data@.len(),
                ids_s == Seq::new(count as nat, |k: int| le32_at(data@, pos as int + 8 + 4 * k)),
                ids@.len() == i,
                forall|j: int| 0 <= j < i ==> ids@[j] == ids_s[j],
            decreases count - i,
        {
            assert(pos + 8 + 4 * i + 4 <= cend);
            ids.push(read_le32(data, pos + 8 + 4 * i));
            i = i + 1;
        }
        assert(ids@ =~= ids_s);
        Ok(Some(Chunk::XmlResourceMap { ids }))
    } else if ty == CHUNK_TABLE_PACKAGE {
        let body = copy_range(data, pos + 8, cend);
        Ok(Some(Chunk::TablePackage { body }))
    } else if ty == CHUNK_TABLE_TYPE {
        let body = copy_range(data, pos + 8, cend);
        Ok(Some(Chunk::TableType { body }))
    } else if ty == CHUNK_TABLE_TYPE_SPEC {
        let body = copy_range(data, pos + 8, cend);
        Ok(Some(Chunk::TableTypeSpec { body }))
    } else {
        Ok(None)
    }
}

fn parse_chunks(data: &[u8], pos: usize, end: usize) -> (r: Result<Vec<Chunk>, AxmlError>)
    requires
        pos <= end,
        end <= data@.len(),
    ensures
        match r {
            Ok(v) => spec_parse_chunks(data@, pos as int, end as int) == Ok::<_, AxmlError>(
                chunks_view(v@),
            ),
            Err(e) => spec_parse_chunks(data@, pos as int, end as int) == Err::<Seq<ChunkModel>, _>(
                e,
            ),
        },
    decreases end - pos,
{
    if pos >= end {
        let v: Vec<Chunk> = Vec::new();
        assert(chunks_view(v@) =~= Seq::<ChunkModel>::empty());
        return Ok(v);
    }
    if end - pos < 8 {
        return Err(AxmlError::Truncated);
    }
    let ty = read_le16(data, pos);
    let size = read_le32(data, pos + 4) as usize;
    if size < 8 || size > end - pos {
        return Err(AxmlError::Truncated);
    }
    let cend = pos + size;
    let head: Option<Chunk> = if ty == CHUNK_XML {
        let children = match parse_chunks(data, pos + 8, cend) {
            Ok(cs) => cs,
            Err(e) => {
                return Err(e);
            },
        };
        Some(Chunk::Xml { children })
    } else {
        match parse_flat_chunk(ty, data, pos, cend) {
            Ok(h) => h,
            Err(e) => {
                return Err(e);
            },
        }
    };
    let mut rest = match parse_chunks(data, cend, end) {
        Ok(t) => t,
        Err(e) => {
            return Err(e);
        },
    };
    match head {
        None => Ok(rest),
        Some(c) => {
            let ghost rest_prev = rest@;
            let mut out: Vec<Chunk> = Vec::new();
            out.push(c);
            out.append(&mut rest);
            assert(chunks_view(out@) =~= seq![chunk_model(out@[0])] + chunks_view(rest_prev));
            Ok(out)
        },
    }
}

impl Chunk {
    /// Decodes a whole document buffer into its root chunk. The root of
    /// a manifest file is an XML chunk whose children are the string
    /// pool, namespace and element chunks in document order.
    pub fn parse(data: &[u8]) -> (r: Result<Chunk, AxmlError>)
        ensures
            match r {
                Ok(c) => spec_parse(data@) == Ok::<_, AxmlError>(chunk_model(c)),
                Err(e) => spec_parse(data@) == Err::<ChunkModel, _>(e),
            },
    {
        let n = data.len();
        if n < 8 {
            return Err(AxmlError::Truncated);
        }
        let size = read_le32(data, 4) as usize;
        if size < 8 || size > n {
            return Err(AxmlError::Truncated);
        }
        let mut list = match parse_chunks(data, 0, size) {
            Ok(l) => l,
            Err(e) => {
                return Err(e);
            },
        };
        if list.len() == 1 {
            match list.pop() {
                Some(c) => {
                    assert(chunk_model(c) == chunks_view(list@.push(c))[0]);
                    Ok(c)
                },
                None => Err(AxmlError::NotXml),
            }
        } else {
            Err(AxmlError::NotXml)
        }
    }
}

} // verus!
