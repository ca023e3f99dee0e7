//! The manifest attribute resolver.
//!
//! A decoded manifest document is a string pool plus element chunks. One
//! operation answers every question about it: the value of attribute A on
//! the first element named N, where both names resolve through the string
//! pool. A string-typed attribute value resolves its raw value back
//! through the pool; an integer-typed one renders as decimal text; any
//! other type yields no value. The flat record of manifest fields is
//! assembled by repeated calls to that one operation.

use vstd::prelude::*;
use vstd::string::StringSliceAdditionalSpecFns;
use crate::errors::AxmlError;
use crate::axml::{Chunk, ChunkModel, Attribute, chunk_model, chunks_view};
use crate::text::{spec_idec, render_i32, spec_parse_u32, parse_u32};
use crate::tlv::seqs_view;

verus! {

broadcast use vstd::slice::axiom_spec_len;

/// The attribute data type whose raw value is a string-pool reference.
pub const DATA_TYPE_STRING: u8 = 3;

/// The attribute data type whose raw value is a plain integer.
pub const DATA_TYPE_INT: u8 = 16;

/// The index of the first pool string equal to `w`, scanning from `i`.
pub open spec fn spec_index_of_from(strings: Seq<Seq<u8>>, w: Seq<u8>, i: int) -> Option<int>
    decreases strings.len() - i,
{
    if i < 0 || i >= strings.len() {
        None
    } else if strings[i] == w {
        Some(i)
    } else {
        spec_index_of_from(strings, w, i + 1)
    }
}

/// The pool index of the string `w`: the first entry equal to it.
pub open spec fn spec_index_of(strings: Seq<Seq<u8>>, w: Seq<u8>) -> Option<int> {
    spec_index_of_from(strings, w, 0)
}

/// What an attribute's typed value resolves to: a string-typed value
/// resolves its raw value back through the pool (nothing when the index
/// is out of range); an integer-typed value renders as signed decimal
/// text; any other data type yields nothing.
pub open spec fn spec_resolve_attr(strings: Seq<Seq<u8>>, a: Attribute) -> Option<Seq<u8>> {
    if a.typed_value.data_type == DATA_TYPE_STRING {
        if 0 <= a.raw_value < strings.len() {
            Some(strings[a.raw_value as int])
        } else {
            None
        }
    } else if a.typed_value.data_type == DATA_TYPE_INT {
        Some(spec_idec(a.typed_value.data as int))
    } else {
        None
    }
}

/// The first attribute whose name is the pool index `idx_attr`.
pub open spec fn spec_first_attr(attrs: Seq<Attribute>, idx_attr: int) -> Option<Attribute>
    decreases attrs.len(),
{
    if attrs.len() == 0 {
        None
    } else if attrs[0].name as int == idx_attr {
        Some(attrs[0])
    } else {
        spec_first_attr(attrs.skip(1), idx_attr)
    }
}

/// What one chunk contributes to the search: an element-start chunk
/// named `idx_node` yields whatever its first attribute named `idx_attr`
/// resolves to; every other chunk yields nothing.
pub open spec fn spec_chunk_value(
    strings: Seq<Seq<u8>>,
    c: ChunkModel,
    idx_node: int,
    idx_attr: int,
) -> Option<Seq<u8>> {
    match c {
        ChunkModel::XmlStartElement { element, attributes, .. } => {
            if element.name as int == idx_node {
                match spec_first_attr(attributes, idx_attr) {
                    None => None,
                    Some(a) => spec_resolve_attr(strings, a),
                }
            } else {
                None
            }
        },
        _ => None,
    }
}

/// The value of the first chunk, in document order, that yields one.
pub open spec fn spec_find_value_chunks(
    strings: Seq<Seq<u8>>,
    chunks: Seq<ChunkModel>,
    idx_node: int,
    idx_attr: int,
) -> Option<Seq<u8>>
    decreases chunks.len(),
{
    if chunks.len() == 0 {
        None
    } else {
        match spec_chunk_value(strings, chunks[0], idx_node, idx_attr) {
            Some(v) => Some(v),
            None => spec_find_value_chunks(strings, chunks.skip(1), idx_node, idx_attr),
        }
    }
}

/// The value of attribute `attr` on the first element named `node` that
/// carries it with a resolvable type: both names resolve through the
/// string pool (nothing when either is absent), and the chunks are
/// scanned in document order.
pub open spec fn spec_find_value(
    strings: Seq<Seq<u8>>,
    chunks: Seq<ChunkModel>,
    node: Seq<u8>,
    attr: Seq<u8>,
) -> Option<Seq<u8>> {
    match spec_index_of(strings, node) {
        None => None,
        Some(idx_node) => match spec_index_of(strings, attr) {
            None => None,
            Some(idx_attr) => spec_find_value_chunks(strings, chunks, idx_node, idx_attr),
        },
    }
}

fn bytes_eq(a: &[u8], b: &[u8]) -> (r: bool)
    ensures
        r == (a@ == b@),
{
    let n = a.len();
    if n != b.len() {
        assert(a@.len() != b@.len());
        return false;
    }
    let mut i: usize = 0;
    while i < n
        invariant
            i <= n,
            n == a@.len() == b@.len(),
            forall|j: int| 0 <= j < i ==> a@[j] == b@[j],
        decreases n - i,
    {
        if a[i] != b[i] {
            return false;
        }
        i = i + 1;
    }
    assert(a@ =~= b@);
    true
}

fn find_index(strings: &Vec<Vec<u8>>, w: &[u8]) -> (r: Option<usize>)
    ensures
        match r {
            Some(i) => spec_index_of(seqs_view(strings@), w@) == Some(i as int),
            None => spec_index_of(seqs_view(strings@), w@) is None,
        },
{
    let ghost ss = seqs_view(strings@);
    let n = strings.len();
    let mut i: usize = 0;
    while i < n
        invariant
            i <= n,
            n == strings@.len(),
            ss == seqs_view(strings@),
            spec_index_of(ss, w@) == spec_index_of_from(ss, w@, i as int),
        decreases n - i,
    {
        if bytes_eq(strings[i].as_slice(), w) {
            return Some(i);
        }
        i = i + 1;
    }
    None
}

fn first_attr(attrs: &Vec<Attribute>, idx_attr: usize) -> (r: Option<Attribute>)
    ensures
        r == spec_first_attr(attrs@, idx_attr as int),
{
    let n = attrs.len();
    let mut i: usize = 0;
    assert(attrs@.skip(0) =~= attrs@);
    while i < n
        invariant
            i <= n,
            n == attrs@.len(),
            spec_first_attr(attrs@, idx_attr as int) == spec_first_attr(
                attrs@.skip(i as int),
                idx_attr as int,
            ),
        decreases n - i,
    {
        assert(attrs@.skip(i as int)[0] == attrs@[i as int]);
        let a = attrs[i];
        if a.name >= 0 && a.name as usize == idx_attr {
            return Some(a);
        }
        assert(attrs@.skip(i as int).skip(1) =~= attrs@.skip(i + 1));
        proof {
            if !(a.name >= 0 && a.name as usize == idx_attr) {
                assert(a.name as int != idx_attr as int);
            }
        }
        i = i + 1;
    }
    assert(attrs@.skip(n as int).len() == 0);
    None
}

fn resolve_attr(strings: &Vec<Vec<u8>>, a: &Attribute) -> (r: Option<Vec<u8>>)
    ensures
        match r {
            Some(v) => spec_resolve_attr(seqs_view(strings@), *a) == Some(v@),
            None => spec_resolve_attr(seqs_view(strings@), *a) is None,
        },
{
    if a.typed_value.data_type == DATA_TYPE_STRING {
        if a.raw_value >= 0 && (a.raw_value as usize) < strings.len() {
            let i = a.raw_value as usize;
            let v = crate::tlv::copy_range(strings[i].as_slice(), 0, strings[i].len());
            assert(v@ =~= seqs_view(strings@)[a.raw_value as int]);
            Some(v)
        } else {
            None
        }
    } else if a.typed_value.data_type == DATA_TYPE_INT {
        Some(render_i32(a.typed_value.data))
    } else {
        None
    }
}

/// Resolves attribute `attr` of the first element named `node`: both
/// names are looked up in the string pool, the chunks are scanned in
/// document order, and the first element chunk that carries the
/// attribute with a resolvable type yields its value as UTF-8 text.
pub fn find_value_in(strings: &Vec<Vec<u8>>, chunks: &Vec<Chunk>, node: &[u8], attr: &[u8]) -> (r:
    Option<Vec<u8>>)
    ensures
        match r {
            Some(v) => spec_find_value(seqs_view(strings@), chunks_view(chunks@), node@, attr@)
                == Some(v@),
            None => spec_find_value(seqs_view(strings@), chunks_view(chunks@), node@, attr@)
                is None,
        },
{
    let ghost ss = seqs_view(strings@);
    let ghost cs = chunks_view(chunks@);
    let idx_node = match find_index(strings, node) {
        None => {
            return None;
        },
        Some(i) => i,
    };
    let idx_attr = match find_index(strings, attr) {
        None => {
            return None;
        },
        Some(i) => i,
    };
    let n = chunks.len();
    let mut i: usize = 0;
    assert(cs.skip(0) =~= cs);
    while i < n
        invariant
            i <= n,
            n == chunks@.len(),
            ss == seqs_view(strings@),
            cs == chunks_view(chunks@),
            spec_index_of(ss, node@) == Some(idx_node as int),
            spec_index_of(ss, attr@) == Some(idx_attr as int),
            spec_find_value_chunks(ss, cs, idx_node as int, idx_attr as int)
                == spec_find_value_chunks(ss, cs.skip(i as int), idx_node as int, idx_attr as int),
        decreases n - i,
    {
        assert(cs.skip(i as int)[0] == cs[i as int]);
        assert(cs[i as int] == chunk_model(chunks@[i as int]));
        let c = &chunks[i];
        if let Chunk::XmlStartElement { element, attributes, .. } = c {
            if element.name >= 0 && element.name as usize == idx_node {
                match first_attr(attributes, idx_attr) {
                    Some(a) => {
                        match resolve_attr(strings, &a) {
                            Some(v) => {
                                return Some(v);
                            },
                            None => {},
                        }
                    },
                    None => {},
                }
            } else {
                proof {
                    if !(element.name >= 0 && element.name as usize == idx_node) {
                        assert(element.name as int != idx_node as int);
                    }
                }
            }
        }
        assert(cs.skip(i as int).skip(1) =~= cs.skip(i + 1));
        i = i + 1;
    }
    assert(cs.skip(n as int).len() == 0);
    None
}

/// The flat record of manifest fields, each independently optional:
/// absent when its element/attribute pair is not found or its type is
/// unrecognized. Textual fields hold UTF-8 bytes.
#[derive(Debug, Clone, PartialEq, Eq)]
pub struct ManifestFacts {
    pub package: Option<Vec<u8>>,
    pub version_code: Option<u32>,
    pub version_name: Option<Vec<u8>>,
    pub compile_sdk_version: Option<u32>,
    pub compile_sdk_version_codename: Option<u32>,
    pub platform_build_version_code: Option<u32>,
    pub platform_build_version_name: Option<u32>,
    pub min_sdk_version: Option<u32>,
    pub target_sdk_version: Option<u32>,
    pub max_sdk_version: Option<u32>,
    pub theme: Option<Vec<u8>>,
    pub label: Option<Vec<u8>>,
    pub icon: Option<Vec<u8>>,
}

/// Mathematical model of the flat record of manifest fields.
pub ghost struct FactsModel {
    pub package: Option<Seq<u8>>,
    pub version_code: Option<u32>,
    pub version_name: Option<Seq<u8>>,
    pub compile_sdk_version: Option<u32>,
    pub compile_sdk_version_codename: Option<u32>,
    pub platform_build_version_code: Option<u32>,
    pub platform_build_version_name: Option<u32>,
    pub min_sdk_version: Option<u32>,
    pub target_sdk_version: Option<u32>,
    pub max_sdk_version: Option<u32>,
    pub theme: Option<Seq<u8>>,
    pub label: Option<Seq<u8>>,
    pub icon: Option<Seq<u8>>,
}

/// The model of an optional byte vector.
pub open spec fn opt_view(o: Option<Vec<u8>>) -> Option<Seq<u8>> {
    match o {
        None => None,
        Some(v) => Some(v@),
    }
}

impl View for ManifestFacts {
    type V = FactsModel;

    open spec fn view(&self) -> FactsModel {
        FactsModel {
            package: opt_view(self.package),
            version_code: self.version_code,
            version_name: opt_view(self.version_name),
            compile_sdk_version: self.compile_sdk_version,
            compile_sdk_version_codename: self.compile_sdk_version_codename,
            platform_build_version_code: self.platform_build_version_code,
            platform_build_version_name: self.platform_build_version_name,
            min_sdk_version: self.min_sdk_version,
            target_sdk_version: self.target_sdk_version,
            max_sdk_version: self.max_sdk_version,
            theme: opt_view(self.theme),
            label: opt_view(self.label),
            icon: opt_view(self.icon),
        }
    }
}

/// Parses an optional decimal text field as an unsigned 32-bit number.
pub open spec fn spec_opt_parse_u32(o: Option<Seq<u8>>) -> Option<u32> {
    match o {
        None => None,
        Some(v) => spec_parse_u32(v),
    }
}

/// The field the resolver yields for the element `node` and attribute
/// `attr` of a decoded document.
pub open spec fn spec_field(
    strings: Seq<Seq<u8>>,
    chunks: Seq<ChunkModel>,
    node: &str,
    attr: &str,
) -> Option<Seq<u8>> {
    spec_find_value(strings, chunks, node.spec_bytes(), attr.spec_bytes())
}

/// The flat record the resolver assembles from a decoded document whose
/// string pool is `strings` and whose chunks are `chunks`.
pub open spec fn spec_facts(strings: Seq<Seq<u8>>, chunks: Seq<ChunkModel>) -> FactsModel {
    FactsModel {
        package: spec_field(strings, chunks, "manifest", "package"),
        version_code: spec_opt_parse_u32(spec_field(strings, chunks, "manifest", "versionCode")),
        version_name: spec_field(strings, chunks, "manifest", "versionName"),
        compile_sdk_version: spec_opt_parse_u32(
            spec_field(strings, chunks, "manifest", "compileSdkVersion"),
        ),
        compile_sdk_version_codename: spec_opt_parse_u32(
            spec_field(strings, chunks, "manifest", "compileSdkVersionCodename"),
        ),
        platform_build_version_code: spec_opt_parse_u32(
            spec_field(strings, chunks, "manifest", "platformBuildVersionCode"),
        ),
        platform_build_version_name: spec_opt_parse_u32(
            spec_field(strings, chunks, "manifest", "platformBuildVersionName"),
        ),
        min_sdk_version: spec_opt_parse_u32(
            spec_field(strings, chunks, "uses-sdk", "minSdkVersion"),
        ),
        target_sdk_version: spec_opt_parse_u32(
            spec_field(strings, chunks, "uses-sdk", "targetSdkVersion"),
        ),
        max_sdk_version: spec_opt_parse_u32(
            spec_field(strings, chunks, "uses-sdk", "maxSdkVersion"),
        ),
        theme: spec_field(strings, chunks, "application", "theme"),
        label: spec_field(strings, chunks, "application", "label"),
        icon: spec_field(strings, chunks, "application", "icon"),
    }
}

/// What parsing a whole manifest buffer yields: the root must be an XML
/// chunk, its first child the string pool, and the record is assembled
/// from them.
pub open spec fn spec_parse_android_manifest(s: Seq<u8>) -> Result<FactsModel, AxmlError> {
    match crate::axml::spec_parse(s) {
        Err(e) => Err(e),
        Ok(m) => match m {
            ChunkModel::Xml { children } => {
                if children.len() == 0 {
                    Err(AxmlError::MissingStringPool)
                } else {
                    match children[0] {
                        ChunkModel::StringPool { strings, .. } => Ok(spec_facts(strings, children)),
                        _ => Err(AxmlError::MissingStringPool),
                    }
                }
            },
            _ => Err(AxmlError::NotXml),
        },
    }
}

/// Exactness of attribute resolution: an integer-typed value resolves to
/// the exact signed decimal text of its raw 32-bit value, zero and
/// negative values included; a string-typed value resolves to exactly the
/// pool string its raw value references, unchanged, and to nothing when
/// the reference is out of range; every other data type yields nothing.
pub proof fn lemma_resolve_attr_exact(strings: Seq<Seq<u8>>, a: Attribute)
    ensures
        a.typed_value.data_type == DATA_TYPE_INT ==> spec_resolve_attr(strings, a) == Some(
            spec_idec(a.typed_value.data as int),
        ),
        a.typed_value.data_type == DATA_TYPE_STRING ==> spec_resolve_attr(strings, a) == (if 0
            <= a.raw_value < strings.len() {
            Some(strings[a.raw_value as int])
        } else {
            None
        }),
        a.typed_value.data_type != DATA_TYPE_INT && a.typed_value.data_type != DATA_TYPE_STRING
            ==> spec_resolve_attr(strings, a) is None,
{
}

fn opt_parse_u32(o: Option<Vec<u8>>) -> (r: Option<u32>)
    ensures
        r == spec_opt_parse_u32(opt_view(o)),
{
    match o {
        None => None,
        Some(v) => parse_u32(v.as_slice()),
    }
}

/// Parses a manifest buffer and assembles the flat record of its fields:
/// the buffer is decoded as a chunk stream whose root must be an XML
/// chunk with the string pool as its first child, and each field is the
/// resolver's answer for its element/attribute pair, numeric fields
/// parsed as decimal.
pub fn parse_android_manifest(data: &[u8]) -> (r: Result<ManifestFacts, AxmlError>)
    ensures
        match r {
            Ok(f) => spec_parse_android_manifest(data@) == Ok::<_, AxmlError>(f@),
            Err(e) => spec_parse_android_manifest(data@) == Err::<FactsModel, _>(e),
        },
{
    let root = match Chunk::parse(data) {
        Ok(c) => c,
        Err(e) => {
            return Err(e);
        },
    };
    let children = match root {
        Chunk::Xml { children } => children,
        _ => {
            return Err(AxmlError::NotXml);
        },
    };
    if children.len() == 0 {
        return Err(AxmlError::MissingStringPool);
    }
    let strings = match &children[0] {
        Chunk::StringPool { strings, .. } => strings,
        _ => {
            return Err(AxmlError::MissingStringPool);
        },
    };
    let facts = ManifestFacts {
        package: find_value_in(strings, &children, "manifest".as_bytes(), "package".as_bytes()),
        version_code: opt_parse_u32(
            find_value_in(strings, &children, "manifest".as_bytes(), "versionCode".as_bytes()),
        ),
        version_name: find_value_in(
            strings,
            &children,
            "manifest".as_bytes(),
            "versionName".as_bytes(),
        ),
        compile_sdk_version: opt_parse_u32(
            find_value_in(
                strings,
                &children,
                "manifest".as_bytes(),
                "compileSdkVersion".as_bytes(),
            ),
        ),
        compile_sdk_version_codename: opt_parse_u32(
            find_value_in(
                strings,
                &children,
                "manifest".as_bytes(),
                "compileSdkVersionCodename".as_bytes(),
            ),
        ),
        platform_build_version_code: opt_parse_u32(
            find_value_in(
                strings,
                &children,
                "manifest".as_bytes(),
                "platformBuildVersionCode".as_bytes(),
            ),
        ),
        platform_build_version_name: opt_parse_u32(
            find_value_in(
                strings,
                &children,
                "manifest".as_bytes(),
                "platformBuildVersionName".as_bytes(),
            ),
        ),
        min_sdk_version: opt_parse_u32(
            find_value_in(strings, &children, "uses-sdk".as_bytes(), "minSdkVersion".as_bytes()),
        ),
        target_sdk_version: opt_parse_u32(
            find_value_in(strings, &children, "uses-sdk".as_bytes(), "targetSdkVersion".as_bytes()),
        ),
        max_sdk_version: opt_parse_u32(
            find_value_in(strings, &children, "uses-sdk".as_bytes(), "maxSdkVersion".as_bytes()),
        ),
        theme: find_value_in(strings, &children, "application".as_bytes(), "theme".as_bytes()),
        label: find_value_in(strings, &children, "application".as_bytes(), "label".as_bytes()),
        icon: find_value_in(strings, &children, "application".as_bytes(), "icon".as_bytes()),
    };
    Ok(facts)
}

} // verus!
