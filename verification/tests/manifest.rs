use nap::axml::{Attribute, Chunk, Element, TypedValue};
use nap::errors::AxmlError;
use nap::manifest::{find_value_in, parse_android_manifest};

fn push_u16(out: &mut Vec<u8>, v: u16) {
    out.extend_from_slice(&v.to_le_bytes());
}

fn push_u32(out: &mut Vec<u8>, v: u32) {
    out.extend_from_slice(&v.to_le_bytes());
}

fn push_i32(out: &mut Vec<u8>, v: i32) {
    out.extend_from_slice(&v.to_le_bytes());
}

fn utf8_pool(strings: &[&str]) -> Vec<u8> {
    let mut body = Vec::new();
    for s in strings {
        body.push(s.chars().count() as u8);
        body.push(s.len() as u8);
        body.extend_from_slice(s.as_bytes());
        body.push(0);
    }
    let count = strings.len() as u32;
    let header_and_offsets = 28 + 4 * count;
    let size = header_and_offsets + body.len() as u32;
    let mut out = Vec::new();
    push_u16(&mut out, 0x0001);
    push_u16(&mut out, 28);
    push_u32(&mut out, size);
    push_u32(&mut out, count);
    push_u32(&mut out, 0); // style count
    push_u32(&mut out, 0x100); // UTF-8 flag
    push_u32(&mut out, header_and_offsets);
    push_u32(&mut out, 0);
    for _ in 0..count {
        push_u32(&mut out, 0); // string offsets, stored but unused
    }
    out.extend_from_slice(&body);
    out
}

fn utf16_pool(strings: &[&str]) -> Vec<u8> {
    let mut body = Vec::new();
    for s in strings {
        let units: Vec<u16> = s.encode_utf16().collect();
        push_u16(&mut body, units.len() as u16);
        for u in &units {
            push_u16(&mut body, *u);
        }
        push_u16(&mut body, 0);
    }
    let count = strings.len() as u32;
    let header_and_offsets = 28 + 4 * count;
    let size = header_and_offsets + body.len() as u32;
    let mut out = Vec::new();
    push_u16(&mut out, 0x0001);
    push_u16(&mut out, 28);
    push_u32(&mut out, size);
    push_u32(&mut out, count);
    push_u32(&mut out, 0);
    push_u32(&mut out, 0); // UTF-16
    push_u32(&mut out, header_and_offsets);
    push_u32(&mut out, 0);
    for _ in 0..count {
        push_u32(&mut out, 0);
    }
    out.extend_from_slice(&body);
    out
}

fn start_element(name_idx: i32, attrs: &[(i32, i32, u8, i32)]) -> Vec<u8> {
    let size = 36 + 20 * attrs.len() as u32;
    let mut out = Vec::new();
    push_u16(&mut out, 0x0102);
    push_u16(&mut out, 16);
    push_u32(&mut out, size);
    push_u32(&mut out, 1); // line number
    push_i32(&mut out, -1); // comment
    push_i32(&mut out, -1); // namespace
    push_i32(&mut out, name_idx);
    push_u16(&mut out, 0x14); // attribute start
    push_u16(&mut out, 0x14); // attribute size
    push_u16(&mut out, attrs.len() as u16);
    push_u16(&mut out, 0);
    push_u16(&mut out, 0);
    push_u16(&mut out, 0);
    for (name, raw, dtype, data) in attrs {
        push_i32(&mut out, -1);
        push_i32(&mut out, *name);
        push_i32(&mut out, *raw);
        push_u16(&mut out, 8);
        out.push(0);
        out.push(*dtype);
        push_i32(&mut out, *data);
    }
    out
}

fn xml_doc(children: &[Vec<u8>]) -> Vec<u8> {
    let inner: Vec<u8> = children.concat();
    let mut out = Vec::new();
    push_u16(&mut out, 0x0003);
    push_u16(&mut out, 8);
    push_u32(&mut out, 8 + inner.len() as u32);
    out.extend_from_slice(&inner);
    out
}

fn example_manifest() -> Vec<u8> {
    let pool = utf8_pool(&["manifest", "package", "com.example.app", "versionCode"]);
    let element = start_element(0, &[(1, 2, 3, 2), (3, 7, 16, 7)]);
    xml_doc(&[pool, element])
}

#[test]
fn find_value_resolves_string_reference() {
    let doc = example_manifest();
    let root = Chunk::parse(&doc).unwrap();
    let children = match root {
        Chunk::Xml { children } => children,
        c => panic!("unexpected root: {:?}", c),
    };
    let strings = match &children[0] {
        Chunk::StringPool { strings, .. } => strings.clone(),
        c => panic!("unexpected first child: {:?}", c),
    };
    let v = find_value_in(&strings, &children, b"manifest", b"package");
    assert_eq!(v, Some(b"com.example.app".to_vec()));
}

#[test]
fn parsed_facts_carry_version_code() {
    let doc = example_manifest();
    let facts = parse_android_manifest(&doc).unwrap();
    assert_eq!(facts.package, Some(b"com.example.app".to_vec()));
    assert_eq!(facts.version_code, Some(7));
    assert_eq!(facts.version_name, None);
    assert_eq!(facts.min_sdk_version, None);
}

#[test]
fn utf16_pool_reads_same_strings() {
    let pool = utf16_pool(&["manifest", "package", "com.example.app", "versionCode"]);
    let element = start_element(0, &[(1, 2, 3, 2)]);
    let doc = xml_doc(&[pool, element]);
    let facts = parse_android_manifest(&doc).unwrap();
    assert_eq!(facts.package, Some(b"com.example.app".to_vec()));
}

fn attr(name: i32, raw: i32, dtype: u8, data: i32) -> Attribute {
    Attribute {
        namespace: -1,
        name,
        raw_value: raw,
        typed_value: TypedValue {
            size: 8,
            res0: 0,
            data_type: dtype,
            data,
        },
    }
}

fn element_chunk(name: i32, attrs: Vec<Attribute>) -> Chunk {
    Chunk::XmlStartElement {
        line: 1,
        element: Element {
            namespace: -1,
            name,
        },
        attributes: attrs,
    }
}

#[test]
fn integer_attribute_renders_exact_decimal() {
    let strings: Vec<Vec<u8>> = vec![b"el".to_vec(), b"at".to_vec()];
    let chunks = vec![element_chunk(0, vec![attr(1, 7, 16, 7)])];
    assert_eq!(
        find_value_in(&strings, &chunks, b"el", b"at"),
        Some(b"7".to_vec())
    );

    let chunks = vec![element_chunk(0, vec![attr(1, 0, 16, 0)])];
    assert_eq!(
        find_value_in(&strings, &chunks, b"el", b"at"),
        Some(b"0".to_vec())
    );

    let chunks = vec![element_chunk(0, vec![attr(1, 0, 16, -42)])];
    assert_eq!(
        find_value_in(&strings, &chunks, b"el", b"at"),
        Some(b"-42".to_vec())
    );

    let chunks = vec![element_chunk(0, vec![attr(1, 0, 16, i32::MIN)])];
    assert_eq!(
        find_value_in(&strings, &chunks, b"el", b"at"),
        Some(b"-2147483648".to_vec())
    );
}

#[test]
fn string_attribute_returns_pool_entry_unchanged() {
    let strings: Vec<Vec<u8>> = vec![b"el".to_vec(), b"at".to_vec(), b"Mixed Case  ".to_vec()];
    let chunks = vec![element_chunk(0, vec![attr(1, 2, 3, 2)])];
    assert_eq!(
        find_value_in(&strings, &chunks, b"el", b"at"),
        Some(b"Mixed Case  ".to_vec())
    );
}

#[test]
fn out_of_range_string_reference_yields_nothing() {
    let strings: Vec<Vec<u8>> = vec![b"el".to_vec(), b"at".to_vec()];
    let chunks = vec![element_chunk(0, vec![attr(1, 9, 3, 9)])];
    assert_eq!(find_value_in(&strings, &chunks, b"el", b"at"), None);
}

#[test]
fn unknown_data_type_yields_nothing() {
    let strings: Vec<Vec<u8>> = vec![b"el".to_vec(), b"at".to_vec()];
    let chunks = vec![element_chunk(0, vec![attr(1, 5, 4, 5)])];
    assert_eq!(find_value_in(&strings, &chunks, b"el", b"at"), None);
}

#[test]
fn later_element_answers_when_first_lacks_attribute() {
    let strings: Vec<Vec<u8>> = vec![b"el".to_vec(), b"at".to_vec()];
    let chunks = vec![
        element_chunk(0, vec![]),
        element_chunk(0, vec![attr(1, 0, 16, 5)]),
    ];
    assert_eq!(
        find_value_in(&strings, &chunks, b"el", b"at"),
        Some(b"5".to_vec())
    );
}

#[test]
fn absent_names_yield_nothing() {
    let strings: Vec<Vec<u8>> = vec![b"el".to_vec()];
    let chunks = vec![element_chunk(0, vec![])];
    assert_eq!(find_value_in(&strings, &chunks, b"el", b"missing"), None);
    assert_eq!(find_value_in(&strings, &chunks, b"missing", b"el"), None);
}

#[test]
fn unknown_chunk_types_are_skipped_wholesale() {
    let pool = utf8_pool(&["manifest", "package", "com.example.app"]);
    // a chunk of an unrecognized type, 12 bytes long, contents arbitrary
    let mut stray = Vec::new();
    push_u16(&mut stray, 0x0777);
    push_u16(&mut stray, 8);
    push_u32(&mut stray, 12);
    push_u32(&mut stray, 0xdeadbeef);
    let element = start_element(0, &[(1, 2, 3, 2)]);
    let doc = xml_doc(&[pool, stray, element]);
    let facts = parse_android_manifest(&doc).unwrap();
    assert_eq!(facts.package, Some(b"com.example.app".to_vec()));
}

#[test]
fn truncated_chunk_fails() {
    let mut doc = example_manifest();
    doc.truncate(doc.len() - 1);
    // the root chunk's declared size now overruns the buffer
    assert_eq!(parse_android_manifest(&doc), Err(AxmlError::Truncated));
}

#[test]
fn non_xml_root_is_refused() {
    let pool = utf8_pool(&["manifest"]);
    assert_eq!(parse_android_manifest(&pool), Err(AxmlError::NotXml));
}

#[test]
fn missing_string_pool_is_refused() {
    let element = start_element(0, &[]);
    let doc = xml_doc(&[element]);
    assert_eq!(
        parse_android_manifest(&doc),
        Err(AxmlError::MissingStringPool)
    );
}

#[test]
fn unterminated_pool_string_fails() {
    let mut pool = utf8_pool(&["manifest"]);
    let last = pool.len() - 1;
    pool[last] = 1; // the terminator byte is no longer zero
    let doc = xml_doc(&[pool, start_element(0, &[])]);
    assert_eq!(parse_android_manifest(&doc), Err(AxmlError::BadString));
}
