use nap::errors::ApkError;
use nap::signing_block::{
    ApkSignatureAlgo, ApkSignatureBlock, ApkSigningBlock, V2_SIG_BLOCK_ID, V3_SIG_BLOCK_ID,
};

const MAGIC: &[u8] = b"APK Sig Block 42";

fn lv(payload: &[u8]) -> Vec<u8> {
    let mut out = (payload.len() as u32).to_le_bytes().to_vec();
    out.extend_from_slice(payload);
    out
}

fn kv_entry(key: u32, value: &[u8]) -> Vec<u8> {
    let mut inner = key.to_le_bytes().to_vec();
    inner.extend_from_slice(value);
    lv(&inner)
}

/// A digest or signature as stored in a key/value sequence: its own
/// 4-byte length prefix, then the bytes.
fn prefixed(bytes: &[u8]) -> Vec<u8> {
    let mut out = (bytes.len() as u32).to_le_bytes().to_vec();
    out.extend_from_slice(bytes);
    out
}

/// A scheme V2 entry value holding one digest and one signature under
/// `algo_id`, no certificates and no attributes.
fn v2_value(digest_algo_id: u32, digest: &[u8], sig_algo_id: u32, signature: &[u8]) -> Vec<u8> {
    let digests = kv_entry(digest_algo_id, &prefixed(digest));
    let signed_data = [lv(&digests), lv(&[]), lv(&[])].concat();
    let signatures = kv_entry(sig_algo_id, &prefixed(signature));
    let public_key = [0x01u8, 0x02];
    let payload = [lv(&signed_data), lv(&signatures), lv(&public_key)].concat();
    let mut out = (payload.len() as u32).to_le_bytes().to_vec();
    out.extend_from_slice(&payload);
    out
}

/// A scheme V3 entry value with the two SDK pairs given separately.
fn v3_value(signed_pair: (u32, u32), outer_pair: (u32, u32)) -> Vec<u8> {
    let digests = kv_entry(0x0103, &prefixed(&[0xde, 0xad]));
    let mut signed_data = lv(&digests);
    signed_data.extend_from_slice(&lv(&[])); // certificates
    signed_data.extend_from_slice(&signed_pair.0.to_le_bytes());
    signed_data.extend_from_slice(&signed_pair.1.to_le_bytes());
    signed_data.extend_from_slice(&lv(&[])); // attributes
    let signatures = kv_entry(0x0103, &prefixed(&[0xbe, 0xef]));
    let mut v3b = lv(&signed_data);
    v3b.extend_from_slice(&outer_pair.0.to_le_bytes());
    v3b.extend_from_slice(&outer_pair.1.to_le_bytes());
    v3b.extend_from_slice(&lv(&signatures));
    v3b.extend_from_slice(&lv(&[0x0a, 0x0b])); // public key
    // the whole payload behind one more length prefix, itself preceded by
    // the outer 4 length bytes the decoder steps over
    lv(&lv(&v3b))
}

/// A whole file image with a signing block holding the given entries,
/// followed by trailing bytes standing in for the central directory.
fn file_with_block(entries: &[(u32, Vec<u8>)]) -> Vec<u8> {
    let mut body = Vec::new();
    for (id, value) in entries {
        body.extend_from_slice(&((value.len() + 4) as u64).to_le_bytes());
        body.extend_from_slice(&id.to_le_bytes());
        body.extend_from_slice(value);
    }
    let size = (body.len() + 24) as u64;
    let mut file = vec![0u8; 32]; // stands in for zip data
    file.extend_from_slice(&size.to_le_bytes());
    file.extend_from_slice(&body);
    file.extend_from_slice(&size.to_le_bytes());
    file.extend_from_slice(MAGIC);
    file.extend_from_slice(&[0u8; 22]); // stands in for the central directory
    file
}

#[test]
fn locator_no_magic_fails() {
    let data = vec![7u8; 300];
    let r = ApkSigningBlock::from_bytes(&data);
    assert_eq!(r.unwrap_err(), ApkError::SigningBlockNotFound);
}

#[test]
fn locator_short_buffer_fails() {
    let e = ApkSigningBlock::from_bytes(&[1, 2, 3]).unwrap_err();
    assert_eq!(e, ApkError::SigningBlockNotFound);
    assert!(e.is_malformed_container());
}

#[test]
fn locator_inconsistent_sizes() {
    let mut file = file_with_block(&[(0x1234, vec![0u8; 4])]);
    // corrupt the leading size field (size2) by one
    let size2_pos = 32;
    file[size2_pos] = file[size2_pos].wrapping_add(1);
    let r = ApkSigningBlock::from_bytes(&file);
    match r.unwrap_err() {
        ApkError::InconsistentBlockSize { size1, size2 } => {
            assert_eq!(size1, 40);
            assert_eq!(size2, 41);
        }
        e => panic!("unexpected error: {:?}", e),
    }
}

#[test]
fn locator_block_larger_than_file() {
    let mut file = file_with_block(&[(0x1234, vec![0u8; 4])]);
    // the trailing size field sits 8 bytes before the magic
    let magic_pos = file.len() - 22 - 16;
    let huge = (file.len() as u64 + 100).to_le_bytes();
    file[magic_pos - 8..magic_pos].copy_from_slice(&huge);
    let r = ApkSigningBlock::from_bytes(&file);
    match r.unwrap_err() {
        ApkError::BlockLargerThanFile { size, file_len } => {
            assert_eq!(size, file.len() as u64 + 100);
            assert_eq!(file_len, file.len() as u64);
        }
        e => panic!("unexpected error: {:?}", e),
    }
}

#[test]
fn locator_reads_entries_exactly() {
    let file = file_with_block(&[(0x1234, vec![9u8; 4]), (0x5678, vec![8u8; 2])]);
    let block = ApkSigningBlock::from_bytes(&file).unwrap();
    assert_eq!(block.data.len(), 2);
    assert_eq!(block.data[0], (0x1234, vec![9u8; 4]));
    assert_eq!(block.data[1], (0x5678, vec![8u8; 2]));
    assert_eq!(block.size, (8 + 4 + 4) as u64 + (8 + 4 + 2) as u64 + 24);
}

#[test]
fn locator_entry_sum_off_by_one_fails() {
    // a body one byte longer than its entries: the running remainder
    // cannot land exactly on zero
    let mut body = Vec::new();
    body.extend_from_slice(&(4u64 + 4).to_le_bytes());
    body.extend_from_slice(&0x1234u32.to_le_bytes());
    body.extend_from_slice(&[9u8; 4]);
    body.push(0); // one stray byte the entries cannot consume
    let size = (body.len() + 24) as u64;
    let mut file = vec![0u8; 32];
    file.extend_from_slice(&size.to_le_bytes());
    file.extend_from_slice(&body);
    file.extend_from_slice(&size.to_le_bytes());
    file.extend_from_slice(MAGIC);
    file.extend_from_slice(&[0u8; 22]);
    let e = ApkSigningBlock::from_bytes(&file).unwrap_err();
    assert_eq!(e, ApkError::TruncatedSigningBlock);
    assert!(e.is_malformed_container());
}

#[test]
fn locator_takes_magic_nearest_the_end() {
    // a decoy copy of the magic early in the file: the backward scan
    // reaches the real trailer first
    let mut file = file_with_block(&[(0x1234, vec![9u8; 4])]);
    let mut with_decoy = vec![0u8; 24];
    with_decoy.extend_from_slice(MAGIC);
    with_decoy.extend_from_slice(&file);
    file = with_decoy;
    let block = ApkSigningBlock::from_bytes(&file).unwrap();
    assert_eq!(block.data, vec![(0x1234, vec![9u8; 4])]);
}

#[test]
fn locator_empty_body_is_exact() {
    let file = file_with_block(&[]);
    let block = ApkSigningBlock::from_bytes(&file).unwrap();
    assert_eq!(block.data.len(), 0);
    assert_eq!(block.size, 24);
}

#[test]
fn v2_block_decodes_one_signature() {
    let value = v2_value(0x0103, &[0xde, 0xad], 0x0103, &[0xbe, 0xef]);
    let file = file_with_block(&[(V2_SIG_BLOCK_ID, value)]);
    let block = ApkSigningBlock::from_bytes(&file).unwrap();
    let sigs = block.get_signatures().unwrap();
    assert_eq!(sigs.len(), 1);
    match &sigs[0] {
        ApkSignatureBlock::V2 {
            signatures,
            public_key,
            certificates,
            attributes,
        } => {
            assert_eq!(signatures.len(), 1);
            assert!(matches!(
                signatures[0].algo,
                ApkSignatureAlgo::RsaSsaPkcs1Sha256
            ));
            assert_eq!(signatures[0].digest, vec![0xde, 0xad]);
            assert_eq!(signatures[0].signature, vec![0xbe, 0xef]);
            assert_eq!(public_key, &vec![0x01, 0x02]);
            assert!(certificates.is_empty());
            assert!(attributes.is_empty());
        }
        b => panic!("unexpected block: {:?}", b),
    }
}

#[test]
fn unknown_entry_ids_are_ignored() {
    let value = v2_value(0x0103, &[0xde, 0xad], 0x0103, &[0xbe, 0xef]);
    let file = file_with_block(&[(0x0badf00d, vec![1, 2, 3]), (V2_SIG_BLOCK_ID, value)]);
    let block = ApkSigningBlock::from_bytes(&file).unwrap();
    let sigs = block.get_signatures().unwrap();
    assert_eq!(sigs.len(), 1);
}

#[test]
fn unknown_algorithm_drops_only_that_signature() {
    // two signatures: one under an unregistered id, one registered
    let digests = [
        kv_entry(0x0103, &prefixed(&[0xde, 0xad])),
        kv_entry(0x7777, &prefixed(&[0x11])),
    ]
    .concat();
    let signed_data = [lv(&digests), lv(&[]), lv(&[])].concat();
    let signatures = [
        kv_entry(0x7777, &prefixed(&[0x22])),
        kv_entry(0x0103, &prefixed(&[0xbe, 0xef])),
    ]
    .concat();
    let payload = [lv(&signed_data), lv(&signatures), lv(&[0x01])].concat();
    let mut value = (payload.len() as u32).to_le_bytes().to_vec();
    value.extend_from_slice(&payload);
    let file = file_with_block(&[(V2_SIG_BLOCK_ID, value)]);
    let block = ApkSigningBlock::from_bytes(&file).unwrap();
    let sigs = block.get_signatures().unwrap();
    match &sigs[0] {
        ApkSignatureBlock::V2 { signatures, .. } => {
            assert_eq!(signatures.len(), 1);
            assert!(matches!(
                signatures[0].algo,
                ApkSignatureAlgo::RsaSsaPkcs1Sha256
            ));
            assert_eq!(signatures[0].signature, vec![0xbe, 0xef]);
        }
        b => panic!("unexpected block: {:?}", b),
    }
}

#[test]
fn missing_digest_drops_only_that_signature() {
    // two registered signatures, but only one has a digest under its id
    let digests = kv_entry(0x0103, &prefixed(&[0xde, 0xad]));
    let signed_data = [lv(&digests), lv(&[]), lv(&[])].concat();
    let signatures = [
        kv_entry(0x0201, &prefixed(&[0x22])),
        kv_entry(0x0103, &prefixed(&[0xbe, 0xef])),
    ]
    .concat();
    let payload = [lv(&signed_data), lv(&signatures), lv(&[0x01])].concat();
    let mut value = (payload.len() as u32).to_le_bytes().to_vec();
    value.extend_from_slice(&payload);
    let file = file_with_block(&[(V2_SIG_BLOCK_ID, value)]);
    let block = ApkSigningBlock::from_bytes(&file).unwrap();
    let sigs = block.get_signatures().unwrap();
    match &sigs[0] {
        ApkSignatureBlock::V2 { signatures, .. } => {
            assert_eq!(signatures.len(), 1);
            assert_eq!(signatures[0].signature, vec![0xbe, 0xef]);
            assert_eq!(signatures[0].digest, vec![0xde, 0xad]);
        }
        b => panic!("unexpected block: {:?}", b),
    }
}

#[test]
fn v3_equal_pairs_decode() {
    let value = v3_value((21, 33), (21, 33));
    let file = file_with_block(&[(V3_SIG_BLOCK_ID, value)]);
    let block = ApkSigningBlock::from_bytes(&file).unwrap();
    let sigs = block.get_signatures().unwrap();
    match &sigs[0] {
        ApkSignatureBlock::V3 {
            signatures,
            min_sdk,
            max_sdk,
            public_key,
            ..
        } => {
            assert_eq!((*min_sdk, *max_sdk), (21, 33));
            assert_eq!(signatures.len(), 1);
            assert_eq!(signatures[0].digest, vec![0xde, 0xad]);
            assert_eq!(signatures[0].signature, vec![0xbe, 0xef]);
            assert_eq!(public_key, &vec![0x0a, 0x0b]);
        }
        b => panic!("unexpected block: {:?}", b),
    }
}

#[test]
fn v3_equal_boundary_pair_decodes() {
    let value = v3_value((28, 28), (28, 28));
    let file = file_with_block(&[(V3_SIG_BLOCK_ID, value)]);
    let block = ApkSigningBlock::from_bytes(&file).unwrap();
    let sigs = block.get_signatures().unwrap();
    match &sigs[0] {
        ApkSignatureBlock::V3 {
            min_sdk, max_sdk, ..
        } => {
            assert_eq!((*min_sdk, *max_sdk), (28, 28));
        }
        b => panic!("unexpected block: {:?}", b),
    }
}

#[test]
fn v3_mismatched_pairs_fail() {
    let value = v3_value((21, 33), (22, 33));
    let file = file_with_block(&[(V3_SIG_BLOCK_ID, value)]);
    let block = ApkSigningBlock::from_bytes(&file).unwrap();
    let e = block.get_signatures().unwrap_err();
    assert_eq!(e, ApkError::SignedSdkMismatch);
    assert!(e.is_cross_check_mismatch());

    let value = v3_value((21, 33), (21, 34));
    let file = file_with_block(&[(V3_SIG_BLOCK_ID, value)]);
    let block = ApkSigningBlock::from_bytes(&file).unwrap();
    assert_eq!(
        block.get_signatures().unwrap_err(),
        ApkError::SignedSdkMismatch
    );
}

#[test]
fn v2_wrong_element_count_fails() {
    // a payload of two elements instead of three
    let payload = [lv(&[1, 2, 3, 4]), lv(&[5, 6])].concat();
    let mut value = (payload.len() as u32).to_le_bytes().to_vec();
    value.extend_from_slice(&payload);
    let file = file_with_block(&[(V2_SIG_BLOCK_ID, value)]);
    let block = ApkSigningBlock::from_bytes(&file).unwrap();
    assert_eq!(
        block.get_signatures().unwrap_err(),
        ApkError::MalformedContainer
    );
}

#[test]
fn oversized_length_prefix_fails() {
    // the inner sequence claims more bytes than remain
    let payload = [lv(&[0u8; 8]), lv(&[0u8; 4]), lv(&[0u8; 2])].concat();
    let mut bad = payload.clone();
    // corrupt the first element's length to overrun
    bad[4] = 0xff;
    let mut value = (bad.len() as u32).to_le_bytes().to_vec();
    value.extend_from_slice(&bad);
    let file = file_with_block(&[(V2_SIG_BLOCK_ID, value)]);
    let block = ApkSigningBlock::from_bytes(&file).unwrap();
    let e = block.get_signatures().unwrap_err();
    assert_eq!(e, ApkError::TruncatedOrOversized);
    assert!(e.is_truncated_slice());
}

#[test]
fn algo_registry_is_closed() {
    assert!(matches!(
        ApkSignatureAlgo::try_from(0x0101),
        Some(ApkSignatureAlgo::RsaSsaPssSha256)
    ));
    assert!(matches!(
        ApkSignatureAlgo::try_from(0x0102),
        Some(ApkSignatureAlgo::RsaSsaPssSha512)
    ));
    assert!(matches!(
        ApkSignatureAlgo::try_from(0x0103),
        Some(ApkSignatureAlgo::RsaSsaPkcs1Sha256)
    ));
    assert!(matches!(
        ApkSignatureAlgo::try_from(0x0104),
        Some(ApkSignatureAlgo::RsaSsaPkcs1Sha512)
    ));
    assert!(matches!(
        ApkSignatureAlgo::try_from(0x0201),
        Some(ApkSignatureAlgo::EcdsaSha256)
    ));
    assert!(matches!(
        ApkSignatureAlgo::try_from(0x0202),
        Some(ApkSignatureAlgo::EcdsaSha512)
    ));
    assert!(matches!(
        ApkSignatureAlgo::try_from(0x0301),
        Some(ApkSignatureAlgo::DsaSha256)
    ));
    assert!(ApkSignatureAlgo::try_from(0x0105).is_none());
    assert!(ApkSignatureAlgo::try_from(0).is_none());
}

#[test]
fn block_render_shows_hex() {
    let value = v2_value(0x0103, &[0xde, 0xad], 0x0103, &[0xbe, 0xef]);
    let file = file_with_block(&[(V2_SIG_BLOCK_ID, value)]);
    let block = ApkSigningBlock::from_bytes(&file).unwrap();
    let sigs = block.get_signatures().unwrap();
    let text = String::from_utf8(sigs[0].render()).unwrap();
    assert_eq!(text, "v2: algo=RSASSA-PKCS1-SHA256, digest=dead, sig=beef");
}
