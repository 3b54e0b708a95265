use crypto::digest::Digest;
use redstone::block::{Block, BlockError, TARGET_HEXS};
use redstone::digest::{digest_bytes, merge_digests};
use redstone::text::to_hex;
use redstone::transaction::Transaction;

fn coinbase() -> Transaction {
    Transaction::new("cb01".to_string(), vec![1, 2, 3])
}

fn sha256_hex(data: &[u8]) -> String {
    let mut h = crypto::sha2::Sha256::new();
    h.input(data);
    h.result_str()
}

fn header_bytes(b: &Block, tx_root: &[u8], nonce: i32) -> Vec<u8> {
    bincode::serialize(&(
        b.get_header(),
        b.get_prev_hash(),
        b.get_prev_hash_other(),
        tx_root.to_vec(),
        b.get_timestamp(),
        TARGET_HEXS,
        nonce,
    ))
    .unwrap()
}

#[test]
fn sealed_block_hash_has_four_leading_zeros() {
    let root = vec![7u8; 32];
    let b = Block::new_block_at(
        vec![coinbase()],
        "prev".to_string(),
        "other".to_string(),
        "Chain 1".to_string(),
        3,
        1_600_000_000_000,
        &root,
    )
    .unwrap();
    let hash = b.get_hash();
    assert_eq!(hash.len(), 64);
    assert!(hash.starts_with("0000"));
    assert_eq!(b.get_height(), 3);
    assert_eq!(b.get_prev_hash(), "prev");
    assert_eq!(b.get_prev_hash_other(), "other");
    assert_eq!(b.get_header(), "Chain 1");
    assert_eq!(b.get_timestamp(), 1_600_000_000_000);
    assert_eq!(b.get_transaction().len(), 1);
    assert_eq!(b.get_transaction()[0].id, "cb01");
    // The hash is the hex SHA-256 digest of the bincode-encoded header tuple.
    assert_eq!(hash, sha256_hex(&header_bytes(&b, &root, b.get_nonce())));
    assert_eq!(b.validate(&root), Some(true));
}

#[test]
fn sealed_block_nonce_is_the_first_that_meets_the_target() {
    let root = vec![9u8; 32];
    let b = Block::new_block_at(
        Vec::new(),
        String::new(),
        "x".to_string(),
        "Chain 2".to_string(),
        1,
        42,
        &root,
    )
    .unwrap();
    let n = b.get_nonce();
    assert!(n >= 0);
    // Mining is deterministic given contents and timestamp.
    let again = Block::new_block_at(Vec::new(), String::new(), "x".to_string(), "Chain 2".to_string(), 1, 42, &root)
        .unwrap();
    assert_eq!(again.get_nonce(), n);
    assert_eq!(again.get_hash(), b.get_hash());
    for k in 0..n {
        assert!(!sha256_hex(&header_bytes(&b, &root, k)).starts_with("0000"));
    }
    let earlier = Block::from_parts(
        b.get_header(),
        b.get_timestamp(),
        Vec::new(),
        b.get_prev_hash(),
        b.get_prev_hash_other(),
        b.get_hash(),
        if n > 0 { n - 1 } else { 0 },
        b.get_height(),
    );
    if n > 0 {
        assert_eq!(earlier.validate(&root), Some(false));
    }
}

#[test]
fn header_encoding_is_bincode_layout() {
    let root = vec![0xaau8, 0xbb];
    let b = Block::from_parts(
        "H".to_string(),
        0x0102,
        Vec::new(),
        "p".to_string(),
        "".to_string(),
        String::new(),
        -2,
        0,
    );
    let bytes = header_bytes(&b, &root, -2);
    let mut expected = Vec::new();
    expected.extend_from_slice(&1u64.to_le_bytes());
    expected.push(b'H');
    expected.extend_from_slice(&1u64.to_le_bytes());
    expected.push(b'p');
    expected.extend_from_slice(&0u64.to_le_bytes());
    expected.extend_from_slice(&2u64.to_le_bytes());
    expected.extend_from_slice(&[0xaa, 0xbb]);
    expected.extend_from_slice(&0x0102u128.to_le_bytes());
    expected.extend_from_slice(&4u64.to_le_bytes());
    expected.extend_from_slice(&(-2i32).to_le_bytes());
    assert_eq!(bytes, expected);
}

#[test]
fn genesis_block_of_each_chain() {
    let root = digest_bytes(b"cb01");
    let g1 = Block::new_genesis_block(coinbase(), 1, &root).unwrap();
    assert_eq!(g1.get_header(), "Chain 1");
    assert_eq!(g1.get_prev_hash(), "");
    assert_eq!(g1.get_prev_hash_other(), "Genessis block");
    assert_eq!(g1.get_height(), 0);
    assert_eq!(g1.get_transaction().len(), 1);
    assert!(g1.get_hash().starts_with("0000"));
    assert_eq!(g1.validate(&root), Some(true));
    let g2 = Block::new_genesis_block(coinbase(), 2, &root).unwrap();
    assert_eq!(g2.get_header(), "Chain 2");
    assert!(g2.get_hash().starts_with("0000"));
}

#[test]
fn new_block_is_stamped_with_the_clock() {
    let root = vec![1u8];
    let before = std::time::SystemTime::now()
        .duration_since(std::time::UNIX_EPOCH)
        .unwrap()
        .as_millis();
    let b = Block::new_block(
        vec![coinbase()],
        "a".to_string(),
        "b".to_string(),
        "Chain 1".to_string(),
        5,
        &root,
    )
    .unwrap();
    assert!(b.get_timestamp() >= before);
    assert!(b.get_hash().starts_with("0000"));
    assert_eq!(b.validate(&root), Some(true));
}

#[test]
fn block_error_variants_are_distinct() {
    assert_ne!(BlockError::Clock, BlockError::NonceExhausted);
}

#[test]
fn duplicate_keeps_every_field() {
    let root = vec![3u8; 4];
    let b = Block::new_block_at(vec![coinbase()], "p".into(), "o".into(), "Chain 1".into(), 2, 9, &root)
        .unwrap();
    let c = b.duplicate();
    assert_eq!(c.get_hash(), b.get_hash());
    assert_eq!(c.get_nonce(), b.get_nonce());
    assert_eq!(c.get_transaction()[0].data, vec![1, 2, 3]);
    assert_eq!(c.validate(&root), Some(true));
}

#[test]
fn sha256_known_vector() {
    assert_eq!(
        to_hex(&digest_bytes(b"abc")),
        "ba7816bf8f01cfea414140de5dae2223b00361a396177a9cb410ff61f20015ad"
    );
    assert_eq!(digest_bytes(b"").len(), 32);
}

#[test]
fn merge_is_digest_of_concatenation() {
    let l = digest_bytes(b"left");
    let r = digest_bytes(b"right");
    let mut both = l.clone();
    both.extend_from_slice(&r);
    assert_eq!(merge_digests(&l, &r), digest_bytes(&both));
    assert_ne!(merge_digests(&l, &r), merge_digests(&r, &l));
}

#[test]
fn hex_is_lower_case_two_digits_per_byte() {
    assert_eq!(to_hex(&[0x00, 0x0f, 0xde, 0xad, 0xff]), "000fdeadff");
    assert_eq!(to_hex(&[]), "");
}
