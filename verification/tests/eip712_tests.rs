use alloy::primitives::{keccak256, Address, B256, U256};
use rusty_poly_streak_rsi::eip712::{
    clob_auth_domain_separator, clob_auth_signing_hash, ctf_domain_separator, order_signing_hash,
    sig_to_hex, CLOB_AUTH_MSG, CTF_EXCHANGE_ADDR, POLYGON_CHAIN_ID,
};
use std::str::FromStr;

fn word(n: u64) -> [u8; 32] {
    U256::from(n).to_be_bytes::<32>()
}

fn address(s: &str) -> [u8; 20] {
    Address::from_str(s).unwrap().0 .0
}

#[test]
fn test_ctf_domain_separator_is_deterministic() {
    let sep1 = ctf_domain_separator().unwrap();
    let sep2 = ctf_domain_separator().unwrap();
    assert_eq!(sep1, sep2);
    assert_ne!(sep1, [0u8; 32], "domain separator ne doit pas être zéro");
}

#[test]
fn test_clob_auth_domain_separator_is_deterministic() {
    let sep1 = clob_auth_domain_separator();
    let sep2 = clob_auth_domain_separator();
    assert_eq!(sep1, sep2);
    assert_ne!(sep1, [0u8; 32]);
}

#[test]
fn test_order_signing_hash_is_deterministic() {
    let salt = word(12345);
    let maker = address("0x0000000000000000000000000000000000000001");
    let token_id = word(9999);
    let h1 = order_signing_hash(salt, maker, token_id, word(10_000_000), word(1), word(0), 0, 0)
        .unwrap();
    let h2 = order_signing_hash(salt, maker, token_id, word(10_000_000), word(1), word(0), 0, 0)
        .unwrap();
    assert_eq!(h1, h2);
    assert_ne!(h1, B256::ZERO.0);
}

#[test]
fn test_clob_auth_signing_hash_is_deterministic() {
    let addr = address("0x0000000000000000000000000000000000000001");
    let h1 = clob_auth_signing_hash(addr, "1742256000", 0).unwrap();
    let h2 = clob_auth_signing_hash(addr, "1742256000", 0).unwrap();
    assert_eq!(h1, h2);
}

#[test]
fn ctf_domain_separator_hashes_the_domain_fields() {
    let mut buf = Vec::new();
    buf.extend_from_slice(
        keccak256(
            b"EIP712Domain(string name,string version,uint256 chainId,address verifyingContract)",
        )
        .as_slice(),
    );
    buf.extend_from_slice(keccak256(b"Polymarket CTF Exchange").as_slice());
    buf.extend_from_slice(keccak256(b"2").as_slice());
    buf.extend_from_slice(&word(POLYGON_CHAIN_ID));
    buf.extend_from_slice(&[0u8; 12]);
    buf.extend_from_slice(&address(CTF_EXCHANGE_ADDR));
    assert_eq!(buf.len(), 160);
    assert_eq!(ctf_domain_separator().unwrap(), keccak256(&buf).0);
}

#[test]
fn clob_auth_signing_hash_follows_the_typed_data_layout() {
    let addr = address("0x00000000000000000000000000000000000000aa");
    let mut fields = Vec::new();
    fields.extend_from_slice(
        keccak256(b"ClobAuth(address address,string timestamp,uint256 nonce,string message)")
            .as_slice(),
    );
    fields.extend_from_slice(&[0u8; 12]);
    fields.extend_from_slice(&addr);
    fields.extend_from_slice(keccak256(b"1742256000").as_slice());
    fields.extend_from_slice(&word(3));
    fields.extend_from_slice(keccak256(CLOB_AUTH_MSG.as_bytes()).as_slice());
    let mut digest = vec![0x19u8, 0x01u8];
    digest.extend_from_slice(&clob_auth_domain_separator());
    digest.extend_from_slice(keccak256(&fields).as_slice());
    assert_eq!(
        clob_auth_signing_hash(addr, "1742256000", 3).unwrap(),
        keccak256(&digest).0
    );
}

#[test]
fn order_hash_depends_on_side_and_amounts() {
    let maker = address("0x0000000000000000000000000000000000000001");
    let buy = order_signing_hash(word(1), maker, word(2), word(3), word(4), word(0), 0, 0).unwrap();
    let sell = order_signing_hash(word(1), maker, word(2), word(3), word(4), word(0), 1, 0).unwrap();
    let more = order_signing_hash(word(1), maker, word(2), word(30), word(4), word(0), 0, 0).unwrap();
    assert_ne!(buy, sell);
    assert_ne!(buy, more);
}

#[test]
fn signature_text_is_r_s_and_v() {
    let mut r = [0u8; 32];
    r[31] = 0xab;
    let mut s = [0u8; 32];
    s[0] = 0x01;
    let text = sig_to_hex(r, s, true);
    assert_eq!(text.len(), 2 + 130);
    assert!(text.starts_with("0x"));
    assert_eq!(&text[2..66], &format!("{}ab", "0".repeat(62)));
    assert_eq!(&text[66..68], "01");
    assert!(text.ends_with("1c"));
    assert!(sig_to_hex(r, s, false).ends_with("1b"));
}

#[test]
fn exchange_domain_separator_is_always_available() {
    assert!(ctf_domain_separator().is_ok());
    let maker = address("0x00000000000000000000000000000000000000ff");
    assert!(order_signing_hash(word(9), maker, word(8), word(7), word(6), word(5), 1, 2).is_ok());
}
