//! The EIP-712 digests that the bot signs: the order of the CTF Exchange
//! contract, and the `ClobAuth` message of the L1 authentication; and the
//! text form of a signature.
use std::str::FromStr;
use vstd::prelude::*;

verus! {

/// Chain id of Polygon mainnet.
pub const POLYGON_CHAIN_ID: u64 = 137;

/// Address of the CTF Exchange contract.
pub const CTF_EXCHANGE_ADDR: &'static str = "0xE111180000d2663C0091e4f400237545B87B996B";

/// The message that the L1 authentication signs.
pub const CLOB_AUTH_MSG: &'static str = "This message attests that I control the given wallet";

/// The UTF-8 bytes of `s`.
pub open spec fn utf8_bytes(s: &str) -> Seq<u8> {
    vstd::string::StringSliceAdditionalSpecFns::spec_bytes(s)
}

/// The Keccak-256 digest of `data`.
pub uninterp spec fn keccak(data: Seq<u8>) -> Seq<u8>;

/// `alloy::primitives::keccak256`: the 32 bytes of the named digest of
/// `data`.
#[verifier::external_body]
fn keccak256(data: &[u8]) -> (r: [u8; 32])
    ensures
        r@ == keccak(data@),
{
    alloy::primitives::keccak256(data).0
}

/// The value of the hexadecimal digit `b` (an ASCII byte), in either case.
pub open spec fn hex_value(b: u8) -> Option<int> {
    if 48 <= b <= 57 {
        Some(b - 48)
    } else if 97 <= b <= 102 {
        Some(b - 87)
    } else if 65 <= b <= 70 {
        Some(b - 55)
    } else {
        None
    }
}

/// The bytes written in hexadecimal by `digits`, two digits per byte.
pub open spec fn hex_pairs(digits: Seq<u8>) -> Option<Seq<u8>>
    decreases digits.len(),
{
    if digits.len() < 2 {
        if digits.len() == 0 {
            Some(Seq::empty())
        } else {
            None
        }
    } else {
        match (hex_value(digits[0]), hex_value(digits[1]), hex_pairs(digits.skip(2))) {
            (Some(h), Some(l), Some(rest)) => Some(seq![(h * 16 + l) as u8] + rest),
            _ => None,
        }
    }
}

/// The `n` bytes that the text `text` (its UTF-8 bytes) writes in
/// hexadecimal, after an optional `0x` or `0X` prefix.
pub open spec fn hex_decode(text: Seq<u8>, n: nat) -> Option<Seq<u8>> {
    let body = if text.len() >= 2 && text[0] == 48 && (text[1] == 120 || text[1] == 88) {
        text.skip(2)
    } else {
        text
    };
    if text.len() % 2 != 0 || body.len() != 2 * n {
        None
    } else {
        hex_pairs(body)
    }
}

/// `Address::from_str` of alloy: the 20 bytes written in hexadecimal by
/// `s`; `None` when it is not such a text.
#[verifier::external_body]
fn address_from_str(s: &str) -> (r: Option<[u8; 20]>)
    ensures
        match hex_decode(utf8_bytes(s), 20) {
            Some(a) => r matches Some(x) && x@ == a,
            None => r is None,
        },
{
    alloy::primitives::Address::from_str(s).ok().map(|a| a.0.0)
}

/// The `len` low bytes of `n`, most significant first.
pub open spec fn be_bytes(n: nat, len: nat) -> Seq<u8>
    decreases len,
{
    if len == 0 {
        Seq::empty()
    } else {
        be_bytes(n / 256, (len - 1) as nat).push((n % 256) as u8)
    }
}

/// The 32-byte word of an address: twelve zero bytes, then the address.
pub open spec fn address_word(a: Seq<u8>) -> Seq<u8> {
    Seq::new(12, |i: int| 0u8) + a
}

/// The 32-byte word of a `uint8`.
pub open spec fn uint8_word(b: u8) -> Seq<u8> {
    Seq::new(31, |i: int| 0u8).push(b)
}

/// A 32-byte word of zeros.
pub open spec fn zero_word() -> Seq<u8> {
    Seq::new(32, |i: int| 0u8)
}

/// The hash of a type or a string field: the digest of its UTF-8 bytes.
pub open spec fn text_hash(s: &str) -> Seq<u8> {
    keccak(utf8_bytes(s))
}

/// The fields of the CTF Exchange domain, each a 32-byte word.
pub open spec fn ctf_domain_bytes(contract: Seq<u8>) -> Seq<u8> {
    text_hash("EIP712Domain(string name,string version,uint256 chainId,address verifyingContract)")
        + text_hash("Polymarket CTF Exchange") + text_hash("2") + be_bytes(
        POLYGON_CHAIN_ID as nat,
        32,
    ) + address_word(contract)
}

/// The fields of the `ClobAuthDomain` domain (no verifying contract).
pub open spec fn clob_auth_domain_bytes() -> Seq<u8> {
    text_hash("EIP712Domain(string name,string version,uint256 chainId)") + text_hash(
        "ClobAuthDomain",
    ) + text_hash("1") + be_bytes(POLYGON_CHAIN_ID as nat, 32)
}

/// The fields of an order signed by its maker (signer = maker, no taker, no
/// expiration, nonce 0); the `uint256` fields are given as 32-byte
/// big-endian words.
pub open spec fn order_struct_bytes(
    salt: Seq<u8>,
    maker: Seq<u8>,
    token_id: Seq<u8>,
    maker_amount: Seq<u8>,
    taker_amount: Seq<u8>,
    fee_rate_bps: Seq<u8>,
    side: u8,
    signature_type: u8,
) -> Seq<u8> {
    text_hash(
        "Order(uint256 salt,address maker,address signer,address taker,uint256 tokenId,uint256 makerAmount,uint256 takerAmount,uint256 expiration,uint256 nonce,uint256 feeRateBps,uint8 side,uint8 signatureType)",
    ) + salt + address_word(maker) + address_word(maker) + zero_word() + token_id + maker_amount
        + taker_amount + zero_word() + zero_word() + fee_rate_bps + uint8_word(side) + uint8_word(
        signature_type,
    )
}

/// The fields of the `ClobAuth` message.
pub open spec fn clob_auth_struct_bytes(address: Seq<u8>, timestamp: Seq<u8>, nonce: u64) -> Seq<
    u8,
> {
    text_hash("ClobAuth(address address,string timestamp,uint256 nonce,string message)")
        + address_word(address) + keccak(timestamp) + be_bytes(nonce as nat, 32) + text_hash(
        CLOB_AUTH_MSG,
    )
}

/// The digest that is signed: `0x19 0x01`, the domain separator, then the
/// hash of the message.
pub open spec fn signing_digest(domain_separator: Seq<u8>, struct_hash: Seq<u8>) -> Seq<u8> {
    keccak(seq![0x19u8, 0x01u8] + domain_separator + struct_hash)
}

/// Why a digest could not be computed.
#[derive(Debug, PartialEq, Eq)]
pub enum Eip712Error {
    /// The address of the CTF Exchange contract is not a hexadecimal
    /// address.
    InvalidExchangeAddress,
}

/// Appends the bytes `b` to `out`.
fn push_bytes(out: &mut Vec<u8>, b: &[u8])
    ensures
        final(out)@ == old(out)@ + b@,
{
    let mut i: usize = 0;
    while i < b.len()
        invariant
            0 <= i <= b@.len(),
            out@ == old(out)@ + b@.take(i as int),
        decreases b@.len() - i,
    {
        out.push(b[i]);
        assert(b@.take(i as int + 1) =~= b@.take(i as int).push(b@[i as int]));
        i = i + 1;
    }
    assert(b@.take(b@.len() as int) =~= b@);
}

/// Appends `n` zero bytes to `out`.
fn push_zeros(out: &mut Vec<u8>, n: usize)
    ensures
        final(out)@ == old(out)@ + Seq::new(n as nat, |i: int| 0u8),
{
    let mut i: usize = 0;
    while i < n
        invariant
            0 <= i <= n,
            out@ == old(out)@ + Seq::new(i as nat, |k: int| 0u8),
        decreases n - i,
    {
        out.push(0u8);
        assert(old(out)@ + Seq::new((i + 1) as nat, |k: int| 0u8) =~= (old(out)@ + Seq::new(
            i as nat,
            |k: int| 0u8,
        )).push(0u8));
        i = i + 1;
    }
}

/// Appends the `len` low bytes of `n` to `out`, most significant first.
fn push_be(out: &mut Vec<u8>, n: u64, len: usize)
    ensures
        final(out)@ == old(out)@ + be_bytes(n as nat, len as nat),
    decreases len,
{
    if len > 0 {
        push_be(out, n / 256, len - 1);
        out.push((n % 256) as u8);
        assert(be_bytes(n as nat, len as nat) == be_bytes((n / 256) as nat, (len - 1) as nat).push(
            (n % 256) as u8,
        ));
        assert(final(out)@ =~= old(out)@ + be_bytes(n as nat, len as nat));
    } else {
        assert(final(out)@ =~= old(out)@ + be_bytes(n as nat, len as nat));
    }
}

/// Appends the 32-byte word of the address `a` to `out`.
fn push_address_word(out: &mut Vec<u8>, a: &[u8; 20])
    ensures
        final(out)@ == old(out)@ + address_word(a@),
{
    push_zeros(out, 12);
    push_bytes(out, a.as_slice());
    assert(final(out)@ =~= old(out)@ + address_word(a@));
}

/// Appends the 32-byte word of the `uint8` `b` to `out`.
fn push_uint8_word(out: &mut Vec<u8>, b: u8)
    ensures
        final(out)@ == old(out)@ + uint8_word(b),
{
    push_zeros(out, 31);
    out.push(b);
    assert(final(out)@ =~= old(out)@ + uint8_word(b));
}

/// The hash of the text `s`.
fn hash_text(s: &str) -> (r: [u8; 32])
    ensures
        r@ == text_hash(s),
{
    keccak256(s.as_bytes())
}

/// The digest of `0x19 0x01`, the domain separator and the message hash.
fn digest_of(domain_separator: &[u8; 32], struct_hash: &[u8; 32]) -> (r: [u8; 32])
    ensures
        r@ == signing_digest(domain_separator@, struct_hash@),
{
    let mut buf: Vec<u8> = Vec::new();
    buf.push(0x19u8);
    buf.push(0x01u8);
    push_bytes(&mut buf, domain_separator.as_slice());
    push_bytes(&mut buf, struct_hash.as_slice());
    assert(buf@ =~= seq![0x19u8, 0x01u8] + domain_separator@ + struct_hash@);
    keccak256(buf.as_slice())
}

/// The domain separator of the CTF Exchange contract on Polygon.
pub fn ctf_domain_separator() -> (r: Result<[u8; 32], Eip712Error>)
    ensures
        r is Ok,
        match hex_decode(utf8_bytes(CTF_EXCHANGE_ADDR), 20) {
            Some(a) => r matches Ok(h) && h@ == keccak(ctf_domain_bytes(a)),
            None => r == Err::<[u8; 32], Eip712Error>(Eip712Error::InvalidExchangeAddress),
        },
{
    proof {
        lemma_exchange_address_decodes();
    }
    let contract = match address_from_str(CTF_EXCHANGE_ADDR) {
        Some(a) => a,
        None => return Err(Eip712Error::InvalidExchangeAddress),
    };
    let mut buf: Vec<u8> = Vec::new();
    push_bytes(
        &mut buf,
        hash_text(
            "EIP712Domain(string name,string version,uint256 chainId,address verifyingContract)",
        ).as_slice(),
    );
    push_bytes(&mut buf, hash_text("Polymarket CTF Exchange").as_slice());
    push_bytes(&mut buf, hash_text("2").as_slice());
    push_be(&mut buf, POLYGON_CHAIN_ID, 32);
    push_address_word(&mut buf, &contract);
    assert(buf@ =~= ctf_domain_bytes(contract@));
    Ok(keccak256(buf.as_slice()))
}

/// The domain separator of `ClobAuthDomain` on Polygon.
pub fn clob_auth_domain_separator() -> (r: [u8; 32])
    ensures
        r@ == keccak(clob_auth_domain_bytes()),
{
    let mut buf: Vec<u8> = Vec::new();
    push_bytes(
        &mut buf,
        hash_text("EIP712Domain(string name,string version,uint256 chainId)").as_slice(),
    );
    push_bytes(&mut buf, hash_text("ClobAuthDomain").as_slice());
    push_bytes(&mut buf, hash_text("1").as_slice());
    push_be(&mut buf, POLYGON_CHAIN_ID, 32);
    assert(buf@ =~= clob_auth_domain_bytes());
    keccak256(buf.as_slice())
}

/// The digest that the maker signs for an order of the CTF Exchange; the
/// `uint256` fields are given as 32-byte big-endian words.
pub fn order_signing_hash(
    salt: [u8; 32],
    maker: [u8; 20],
    token_id: [u8; 32],
    maker_amount: [u8; 32],
    taker_amount: [u8; 32],
    fee_rate_bps: [u8; 32],
    side: u8,
    signature_type: u8,
) -> (r: Result<[u8; 32], Eip712Error>)
    ensures
        r is Ok,
        match hex_decode(utf8_bytes(CTF_EXCHANGE_ADDR), 20) {
            Some(a) => r matches Ok(h) && h@ == signing_digest(
                keccak(ctf_domain_bytes(a)),
                keccak(
                    order_struct_bytes(
                        salt@,
                        maker@,
                        token_id@,
                        maker_amount@,
                        taker_amount@,
                        fee_rate_bps@,
                        side,
                        signature_type,
                    ),
                ),
            ),
            None => r == Err::<[u8; 32], Eip712Error>(Eip712Error::InvalidExchangeAddress),
        },
{
    let mut buf: Vec<u8> = Vec::new();
    push_bytes(
        &mut buf,
        hash_text(
            "Order(uint256 salt,address maker,address signer,address taker,uint256 tokenId,uint256 makerAmount,uint256 takerAmount,uint256 expiration,uint256 nonce,uint256 feeRateBps,uint8 side,uint8 signatureType)",
        ).as_slice(),
    );
    push_bytes(&mut buf, salt.as_slice());
    push_address_word(&mut buf, &maker);
    push_address_word(&mut buf, &maker);
    push_zeros(&mut buf, 32);
    push_bytes(&mut buf, token_id.as_slice());
    push_bytes(&mut buf, maker_amount.as_slice());
    push_bytes(&mut buf, taker_amount.as_slice());
    push_zeros(&mut buf, 32);
    push_zeros(&mut buf, 32);
    push_bytes(&mut buf, fee_rate_bps.as_slice());
    push_uint8_word(&mut buf, side);
    push_uint8_word(&mut buf, signature_type);
    assert(buf@ =~= order_struct_bytes(
        salt@,
        maker@,
        token_id@,
        maker_amount@,
        taker_amount@,
        fee_rate_bps@,
        side,
        signature_type,
    ));
    let struct_hash = keccak256(buf.as_slice());
    let domain = ctf_domain_separator()?;
    Ok(digest_of(&domain, &struct_hash))
}

/// The digest signed by the L1 authentication of `address` at
/// `timestamp` with `nonce`.
pub fn clob_auth_signing_hash(address: [u8; 20], timestamp: &str, nonce: u64) -> (r: Result<
    [u8; 32],
    Eip712Error,
>)
    ensures
        r matches Ok(h) && h@ == signing_digest(
            keccak(clob_auth_domain_bytes()),
            keccak(clob_auth_struct_bytes(address@, utf8_bytes(timestamp), nonce)),
        ),
{
    let mut buf: Vec<u8> = Vec::new();
    push_bytes(
        &mut buf,
        hash_text("ClobAuth(address address,string timestamp,uint256 nonce,string message)").as_slice(),
    );
    push_address_word(&mut buf, &address);
    push_bytes(&mut buf, keccak256(timestamp.as_bytes()).as_slice());
    push_be(&mut buf, nonce, 32);
    push_bytes(&mut buf, hash_text(CLOB_AUTH_MSG).as_slice());
    assert(buf@ =~= clob_auth_struct_bytes(address@, utf8_bytes(timestamp), nonce));
    let struct_hash = keccak256(buf.as_slice());
    let domain = clob_auth_domain_separator();
    Ok(digest_of(&domain, &struct_hash))
}

/// The lowercase hexadecimal digit of `d`, below 16.
pub open spec fn hex_digit_char(d: int) -> char {
    if d < 10 {
        (48 + d) as char
    } else {
        (87 + d) as char
    }
}

/// `bytes` in lowercase hexadecimal, two digits per byte.
pub open spec fn hex_lower(bytes: Seq<u8>) -> Seq<char>
    decreases bytes.len(),
{
    if bytes.len() == 0 {
        Seq::empty()
    } else {
        hex_lower(bytes.drop_last()) + seq![
            hex_digit_char(bytes.last() as int / 16),
            hex_digit_char(bytes.last() as int % 16),
        ]
    }
}

fn hex_digit(d: u8) -> (c: char)
    requires
        d < 16,
    ensures
        c == hex_digit_char(d as int),
{
    if d < 10 {
        (48 + d) as char
    } else {
        (87 + d) as char
    }
}

/// The text form of a signature: `0x`, then `r`, `s` and `v` (27 plus the
/// parity of y) in lowercase hexadecimal.
pub fn sig_to_hex(r: [u8; 32], s: [u8; 32], y_parity: bool) -> (out: String)
    ensures
        out@ == "0x"@ + hex_lower(r@ + s@ + seq![if y_parity { 28u8 } else { 27u8 }]),
{
    let mut bytes: Vec<u8> = Vec::new();
    push_bytes(&mut bytes, r.as_slice());
    push_bytes(&mut bytes, s.as_slice());
    let v: u8 = if y_parity { 28 } else { 27 };
    bytes.push(v);
    let ghost bv = r@ + s@ + seq![v];
    assert(bytes@ =~= bv);
    let mut out: Vec<char> = crate::text::chars_of("0x");
    let ghost prefix = out@;
    let mut i: usize = 0;
    while i < bytes.len()
        invariant
            0 <= i <= bv.len(),
            bytes@ == bv,
            out@ == prefix + hex_lower(bv.take(i as int)),
        decreases bv.len() - i,
    {
        let b = bytes[i];
        out.push(hex_digit(b / 16));
        out.push(hex_digit(b % 16));
        proof {
            let t = bv.take(i as int + 1);
            assert(t.drop_last() =~= bv.take(i as int));
            assert(t.last() == b);
            assert(out@ =~= prefix + hex_lower(t));
        }
        i = i + 1;
    }
    assert(bv.take(bv.len() as int) =~= bv);
    crate::text::string_of(&out)
}

proof fn lemma_hex_pairs_some(d: Seq<u8>)
    requires
        d.len() % 2 == 0,
        forall|i: int| 0 <= i < d.len() ==> #[trigger] hex_value(d[i]) is Some,
    ensures
        hex_pairs(d) is Some,
    decreases d.len(),
{
    if d.len() >= 2 {
        let rest = d.skip(2);
        assert forall|i: int| 0 <= i < rest.len() implies #[trigger] hex_value(rest[i]) is Some by {
            assert(rest[i] == d[i + 2]);
        }
        lemma_hex_pairs_some(rest);
        assert(hex_value(d[0]) is Some && hex_value(d[1]) is Some);
    }
}

/// The address of the CTF Exchange contract is a hexadecimal address, so
/// that its domain separator is always computed.
pub proof fn lemma_exchange_address_decodes()
    ensures
        hex_decode(utf8_bytes(CTF_EXCHANGE_ADDR), 20) is Some,
{
    let lit = "0xE111180000d2663C0091e4f400237545B87B996B";
    reveal_strlit("0xE111180000d2663C0091e4f400237545B87B996B");
    assert(CTF_EXCHANGE_ADDR@ == lit@);
    let chars = lit@;
    assert(vstd::utf8::is_ascii_chars(chars));
    vstd::utf8::is_ascii_chars_encode_utf8(chars);
    let b = utf8_bytes(CTF_EXCHANGE_ADDR);
    let expected: Seq<u8> = seq![48u8, 120u8, 69u8, 49u8, 49u8, 49u8, 49u8, 56u8, 48u8, 48u8, 48u8, 48u8, 100u8, 50u8, 54u8, 54u8, 51u8, 67u8, 48u8, 48u8, 57u8, 49u8, 101u8, 52u8, 102u8, 52u8, 48u8, 48u8, 50u8, 51u8, 55u8, 53u8, 52u8, 53u8, 66u8, 56u8, 55u8, 66u8, 57u8, 57u8, 54u8, 66u8];
    assert(b =~= expected);
    let body = expected.skip(2);
    assert forall|i: int| 0 <= i < body.len() implies #[trigger] hex_value(body[i]) is Some by {
        assert(body[i] == expected[i + 2]);
    }
    lemma_hex_pairs_some(body);
}

/// The words of an order follow its type string: after the type hash come
/// `salt`, `maker`, `signer` (the maker), `taker` (none), `tokenId`,
/// `makerAmount`, `takerAmount`, `expiration` (none), `nonce` (0),
/// `feeRateBps`, `side` and `signatureType`, one 32-byte word each; with a
/// 32-byte type hash, `makerAmount` is at bytes 192..224 and `takerAmount`
/// at 224..256.
pub proof fn law_order_struct_layout(
    salt: Seq<u8>,
    maker: Seq<u8>,
    token_id: Seq<u8>,
    maker_amount: Seq<u8>,
    taker_amount: Seq<u8>,
    fee_rate_bps: Seq<u8>,
    side: u8,
    signature_type: u8,
)
    requires
        salt.len() == 32,
        maker.len() == 20,
        token_id.len() == 32,
        maker_amount.len() == 32,
        taker_amount.len() == 32,
        fee_rate_bps.len() == 32,
    ensures
        ({
            let b = order_struct_bytes(
                salt,
                maker,
                token_id,
                maker_amount,
                taker_amount,
                fee_rate_bps,
                side,
                signature_type,
            );
            let th = text_hash(
                "Order(uint256 salt,address maker,address signer,address taker,uint256 tokenId,uint256 makerAmount,uint256 takerAmount,uint256 expiration,uint256 nonce,uint256 feeRateBps,uint8 side,uint8 signatureType)",
            );
            let w = b.skip(th.len() as int);
            &&& b.take(th.len() as int) == th
            &&& w.len() == 384
            &&& w.subrange(0, 32) == salt
            &&& w.subrange(32, 64) == Seq::new(12, |i: int| 0u8) + maker
            &&& w.subrange(64, 96) == Seq::new(12, |i: int| 0u8) + maker
            &&& w.subrange(96, 128) == Seq::new(32, |i: int| 0u8)
            &&& w.subrange(128, 160) == token_id
            &&& w.subrange(160, 192) == maker_amount
            &&& w.subrange(192, 224) == taker_amount
            &&& w.subrange(224, 256) == Seq::new(32, |i: int| 0u8)
            &&& w.subrange(256, 288) == Seq::new(32, |i: int| 0u8)
            &&& w.subrange(288, 320) == fee_rate_bps
            &&& w.subrange(320, 352) == Seq::new(31, |i: int| 0u8).push(side)
            &&& w.subrange(352, 384) == Seq::new(31, |i: int| 0u8).push(signature_type)
            &&& th.len() == 32 ==> b.subrange(192, 224) == maker_amount && b.subrange(224, 256)
                == taker_amount
        }),
{
    let b = order_struct_bytes(
        salt,
        maker,
        token_id,
        maker_amount,
        taker_amount,
        fee_rate_bps,
        side,
        signature_type,
    );
    let th = text_hash(
        "Order(uint256 salt,address maker,address signer,address taker,uint256 tokenId,uint256 makerAmount,uint256 takerAmount,uint256 expiration,uint256 nonce,uint256 feeRateBps,uint8 side,uint8 signatureType)",
    );
    let z = zero_word();
    let w0 = salt + address_word(maker) + address_word(maker) + z + token_id + maker_amount
        + taker_amount + z + z + fee_rate_bps + uint8_word(side) + uint8_word(signature_type);
    assert(b =~= th + w0);
    let w = b.skip(th.len() as int);
    assert(w =~= w0);
    assert(b.take(th.len() as int) =~= th);
    assert(w.subrange(0, 32) =~= salt);
    assert(w.subrange(32, 64) =~= Seq::new(12, |i: int| 0u8) + maker);
    assert(w.subrange(64, 96) =~= Seq::new(12, |i: int| 0u8) + maker);
    assert(w.subrange(96, 128) =~= Seq::new(32, |i: int| 0u8));
    assert(w.subrange(128, 160) =~= token_id);
    assert(w.subrange(160, 192) =~= maker_amount);
    assert(w.subrange(192, 224) =~= taker_amount);
    assert(w.subrange(224, 256) =~= Seq::new(32, |i: int| 0u8));
    assert(w.subrange(256, 288) =~= Seq::new(32, |i: int| 0u8));
    assert(w.subrange(288, 320) =~= fee_rate_bps);
    assert(w.subrange(320, 352) =~= Seq::new(31, |i: int| 0u8).push(side));
    assert(w.subrange(352, 384) =~= Seq::new(31, |i: int| 0u8).push(signature_type));
    if th.len() == 32 {
        assert(b.subrange(192, 224) =~= w.subrange(160, 192));
        assert(b.subrange(224, 256) =~= w.subrange(192, 224));
    }
}

/// `256` to the power `len`.
pub open spec fn pow256(len: nat) -> nat
    decreases len,
{
    if len == 0 {
        1
    } else {
        256 * pow256((len - 1) as nat)
    }
}

/// The number that big-endian bytes write.
pub open spec fn be_value(b: Seq<u8>) -> nat
    decreases b.len(),
{
    if b.len() == 0 {
        0
    } else {
        be_value(b.drop_last()) * 256 + (b.last() as nat)
    }
}

/// `be_bytes(n, len)` is `len` bytes that write `n` in big-endian order,
/// for every `n` that fits in them.
pub proof fn law_be_bytes_value(n: nat, len: nat)
    requires
        n < pow256(len),
    ensures
        be_bytes(n, len).len() == len,
        be_value(be_bytes(n, len)) == n,
    decreases len,
{
    if len > 0 {
        let p = pow256((len - 1) as nat);
        assert(n / 256 < p) by (nonlinear_arith)
            requires
                n < 256 * p,
        ;
        law_be_bytes_value(n / 256, (len - 1) as nat);
        let b = be_bytes(n, len);
        assert(b.drop_last() =~= be_bytes(n / 256, (len - 1) as nat));
        assert((n / 256) * 256 + n % 256 == n) by (nonlinear_arith);
    } else {
        assert(n == 0);
    }
}

/// The domains that orders and L1 authentications are signed in: the CTF
/// Exchange (name `Polymarket CTF Exchange`, version `2`, chain 137, its
/// contract) and `ClobAuthDomain` (version `1`, chain 137).
pub proof fn law_signing_domains(contract: Seq<u8>)
    ensures
        POLYGON_CHAIN_ID == 137,
        ctf_domain_bytes(contract) == text_hash(
            "EIP712Domain(string name,string version,uint256 chainId,address verifyingContract)",
        ) + text_hash("Polymarket CTF Exchange") + text_hash("2") + be_bytes(137, 32) + (Seq::new(
            12,
            |i: int| 0u8,
        ) + contract),
        clob_auth_domain_bytes() == text_hash(
            "EIP712Domain(string name,string version,uint256 chainId)",
        ) + text_hash("ClobAuthDomain") + text_hash("1") + be_bytes(137, 32),
{
}

/// The fields of an L1 authentication follow its type string: after the
/// type hash come the address word, the hash of the timestamp text, the
/// nonce as a 32-byte word, and the hash of the fixed attestation message.
pub proof fn law_clob_auth_layout(address: Seq<u8>, timestamp: Seq<u8>, nonce: u64)
    ensures
        clob_auth_struct_bytes(address, timestamp, nonce) == text_hash(
            "ClobAuth(address address,string timestamp,uint256 nonce,string message)",
        ) + (Seq::new(12, |i: int| 0u8) + address) + keccak(timestamp) + be_bytes(nonce as nat, 32)
            + text_hash("This message attests that I control the given wallet"),
{
}

} // verus!
