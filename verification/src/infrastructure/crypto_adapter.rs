use crate::domain::chain::Chain;
use crate::domain::crypto::{str_result, CryptoProvider};
use ed25519_dalek::SigningKey as EdSigningKey;
use k256::ecdsa::{signature::hazmat::PrehashSigner, Signature, SigningKey, VerifyingKey};
use sha3::{Digest, Keccak256};
use vstd::prelude::*;
use vstd::slice::slice_subrange;

verus! {

/// Whether `k256::ecdsa::SigningKey::from_slice` accepts `secret` as a
/// secp256k1 secret scalar.
pub uninterp spec fn secp256k1_secret_ok(secret: Seq<u8>) -> bool;

/// The SEC1 uncompressed encoding (`to_encoded_point(false)`), 65 bytes, of the
/// `VerifyingKey` of the secp256k1 secret `secret`.
pub uninterp spec fn secp256k1_public_key(secret: Seq<u8>) -> [u8; 65];

/// What `PrehashSigner::sign_prehash` of the secp256k1 key `secret` gives for
/// the 32-byte digest `digest`: the RFC 6979 ECDSA signature over `digest` as
/// it stands (not hashed again), as `r || s`, or `None` when signing fails.
pub uninterp spec fn secp256k1_sign_prehash(secret: Seq<u8>, digest: Seq<u8>) -> Option<[u8; 64]>;

/// The 32-byte Keccak-256 digest of `data`.
pub uninterp spec fn keccak256(data: Seq<u8>) -> [u8; 32];

/// The 32-byte Ed25519 public key of the 32-byte secret `secret`.
pub uninterp spec fn ed25519_public_key(secret: Seq<u8>) -> [u8; 32];

/// The digit `d` (`0 <= d < 58`) of the Bitcoin base58 alphabet
/// `123456789ABCDEFGHJKLMNPQRSTUVWXYZabcdefghijkmnopqrstuvwxyz`.
pub open spec fn base58_char(d: int) -> char {
    if d < 9 {
        (49 + d) as char  // '1'..='9'
    } else if d < 17 {
        (65 + d - 9) as char  // 'A'..='H'
    } else if d < 22 {
        (74 + d - 17) as char  // 'J'..='N'
    } else if d < 33 {
        (80 + d - 22) as char  // 'P'..='Z'
    } else if d < 44 {
        (97 + d - 33) as char  // 'a'..='k'
    } else {
        (109 + d - 44) as char  // 'm'..='z'
    }
}

/// The number that `bytes` write in base 256, most significant byte first.
pub open spec fn be_value(bytes: Seq<u8>) -> nat
    decreases bytes.len(),
{
    if bytes.len() == 0 {
        0
    } else {
        be_value(bytes.drop_last()) * 256 + bytes.last() as nat
    }
}

/// How many zero bytes `bytes` starts with.
pub open spec fn leading_zeros(bytes: Seq<u8>) -> nat
    decreases bytes.len(),
{
    if bytes.len() == 0 || bytes[0] != 0 {
        0
    } else {
        1 + leading_zeros(bytes.drop_first())
    }
}

/// The base58 digits of `n`, most significant first, none for zero.
pub open spec fn base58_digits(n: nat) -> Seq<char>
    decreases n,
{
    if n == 0 {
        seq![]
    } else {
        base58_digits(n / 58) + seq![base58_char((n % 58) as int)]
    }
}

/// The base58 text of `data`: a `1` for each leading zero byte, then the digits
/// of the number that `data` writes.
pub open spec fn base58(data: Seq<u8>) -> Seq<char> {
    Seq::new(leading_zeros(data), |i: int| '1') + base58_digits(be_value(data))
}

/// `b` to the power `e`.
pub open spec fn pow(b: nat, e: nat) -> nat
    decreases e,
{
    if e == 0 {
        1
    } else {
        b * pow(b, (e - 1) as nat)
    }
}

/// A character of the Bitcoin base58 alphabet: digits and letters but `0`, `O`,
/// `I` and `l`.
pub open spec fn is_base58_char(c: char) -> bool {
    ||| ('1' <= c && c <= '9')
    ||| ('A' <= c && c <= 'Z' && c != 'I' && c != 'O')
    ||| ('a' <= c && c <= 'z' && c != 'l')
}

/// The lowercase hexadecimal digit of `n` (`0 <= n < 16`).
pub open spec fn hex_digit(n: int) -> char {
    if n < 10 {
        (48 + n) as char
    } else {
        (87 + n) as char
    }
}

/// Lowercase hexadecimal text of `data`, two digits per byte, high nibble first.
pub open spec fn hex_lower(data: Seq<u8>) -> Seq<char>
    decreases data.len(),
{
    if data.len() == 0 {
        seq![]
    } else {
        seq![hex_digit(data[0] as int / 16), hex_digit(data[0] as int % 16)] + hex_lower(data.drop_first())
    }
}

/// The message with which an unusable secp256k1 secret is refused.
pub open spec fn key_refusal() -> Seq<char> {
    "signature error"@
}

/// `SigningKey::from_slice(secret)`, `VerifyingKey::from` and
/// `to_encoded_point(false)`. Claimed: the key is refused exactly when
/// `secp256k1_secret_ok` fails, with the message of `signature::Error`
/// ("signature error"); else the 65-byte uncompressed point, tag byte 4.
#[verifier::external_body]
fn evm_public_key(secret: &[u8]) -> (r: Result<Vec<u8>, String>)
    requires
        secret@.len() == 32,
    ensures
        match r {
            Ok(pk) => secp256k1_secret_ok(secret@) && pk@ == secp256k1_public_key(secret@)@
                && pk@[0] == 4,
            Err(e) => !secp256k1_secret_ok(secret@) && e@ == key_refusal(),
        },
{
    match SigningKey::from_slice(secret) {
        Ok(signing_key) => {
            let verifying_key = VerifyingKey::from(&signing_key);
            Ok(verifying_key.to_encoded_point(false).as_bytes().to_vec())
        },
        Err(e) => Err(e.to_string()),
    }
}

/// `SigningKey::from_slice(secret)` then `sign_prehash(digest)` and
/// `to_bytes()`: the 32 bytes are signed as the digest. Claimed: an error,
/// whose message is always "signature error", comes exactly when the key is
/// refused or signing fails; else the 64-byte signature named by
/// `secp256k1_sign_prehash`.
#[verifier::external_body]
fn evm_sign(secret: &[u8], digest: &[u8; 32]) -> (r: Result<Vec<u8>, String>)
    requires
        secret@.len() == 32,
    ensures
        match r {
            Ok(sig) => secp256k1_secret_ok(secret@) && (secp256k1_sign_prehash(secret@, digest@)
                matches Some(s) && s@ == sig@),
            Err(e) => e@ == key_refusal() && (!secp256k1_secret_ok(secret@) || secp256k1_sign_prehash(
                secret@,
                digest@,
            ) is None),
        },
{
    match SigningKey::from_slice(secret) {
        Ok(signing_key) => {
            let signed: Result<Signature, _> = signing_key.sign_prehash(digest);
            match signed {
                Ok(signature) => Ok(signature.to_bytes().to_vec()),
                Err(e) => Err(e.to_string()),
            }
        },
        Err(e) => Err(e.to_string()),
    }
}

/// `Keccak256` of `data` (new, update, finalize): a 32-byte digest.
#[verifier::external_body]
fn keccak_256(data: &[u8]) -> (h: Vec<u8>)
    ensures
        h@ == keccak256(data@)@,
{
    let mut hasher = Keccak256::new();
    hasher.update(data);
    hasher.finalize().to_vec()
}

/// `hex::encode(data)`: lowercase hexadecimal, two digits per byte.
#[verifier::external_body]
fn hex_encode(data: &[u8]) -> (s: String)
    ensures
        s@ == hex_lower(data@),
{
    hex::encode(data)
}

/// `ed25519_dalek::SigningKey::from_bytes(secret).verifying_key().as_bytes()`:
/// the 32-byte public key.
#[verifier::external_body]
fn ed25519_public(secret: &[u8; 32]) -> (pk: Vec<u8>)
    ensures
        pk@ == ed25519_public_key(secret@)@,
{
    EdSigningKey::from_bytes(secret).verifying_key().as_bytes().to_vec()
}

/// `bs58::encode(data).into_string()`: base58 with the Bitcoin alphabet (its
/// default), as `base58` states it.
#[verifier::external_body]
fn base58_encode(data: &[u8]) -> (s: String)
    ensures
        s@ == base58(data@),
{
    bs58::encode(data).into_string()
}

/// The EVM address of the secp256k1 secret `secret`: `0x` and the lowercase hex
/// of the last 20 bytes of the Keccak-256 digest of the public point without
/// its tag byte.
pub open spec fn evm_address(secret: Seq<u8>) -> Result<Seq<char>, Seq<char>> {
    if secp256k1_secret_ok(secret) {
        Ok(
            "0x"@ + hex_lower(
                keccak256(secp256k1_public_key(secret)@.subrange(1, 65))@.subrange(12, 32),
            ),
        )
    } else {
        Err(key_refusal())
    }
}

/// The Solana address of the Ed25519 secret `secret`: the base58 text of its public key.
pub open spec fn solana_address(secret: Seq<u8>) -> Seq<char> {
    base58(ed25519_public_key(secret)@)
}

/// The message with which a seed shorter than a key is refused.
pub open spec fn short_seed_refusal() -> Seq<char> {
    "Seed must be at least 32 bytes"@
}

/// Key adapter: secp256k1 for EVM chains, Ed25519 for Solana, both keyed by the
/// first 32 bytes of the seed.
pub struct CryptoAdapter;

impl CryptoAdapter {
    /// The EVM address of the key held in the first 32 bytes of `seed`: when
    /// derived, `0x` followed by 40 lowercase hexadecimal digits.
    fn derive_evm_address(&self, seed: &[u8]) -> (r: Result<String, String>)
        requires
            seed@.len() >= 32,
        ensures
            str_result(r) == evm_address(seed@.take(32)),
            r matches Ok(a) ==> is_evm_address_text(a@),
    {
        let secret = slice_subrange(seed, 0, 32);
        assert(secret@ == seed@.take(32));
        let public_key = match evm_public_key(secret) {
            Ok(pk) => pk,
            Err(e) => return Err(e),
        };
        let hash = keccak_256(slice_subrange(public_key.as_slice(), 1, 65));
        let address = slice_subrange(hash.as_slice(), 12, 32);
        let mut text = String::from_str("0x");
        let digits = hex_encode(address);
        text.append(digits.as_str());
        proof {
            reveal_strlit("0x");
            lemma_hex_lower(address@);
            assert forall|i: int| 2 <= i < 42 implies is_lower_hex_digit(#[trigger] text@[i]) by {
                assert(text@[i] == digits@[i - 2]);
            }
        }
        Ok(text)
    }

    /// The Solana address of the key held in the first 32 bytes of `seed`.
    fn derive_solana_address(&self, seed: &[u8]) -> (r: Result<String, String>)
        requires
            seed@.len() >= 32,
        ensures
            str_result(r) == Ok::<Seq<char>, Seq<char>>(solana_address(seed@.take(32))),
            r matches Ok(a) ==> is_solana_address_text(a@),
            r matches Ok(a) ==> a@ == base58(ed25519_public_key(seed@.take(32))@),
    {
        let mut secret = [0u8; 32];
        for i in 0..32
            invariant
                seed@.len() >= 32,
                forall|j: int| 0 <= j < i ==> secret@[j] == seed@[j],
        {
            secret[i] = seed[i];
        }
        assert(secret@ =~= seed@.take(32));
        let public_key = ed25519_public(&secret);
        proof {
            lemma_base58_text(public_key@);
            lemma_base58_len_32(public_key@);
        }
        Ok(base58_encode(public_key.as_slice()))
    }
}

impl CryptoProvider for CryptoAdapter {
    /// A seed shorter than 32 bytes holds no key.
    open spec fn address(&self, seed: Seq<u8>, chain: Chain) -> Result<Seq<char>, Seq<char>> {
        if seed.len() < 32 {
            Err(short_seed_refusal())
        } else {
            match chain {
                Chain::Evm => evm_address(seed.take(32)),
                Chain::Solana => Ok(solana_address(seed.take(32))),
            }
        }
    }

    open spec fn signature(&self, seed: Seq<u8>, message_hash: Seq<u8>) -> Result<
        Seq<u8>,
        Seq<char>,
    > {
        if seed.len() < 32 {
            Err(short_seed_refusal())
        } else if !secp256k1_secret_ok(seed.take(32)) {
            Err(key_refusal())
        } else {
            match secp256k1_sign_prehash(seed.take(32), message_hash) {
                Some(sig) => Ok(sig@),
                None => Err(key_refusal()),
            }
        }
    }

    fn derive_address(&self, seed: &[u8], chain: Chain) -> (r: Result<String, String>)
        ensures
            chain == Chain::Evm ==> (r matches Ok(a) ==> is_evm_address_text(a@)),
            chain == Chain::Solana ==> (r matches Ok(a) ==> is_solana_address_text(a@)),
    {
        if seed.len() < 32 {
            return Err(String::from_str("Seed must be at least 32 bytes"));
        }
        match chain {
            Chain::Evm => self.derive_evm_address(seed),
            Chain::Solana => self.derive_solana_address(seed),
        }
    }

    /// A signature is 64 bytes: `r` then `s`.
    fn sign_evm_hash(&self, seed: &[u8], message_hash: [u8; 32]) -> (r: Result<Vec<u8>, String>)
        ensures
            r matches Ok(sig) ==> sig@.len() == 64,
            r matches Ok(sig) ==> seed@.len() >= 32 && (secp256k1_sign_prehash(
                seed@.take(32),
                message_hash@,
            ) matches Some(s) && s@ == sig@),
    {
        if seed.len() < 32 {
            return Err(String::from_str("Seed must be at least 32 bytes"));
        }
        let secret = slice_subrange(seed, 0, 32);
        assert(secret@ == seed@.take(32));
        evm_sign(secret, &message_hash)
    }
}

/// Base58 text of 32 to 44 characters, as a 32-byte key gives.
pub open spec fn is_solana_address_text(a: Seq<char>) -> bool {
    &&& 32 <= a.len() <= 44
    &&& is_base58_text(a)
}

/// Text made only of base58 characters.
pub open spec fn is_base58_text(a: Seq<char>) -> bool {
    forall|i: int| 0 <= i < a.len() ==> is_base58_char(#[trigger] a[i])
}

/// A lowercase hexadecimal digit.
pub open spec fn is_lower_hex_digit(c: char) -> bool {
    ('0' <= c && c <= '9') || ('a' <= c && c <= 'f')
}

/// `0x` followed by 40 lowercase hexadecimal digits.
pub open spec fn is_evm_address_text(a: Seq<char>) -> bool {
    &&& a.len() == 42
    &&& a[0] == '0' && a[1] == 'x'
    &&& forall|i: int| 2 <= i < 42 ==> is_lower_hex_digit(#[trigger] a[i])
}

/// Hex text has two digits per byte, each a lowercase hexadecimal digit.
pub proof fn lemma_hex_lower(data: Seq<u8>)
    ensures
        hex_lower(data).len() == 2 * data.len(),
        forall|i: int| 0 <= i < hex_lower(data).len() ==> is_lower_hex_digit(#[trigger] hex_lower(data)[i]),
    decreases data.len(),
{
    if data.len() > 0 {
        lemma_hex_lower(data.drop_first());
        let hi = data[0] as int / 16;
        let lo = data[0] as int % 16;
        assert(is_lower_hex_digit(hex_digit(hi)));
        assert(is_lower_hex_digit(hex_digit(lo)));
        let head = seq![hex_digit(hi), hex_digit(lo)];
        let rest = hex_lower(data.drop_first());
        assert forall|i: int| 0 <= i < hex_lower(data).len() implies is_lower_hex_digit(
            #[trigger] hex_lower(data)[i],
        ) by {
            if i >= 2 {
                assert(hex_lower(data)[i] == rest[i - 2]);
            }
        }
    }
}

/// Base58 digits are characters of the alphabet.
pub proof fn lemma_base58_char(d: int)
    requires
        0 <= d < 58,
    ensures
        is_base58_char(base58_char(d)),
{
}

/// The digits of a number are base58 characters.
pub proof fn lemma_base58_digits_chars(n: nat)
    ensures
        is_base58_text(base58_digits(n)),
    decreases n,
{
    if n > 0 {
        lemma_base58_digits_chars(n / 58);
        lemma_base58_char((n % 58) as int);
        let d = base58_digits(n);
        let prev = base58_digits(n / 58);
        assert forall|i: int| 0 <= i < d.len() implies is_base58_char(#[trigger] d[i]) by {
            if i < prev.len() {
                assert(d[i] == prev[i]);
            }
        }
    }
}

/// Base58 text is made of base58 characters.
pub proof fn lemma_base58_text(data: Seq<u8>)
    ensures
        is_base58_text(base58(data)),
{
    lemma_base58_digits_chars(be_value(data));
    let t = base58(data);
    let z = leading_zeros(data);
    assert forall|i: int| 0 <= i < t.len() implies is_base58_char(#[trigger] t[i]) by {
        if i >= z {
            assert(t[i] == base58_digits(be_value(data))[i - z]);
        }
    }
}

/// A number below `58^k` has at most `k` digits.
pub proof fn lemma_digits_len_le(n: nat, k: nat)
    requires
        n < pow(58, k),
    ensures
        base58_digits(n).len() <= k,
    decreases k,
{
    if n > 0 {
        assert(k > 0);
        lemma_digits_len_le(n / 58, (k - 1) as nat);
    }
}

/// A number at least `58^k` has more than `k` digits.
pub proof fn lemma_digits_len_ge(n: nat, k: nat)
    requires
        n >= pow(58, k),
    ensures
        base58_digits(n).len() >= k + 1,
    decreases k,
{
    if k > 0 {
        lemma_digits_len_ge(n / 58, (k - 1) as nat);
    }
}

/// `n` bytes write a number below `256^n`, and at least `256^(n-1)` when the
/// first byte is not zero.
pub proof fn lemma_be_value_bounds(bytes: Seq<u8>)
    ensures
        be_value(bytes) < pow(256, bytes.len()),
        bytes.len() > 0 && bytes[0] != 0 ==> be_value(bytes) >= pow(256, (bytes.len() - 1) as nat),
    decreases bytes.len(),
{
    if bytes.len() > 0 {
        let init = bytes.drop_last();
        lemma_be_value_bounds(init);
        if init.len() > 0 {
            assert(init[0] == bytes[0]);
        }
    }
}

/// Leading zero bytes add nothing to the number.
pub proof fn lemma_be_value_skip_zeros(bytes: Seq<u8>, z: nat)
    requires
        z <= bytes.len(),
        forall|i: int| 0 <= i < z ==> bytes[i] == 0,
    ensures
        be_value(bytes) == be_value(bytes.skip(z as int)),
    decreases bytes.len(),
{
    if bytes.len() > z {
        lemma_be_value_skip_zeros(bytes.drop_last(), z);
        assert(bytes.skip(z as int).drop_last() =~= bytes.drop_last().skip(z as int));
    } else if bytes.len() > 0 {
        lemma_be_value_skip_zeros(bytes.drop_last(), (z - 1) as nat);
        assert(bytes.drop_last().skip(z - 1) =~= Seq::<u8>::empty());
        assert(bytes.skip(z as int) =~= Seq::<u8>::empty());
    }
}

/// The leading zeros of `bytes` are zero, and the byte after them is not.
pub proof fn lemma_leading_zeros(bytes: Seq<u8>)
    ensures
        leading_zeros(bytes) <= bytes.len(),
        forall|i: int| 0 <= i < leading_zeros(bytes) ==> bytes[i] == 0,
        leading_zeros(bytes) < bytes.len() ==> bytes[leading_zeros(bytes) as int] != 0,
    decreases bytes.len(),
{
    if bytes.len() > 0 && bytes[0] == 0 {
        let rest = bytes.drop_first();
        lemma_leading_zeros(rest);
        assert forall|i: int| 0 <= i < leading_zeros(bytes) implies bytes[i] == 0 by {
            if i > 0 {
                assert(bytes[i] == rest[i - 1]);
            }
        }
    }
}

/// `256^m` is at least `58^m`.
pub proof fn lemma_pow_256_ge_58(m: nat)
    ensures
        pow(256, m) >= pow(58, m),
    decreases m,
{
    if m > 0 {
        lemma_pow_256_ge_58((m - 1) as nat);
    }
}

/// `256^m <= 58^(m + 12)` for `m <= 32`.
pub proof fn lemma_pow_256_le_58(m: nat)
    requires
        m <= 32,
    ensures
        pow(256, m) <= pow(58, m + 12),
    decreases 32 - m,
{
    if m == 32 {
        reveal_with_fuel(pow, 45);
        assert(pow(256, 32)
            == 115792089237316195423570985008687907853269984665640564039457584007913129639936nat);
        assert(pow(58, 44)
            == 389790918707373377135528568990913592653094657612049369038476873218241589149696nat);
    } else {
        lemma_pow_256_le_58(m + 1);
        assert(pow(256, m + 1) == 256 * pow(256, m));
        assert(pow(58, m + 13) == 58 * pow(58, m + 12));
    }
}

/// The base58 text of 32 bytes has 32 to 44 characters.
pub proof fn lemma_base58_len_32(data: Seq<u8>)
    requires
        data.len() == 32,
    ensures
        32 <= base58(data).len() <= 44,
{
    lemma_leading_zeros(data);
    let z = leading_zeros(data);
    let rest = data.skip(z as int);
    let m = (32 - z) as nat;
    lemma_be_value_skip_zeros(data, z);
    let v = be_value(data);
    if m == 0 {
        assert(rest =~= Seq::<u8>::empty());
        assert(v == 0);
    } else {
        assert(rest[0] == data[z as int]);
        lemma_be_value_bounds(rest);
        lemma_pow_256_ge_58((m - 1) as nat);
        lemma_digits_len_ge(v, (m - 1) as nat);
        lemma_pow_256_le_58(m);
        lemma_digits_len_le(v, m + 12);
    }
}

/// Every EVM address that the adapter derives is `0x` followed by 40
/// lowercase hexadecimal digits.
pub proof fn law_evm_address_shape(seed: Seq<u8>)
    ensures
        CryptoAdapter.address(seed, Chain::Evm) matches Ok(a) ==> is_evm_address_text(a),
{
    if CryptoAdapter.address(seed, Chain::Evm) is Ok {
        reveal_strlit("0x");
        let secret = seed.take(32);
        let tail = keccak256(secp256k1_public_key(secret)@.subrange(1, 65))@.subrange(12, 32);
        lemma_hex_lower(tail);
        let a = CryptoAdapter.address(seed, Chain::Evm)->Ok_0;
        assert(a == "0x"@ + hex_lower(tail));
        assert forall|i: int| 2 <= i < 42 implies is_lower_hex_digit(#[trigger] a[i]) by {
            assert(a[i] == hex_lower(tail)[i - 2]);
        }
    }
}

/// The Solana address of a seed of at least 32 bytes is always derived, and a
/// shorter seed is refused on every chain.
pub proof fn law_solana_address_derived_iff_key(seed: Seq<u8>, chain: Chain)
    ensures
        seed.len() >= 32 ==> CryptoAdapter.address(seed, Chain::Solana) is Ok,
        seed.len() < 32 ==> CryptoAdapter.address(seed, chain) == Err::<Seq<char>, Seq<char>>(
            short_seed_refusal(),
        ),
{
}

/// Every Solana address that the adapter derives is base58 text of 32 to 44
/// characters.
pub proof fn law_solana_address_shape(seed: Seq<u8>)
    ensures
        CryptoAdapter.address(seed, Chain::Solana) matches Ok(a) ==> is_solana_address_text(a),
{
    if seed.len() >= 32 {
        let pk = ed25519_public_key(seed.take(32))@;
        lemma_base58_text(pk);
        lemma_base58_len_32(pk);
    }
}

/// A seed signs EVM hashes only if it yields an EVM address (both rest on the
/// same secp256k1 secret), and it signs whenever it yields one and signing
/// succeeds.
pub proof fn law_signing_needs_evm_address(seed: Seq<u8>, message_hash: Seq<u8>)
    ensures
        CryptoAdapter.signature(seed, message_hash) is Ok ==> CryptoAdapter.address(
            seed,
            Chain::Evm,
        ) is Ok,
        CryptoAdapter.address(seed, Chain::Evm) is Ok ==> (CryptoAdapter.signature(
            seed,
            message_hash,
        ) is Ok <==> secp256k1_sign_prehash(seed.take(32), message_hash) is Some),
{
}

/// Every signature the adapter gives is the secp256k1 signature, by the key
/// of the seed's first 32 bytes, of the very hash it was asked to sign; and it
/// gives one whenever that key exists and can sign that hash.
pub proof fn law_signature_is_of_the_given_hash(seed: Seq<u8>, message_hash: Seq<u8>)
    ensures
        CryptoAdapter.signature(seed, message_hash) matches Ok(sig) ==> seed.len() >= 32
            && secp256k1_secret_ok(seed.take(32)) && (secp256k1_sign_prehash(
            seed.take(32),
            message_hash,
        ) matches Some(s) && s@ == sig),
        seed.len() >= 32 && secp256k1_secret_ok(seed.take(32)) ==> (secp256k1_sign_prehash(
            seed.take(32),
            message_hash,
        ) matches Some(s) ==> CryptoAdapter.signature(seed, message_hash) == Ok::<
            Seq<u8>,
            Seq<char>,
        >(s@)),
{
}

/// The value of a base58 character: its place in the alphabet.
pub open spec fn base58_value(c: char) -> int {
    let n = c as int;
    if n <= 57 {
        n - 49
    } else if n <= 72 {
        n - 65 + 9
    } else if n <= 78 {
        n - 74 + 17
    } else if n <= 90 {
        n - 80 + 22
    } else if n <= 107 {
        n - 97 + 33
    } else {
        n - 109 + 44
    }
}

/// The number that base58 text writes, most significant digit first.
pub open spec fn base58_number(text: Seq<char>) -> int
    decreases text.len(),
{
    if text.len() == 0 {
        0
    } else {
        base58_number(text.drop_last()) * 58 + base58_value(text.last())
    }
}

/// How many `1` (zero digit) characters `text` starts with.
pub open spec fn leading_ones(text: Seq<char>) -> nat
    decreases text.len(),
{
    if text.len() == 0 || text[0] != '1' {
        0
    } else {
        1 + leading_ones(text.drop_first())
    }
}

/// A digit's character has that digit as its value.
pub proof fn lemma_base58_value(d: int)
    requires
        0 <= d < 58,
    ensures
        base58_value(base58_char(d)) == d,
        d > 0 ==> base58_char(d) != '1',
{
}

/// The digits of `n` write `n`, and do not start with a zero digit.
pub proof fn lemma_base58_digits_number(n: nat)
    ensures
        base58_number(base58_digits(n)) == n,
        n > 0 ==> base58_digits(n).len() > 0 && base58_digits(n)[0] != '1',
    decreases n,
{
    if n > 0 {
        lemma_base58_digits_number(n / 58);
        lemma_base58_value((n % 58) as int);
        let d = base58_digits(n);
        assert(d.drop_last() =~= base58_digits(n / 58));
        if n / 58 == 0 {
            assert(n % 58 == n);
            assert(d[0] == base58_char((n % 58) as int));
        } else {
            assert(d[0] == base58_digits(n / 58)[0]);
        }
    }
}

/// Leading `1` characters add nothing to the number and are counted as such.
pub proof fn lemma_ones_prefix(z: nat, text: Seq<char>)
    requires
        text.len() == 0 || text[0] != '1',
    ensures
        base58_number(Seq::new(z, |i: int| '1') + text) == base58_number(text),
        leading_ones(Seq::new(z, |i: int| '1') + text) == z,
    decreases z + text.len(),
{
    let ones = Seq::new(z, |i: int| '1');
    let t = ones + text;
    if text.len() > 0 {
        lemma_ones_prefix(z, text.drop_last());
        assert(t.drop_last() =~= ones + text.drop_last());
        assert(t.last() == text.last());
    } else if z > 0 {
        lemma_ones_prefix((z - 1) as nat, text);
        lemma_base58_value(0);
        assert(t.drop_last() =~= Seq::new((z - 1) as nat, |i: int| '1') + text);
    }
    if z > 0 {
        lemma_ones_prefix((z - 1) as nat, text);
        assert(t.drop_first() =~= Seq::new((z - 1) as nat, |i: int| '1') + text);
    } else {
        assert(t =~= text);
    }
}

/// Base58 text decodes back to its data: the number it writes is the number the
/// bytes write, and its leading `1` characters are the leading zero bytes.
pub proof fn lemma_base58_decodes(data: Seq<u8>)
    ensures
        base58_number(base58(data)) == be_value(data),
        leading_ones(base58(data)) == leading_zeros(data),
{
    lemma_base58_digits_number(be_value(data));
    lemma_ones_prefix(leading_zeros(data), base58_digits(be_value(data)));
}

/// The Solana address of a seed of at least 32 bytes is the base58 text of the
/// Ed25519 public key of its first 32 bytes, in full: it decodes to exactly
/// that key, its number being the key's and its leading `1`s the key's leading
/// zero bytes.
pub proof fn law_solana_address_decodes_to_key(seed: Seq<u8>)
    requires
        seed.len() >= 32,
    ensures
        CryptoAdapter.address(seed, Chain::Solana) matches Ok(a) && a == base58(
            ed25519_public_key(seed.take(32))@,
        ) && base58_number(a) == be_value(ed25519_public_key(seed.take(32))@) && leading_ones(a)
            == leading_zeros(ed25519_public_key(seed.take(32))@),
{
    lemma_base58_decodes(ed25519_public_key(seed.take(32))@);
}

} // verus!
