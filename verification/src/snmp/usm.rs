//! USM crypto: key localization (RFC 3414 A.2), HMAC-SHA-256-128
//! (RFC 7860) and AES-128 CFB (RFC 3826). The hash, MAC and cipher
//! themselves come from the `sha2`, `hmac`, `aes` and `cfb-mode` crates.

use aes::Aes128;
use cfb_mode::cipher::{AsyncStreamCipher, KeyIvInit};
use hmac::{Hmac, Mac};
use rand::RngCore;
use sha2::{Digest, Sha256};
use vstd::prelude::*;

verus! {

/// AES-128 key length: the leading bytes of the localized key are used as
/// the privacy key (RFC 3826 3.1.2.1).
pub const PRIV_KEY_LEN: usize = 16;

/// HMAC-SHA-256-128: the authentication tag is truncated to 16 bytes.
pub const AUTH_TRUNC_LEN: usize = 16;

/// Length of the stretched password that is hashed into the key: one
/// mebibyte (16384 blocks of 64 bytes).
pub const STRETCH_LEN: usize = 1048576;

/// SHA-256 digest of `data`.
pub uninterp spec fn sha256_of(data: Seq<u8>) -> Seq<u8>;

/// HMAC-SHA-256 tag of `message` under `key` (untruncated).
pub uninterp spec fn hmac_sha256_of(key: Seq<u8>, message: Seq<u8>) -> Seq<u8>;

/// AES-128 CFB128 encryption of `data` under `key` and `iv`.
pub uninterp spec fn aes128_cfb_encrypt_of(key: Seq<u8>, iv: Seq<u8>, data: Seq<u8>) -> Seq<u8>;

/// AES-128 CFB128 decryption of `data` under `key` and `iv`.
pub uninterp spec fn aes128_cfb_decrypt_of(key: Seq<u8>, iv: Seq<u8>, data: Seq<u8>) -> Seq<u8>;

/// Whether decrypting the encryption of `data` under `key` and `iv` gives
/// `data` back.
pub open spec fn cfb_round_trips(key: Seq<u8>, iv: Seq<u8>, data: Seq<u8>) -> bool {
    aes128_cfb_decrypt_of(key, iv, aes128_cfb_encrypt_of(key, iv, data)) == data
}

/// `Sha256::digest` of the `sha2` crate: the 32-byte SHA-256 digest of
/// `data`, named `sha256_of`.
#[verifier::external_body]
fn sha256(data: &[u8]) -> (digest: Vec<u8>)
    ensures
        digest@ == sha256_of(data@),
        digest@.len() == 32,
{
    Sha256::digest(data).to_vec()
}

/// `Hmac::<Sha256>` of the `hmac` crate (`new_from_slice`, `update`,
/// `finalize`): the 32-byte HMAC-SHA-256 tag, named `hmac_sha256_of`.
/// HMAC accepts a key of any length, so key setup cannot fail.
#[verifier::external_body]
fn hmac_sha256(key: &[u8], message: &[u8]) -> (tag: Vec<u8>)
    ensures
        tag@ == hmac_sha256_of(key@, message@),
        tag@.len() == 32,
{
    let mut mac = Hmac::<Sha256>::new_from_slice(key).expect("HMAC takes keys of any length");
    mac.update(message);
    mac.finalize().into_bytes().to_vec()
}

/// `cfb_mode::Decryptor::<aes::Aes128>` (`new_from_slices`, `decrypt`):
/// AES-128 CFB128 decryption, named `aes128_cfb_decrypt_of`; the output is
/// as long as the input. Key and IV must be 16 bytes.
#[verifier::external_body]
fn aes128_cfb_decrypt(key: &[u8], iv: &[u8], data: &[u8]) -> (out: Vec<u8>)
    requires
        key@.len() == 16,
        iv@.len() == 16,
    ensures
        out@ == aes128_cfb_decrypt_of(key@, iv@, data@),
        out@.len() == data@.len(),
{
    let mut out = data.to_vec();
    cfb_mode::Decryptor::<Aes128>::new_from_slices(key, iv).expect("16-byte key and IV").decrypt(
        &mut out,
    );
    out
}

/// `cfb_mode::Encryptor::<aes::Aes128>` (`new_from_slices`, `encrypt`):
/// AES-128 CFB128 encryption, named `aes128_cfb_encrypt_of`; the output is
/// as long as the input, and decrypting it under the same key and IV gives
/// the input back. Key and IV must be 16 bytes.
#[verifier::external_body]
fn aes128_cfb_encrypt(key: &[u8], iv: &[u8], data: &[u8]) -> (out: Vec<u8>)
    requires
        key@.len() == 16,
        iv@.len() == 16,
    ensures
        out@ == aes128_cfb_encrypt_of(key@, iv@, data@),
        out@.len() == data@.len(),
        aes128_cfb_decrypt_of(key@, iv@, out@) == data@,
{
    let mut out = data.to_vec();
    cfb_mode::Encryptor::<Aes128>::new_from_slices(key, iv).expect("16-byte key and IV").encrypt(
        &mut out,
    );
    out
}

/// `rand::rng().fill_bytes`: eight random bytes. Nothing is promised of
/// their values.
#[verifier::external_body]
pub(crate) fn random_salt() -> (salt: Vec<u8>)
    ensures
        salt@.len() == 8,
{
    let mut salt = [0u8; 8];
    rand::rng().fill_bytes(&mut salt);
    salt.to_vec()
}

/// The password repeated byte after byte to `STRETCH_LEN` bytes.
pub open spec fn stretched_password(password: Seq<u8>) -> Seq<u8> {
    Seq::new(STRETCH_LEN as nat, |i: int| password[i % (password.len() as int)])
}

/// The key localized to `engine_id`: `H(ku || engine_id || ku)` where `ku`
/// is the digest of the stretched password (RFC 3414 A.2, SHA-256).
pub open spec fn localized_key(password: Seq<u8>, engine_id: Seq<u8>) -> Seq<u8> {
    let ku = sha256_of(stretched_password(password));
    sha256_of(ku + engine_id + ku)
}

/// Big-endian bytes of a `u32`.
pub open spec fn be_bytes(x: u32) -> Seq<u8> {
    seq![
        (x / 0x100_0000) as u8,
        ((x / 0x1_0000) % 0x100) as u8,
        ((x / 0x100) % 0x100) as u8,
        (x % 0x100) as u8,
    ]
}

/// The CFB initialization vector: engine boots and engine time, big
/// endian, then the first eight bytes of the privacy parameters.
pub open spec fn iv_spec(engine_boots: u32, engine_time: u32, priv_params: Seq<u8>) -> Seq<u8> {
    be_bytes(engine_boots) + be_bytes(engine_time) + priv_params.take(8)
}

/// The first `n` bytes of `s` as a new vector.
pub fn prefix(s: &[u8], n: usize) -> (r: Vec<u8>)
    requires
        n <= s@.len(),
    ensures
        r@ == s@.take(n as int),
{
    let mut r: Vec<u8> = Vec::new();
    let mut i: usize = 0;
    while i < n
        invariant
            i <= n <= s@.len(),
            r@ =~= s@.take(i as int),
        decreases n - i,
    {
        r.push(s[i]);
        i = i + 1;
    }
    r
}

fn push_be_bytes(out: &mut Vec<u8>, x: u32)
    ensures
        final(out)@ == old(out)@ + be_bytes(x),
{
    proof {
        assert((x >> 24u32) as u8 == (x / 0x100_0000) as u8) by (bit_vector);
        assert((x >> 16u32) as u8 == ((x / 0x1_0000) % 0x100) as u8) by (bit_vector);
        assert((x >> 8u32) as u8 == ((x / 0x100) % 0x100) as u8) by (bit_vector);
        assert(x as u8 == (x % 0x100) as u8) by (bit_vector);
    }
    out.push((x >> 24u32) as u8);
    out.push((x >> 16u32) as u8);
    out.push((x >> 8u32) as u8);
    out.push(x as u8);
    proof {
        assert(final(out)@ =~= old(out)@ + be_bytes(x));
    }
}

/// IV = engineBoots (4 bytes, big endian) || engineTime (4 bytes, big
/// endian) || the first 8 bytes of the privacy parameters.
pub fn build_iv(engine_boots: u32, engine_time: u32, priv_params: &[u8]) -> (iv: Vec<u8>)
    requires
        priv_params@.len() >= 8,
    ensures
        iv@ == iv_spec(engine_boots, engine_time, priv_params@),
        iv@.len() == 16,
{
    let mut iv: Vec<u8> = Vec::new();
    push_be_bytes(&mut iv, engine_boots);
    push_be_bytes(&mut iv, engine_time);
    let mut i: usize = 0;
    while i < 8
        invariant
            i <= 8 <= priv_params@.len(),
            iv@ =~= be_bytes(engine_boots) + be_bytes(engine_time) + priv_params@.take(i as int),
        decreases 8 - i,
    {
        iv.push(priv_params[i]);
        i = i + 1;
    }
    iv
}

/// The password stretched to one mebibyte by repeating it.
pub fn stretch_password(password: &[u8]) -> (out: Vec<u8>)
    requires
        password@.len() > 0,
    ensures
        out@ == stretched_password(password@),
{
    let mut out: Vec<u8> = Vec::new();
    let mut index: usize = 0;
    let mut i: usize = 0;
    while i < STRETCH_LEN
        invariant
            i <= STRETCH_LEN,
            password@.len() > 0,
            index as int == (i as int) % (password@.len() as int),
            out@.len() == i,
            forall|j: int| 0 <= j < i ==> out@[j] == password@[j % (password@.len() as int)],
        decreases STRETCH_LEN - i,
    {
        out.push(password[index]);
        proof {
            let n = password@.len() as int;
            let ii = i as int;
            assert((ii + 1) % n == if index + 1 == n {
                0
            } else {
                index + 1
            }) by (nonlinear_arith)
                requires
                    n > 0,
                    index as int == ii % n,
                    0 <= ii,
            ;
        }
        index = if index + 1 == password.len() {
            0
        } else {
            index + 1
        };
        i = i + 1;
    }
    proof {
        assert(out@ =~= stretched_password(password@));
    }
    out
}

/// RFC 3414 A.2: hash one mebibyte of stretched password, then localize
/// the digest to the engine id with `H(key || engine_id || key)`.
pub fn derive_localized_key(password: &[u8], engine_id: &[u8]) -> (key: Vec<u8>)
    requires
        password@.len() > 0,
    ensures
        key@ == localized_key(password@, engine_id@),
        key@.len() == 32,
{
    let stretched = stretch_password(password);
    let ku = sha256(stretched.as_slice());
    let mut material: Vec<u8> = Vec::new();
    let mut i: usize = 0;
    while i < ku.len()
        invariant
            i <= ku@.len(),
            material@ =~= ku@.take(i as int),
        decreases ku@.len() - i,
    {
        material.push(ku[i]);
        i = i + 1;
    }
    let mut j: usize = 0;
    while j < engine_id.len()
        invariant
            j <= engine_id@.len(),
            ku@.len() == 32,
            material@ =~= ku@ + engine_id@.take(j as int),
        decreases engine_id@.len() - j,
    {
        material.push(engine_id[j]);
        j = j + 1;
    }
    let mut k: usize = 0;
    while k < ku.len()
        invariant
            k <= ku@.len(),
            material@ =~= ku@ + engine_id@ + ku@.take(k as int),
        decreases ku@.len() - k,
    {
        material.push(ku[k]);
        k = k + 1;
    }
    proof {
        assert(ku@.take(32) =~= ku@);
        assert(engine_id@.take(engine_id@.len() as int) =~= engine_id@);
    }
    sha256(material.as_slice())
}

/// The RFC 7860 HMAC-SHA-256-128 tag of `message`: the first 16 bytes of
/// its HMAC-SHA-256.
pub fn hmac_sign(auth_key: &[u8], message: &[u8]) -> (tag: Vec<u8>)
    ensures
        tag@ == hmac_sha256_of(auth_key@, message@).take(AUTH_TRUNC_LEN as int),
        tag@.len() == AUTH_TRUNC_LEN,
{
    let full = hmac_sha256(auth_key, message);
    prefix(full.as_slice(), AUTH_TRUNC_LEN)
}

/// RFC 3826 3.1.2: AES-128 CFB128 decryption with the IV built from
/// engine boots, engine time and the privacy parameters.
pub fn aes_cfb_decrypt(
    ciphertext: &[u8],
    priv_key: &[u8],
    engine_boots: u32,
    engine_time: u32,
    priv_params: &[u8],
) -> (plaintext: Vec<u8>)
    requires
        priv_key@.len() >= PRIV_KEY_LEN,
        priv_params@.len() >= 8,
    ensures
        plaintext@ == aes128_cfb_decrypt_of(
            priv_key@.take(PRIV_KEY_LEN as int),
            iv_spec(engine_boots, engine_time, priv_params@),
            ciphertext@,
        ),
{
    let iv = build_iv(engine_boots, engine_time, priv_params);
    let key = prefix(priv_key, PRIV_KEY_LEN);
    aes128_cfb_decrypt(key.as_slice(), iv.as_slice(), ciphertext)
}

/// AES-128 CFB128 encryption with the IV built from engine boots, engine
/// time and the given 8-byte salt.
pub fn aes_cfb_encrypt_with_salt(
    plaintext: &[u8],
    priv_key: &[u8],
    engine_boots: u32,
    engine_time: u32,
    salt: &[u8],
) -> (ciphertext: Vec<u8>)
    requires
        priv_key@.len() >= PRIV_KEY_LEN,
        salt@.len() >= 8,
    ensures
        ciphertext@.len() == plaintext@.len(),
        ciphertext@ == aes128_cfb_encrypt_of(
            priv_key@.take(PRIV_KEY_LEN as int),
            iv_spec(engine_boots, engine_time, salt@),
            plaintext@,
        ),
        aes128_cfb_decrypt_of(
            priv_key@.take(PRIV_KEY_LEN as int),
            iv_spec(engine_boots, engine_time, salt@),
            ciphertext@,
        ) == plaintext@,
{
    let iv = build_iv(engine_boots, engine_time, salt);
    let key = prefix(priv_key, PRIV_KEY_LEN);
    aes128_cfb_encrypt(key.as_slice(), iv.as_slice(), plaintext)
}

/// RFC 3826 3.1.1.1: encrypt with a fresh random 8-byte salt. Returns the
/// ciphertext and the salt, which travels as the privacy parameters.
pub fn aes_cfb_encrypt(
    plaintext: &[u8],
    priv_key: &[u8],
    engine_boots: u32,
    engine_time: u32,
) -> (r: (Vec<u8>, Vec<u8>))
    requires
        priv_key@.len() >= PRIV_KEY_LEN,
    ensures
        r.1@.len() == 8,
        r.0@.len() == plaintext@.len(),
        r.0@ == aes128_cfb_encrypt_of(
            priv_key@.take(PRIV_KEY_LEN as int),
            iv_spec(engine_boots, engine_time, r.1@),
            plaintext@,
        ),
        aes128_cfb_decrypt_of(
            priv_key@.take(PRIV_KEY_LEN as int),
            iv_spec(engine_boots, engine_time, r.1@),
            r.0@,
        ) == plaintext@,
{
    let salt = random_salt();
    let ct = aes_cfb_encrypt_with_salt(plaintext, priv_key, engine_boots, engine_time, salt.as_slice());
    (ct, salt)
}

} // verus!
