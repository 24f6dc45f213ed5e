//! The cipher pipeline: AES-128-CBC encryption with PKCS#7 padding under the
//! process-wide fixed key and initialization vector, and the base64 transport
//! encoding of the resulting ciphertext.

use vstd::prelude::*;
use block_modes::BlockMode;

verus! {

/// The fixed 16-byte cipher key, the bytes of `verysecretkey123`.
pub open spec fn spec_key() -> Seq<u8> {
    seq![
        0x76u8, 0x65, 0x72, 0x79, 0x73, 0x65, 0x63, 0x72,
        0x65, 0x74, 0x6b, 0x65, 0x79, 0x31, 0x32, 0x33,
    ]
}

/// The fixed 16-byte initialization vector, the bytes of `uniqueinitvector`.
pub open spec fn spec_iv() -> Seq<u8> {
    seq![
        0x75u8, 0x6e, 0x69, 0x71, 0x75, 0x65, 0x69, 0x6e,
        0x69, 0x74, 0x76, 0x65, 0x63, 0x74, 0x6f, 0x72,
    ]
}

pub(crate) fn key_bytes() -> (r: Vec<u8>)
    ensures
        r@ == spec_key(),
{
    let r: Vec<u8> = vec![
        0x76u8, 0x65, 0x72, 0x79, 0x73, 0x65, 0x63, 0x72,
        0x65, 0x74, 0x6b, 0x65, 0x79, 0x31, 0x32, 0x33,
    ];
    proof {
        assert(r@ =~= spec_key());
    }
    r
}

pub(crate) fn iv_bytes() -> (r: Vec<u8>)
    ensures
        r@ == spec_iv(),
{
    let r: Vec<u8> = vec![
        0x75u8, 0x6e, 0x69, 0x71, 0x75, 0x65, 0x69, 0x6e,
        0x69, 0x74, 0x76, 0x65, 0x63, 0x74, 0x6f, 0x72,
    ];
    proof {
        assert(r@ =~= spec_iv());
    }
    r
}

/// The length of a byte sequence of length `n` after PKCS#7 padding to
/// 16-byte blocks: the next multiple of 16 strictly above `n`.
pub open spec fn spec_padded_len(n: nat) -> nat {
    ((n / 16) + 1) * 16
}

/// The padded length is a positive multiple of the block size, strictly
/// above the input length and at most one whole block beyond it.
pub proof fn lemma_padded_len(n: nat)
    ensures
        spec_padded_len(n) % 16 == 0,
        spec_padded_len(n) >= 16,
        n < spec_padded_len(n) <= n + 16,
{
    assert(spec_padded_len(n) % 16 == 0) by (nonlinear_arith);
    assert(n < spec_padded_len(n) <= n + 16) by (nonlinear_arith);
}

/// The ciphertext that AES-128-CBC with PKCS#7 padding produces from `data`
/// under `key` and `iv`.
pub uninterp spec fn aes_cbc_of(key: Seq<u8>, iv: Seq<u8>, data: Seq<u8>) -> Seq<u8>;

/// The standard base64 encoding (with `=` padding) of `data`, as ASCII bytes.
pub uninterp spec fn base64_of(data: Seq<u8>) -> Seq<u8>;

/// Relies on `block_modes::Cbc::<Aes128, Pkcs7>::new_from_slices` and
/// `BlockMode::encrypt_vec`: AES-128-CBC encryption with PKCS#7 padding, whose
/// output is the input padded to the next 16-byte boundary, then encrypted
/// block by block.
#[verifier::external_body]
pub(crate) fn aes128_cbc_encrypt(key: &[u8], iv: &[u8], data: &[u8]) -> (r: Vec<u8>)
    requires
        key@.len() == 16,
        iv@.len() == 16,
    ensures
        r@ == aes_cbc_of(key@, iv@, data@),
        r@.len() == spec_padded_len(data@.len()),
{
    let cipher = block_modes::Cbc::<aes::Aes128, block_modes::block_padding::Pkcs7>::new_from_slices(
        key, iv,
    ).unwrap();
    cipher.encrypt_vec(data)
}

/// Relies on `block_modes::Cbc::<Aes128, Pkcs7>::new_from_slices` and
/// `BlockMode::decrypt_vec`: CBC decryption followed by PKCS#7 unpadding
/// inverts `encrypt_vec` under the same key and initialization vector.
#[verifier::external_body]
pub(crate) fn aes128_cbc_decrypt(key: &[u8], iv: &[u8], data: &[u8]) -> (r: Result<Vec<u8>, ()>)
    requires
        key@.len() == 16,
        iv@.len() == 16,
    ensures
        forall|p: Seq<u8>| data@ == aes_cbc_of(key@, iv@, p) ==> r is Ok && r->Ok_0@ == p,
{
    let cipher = block_modes::Cbc::<aes::Aes128, block_modes::block_padding::Pkcs7>::new_from_slices(
        key, iv,
    ).unwrap();
    match cipher.decrypt_vec(data) {
        Ok(v) => Ok(v),
        Err(_) => Err(()),
    }
}

/// Relies on `base64::encode`: the standard alphabet with `=` padding, four
/// output bytes for every three input bytes, rounded up.
#[verifier::external_body]
pub(crate) fn base64_encode(data: &[u8]) -> (r: Vec<u8>)
    ensures
        r@ == base64_of(data@),
        r@.len() == 4 * ((data@.len() + 2) / 3),
{
    base64::encode(data).into_bytes()
}

/// Relies on `base64::decode`: it inverts `base64::encode`.
#[verifier::external_body]
pub(crate) fn base64_decode(data: &[u8]) -> (r: Result<Vec<u8>, ()>)
    ensures
        forall|b: Seq<u8>| data@ == base64_of(b) ==> r is Ok && r->Ok_0@ == b,
{
    match base64::decode(data) {
        Ok(v) => Ok(v),
        Err(_) => Err(()),
    }
}

/// The raw ciphertext of `p` under the fixed key and initialization vector.
pub open spec fn spec_ciphertext(p: Seq<u8>) -> Seq<u8> {
    aes_cbc_of(spec_key(), spec_iv(), p)
}

/// The base64-encoded ciphertext of `p`: the token the service returns.
pub open spec fn spec_token(p: Seq<u8>) -> Seq<u8> {
    base64_of(spec_ciphertext(p))
}

/// Encrypting a password is a function of the password bytes alone, the key
/// and initialization vector being fixed: equal inputs give identical
/// ciphertexts. (Reuse of a fixed IV is a documented weakness of the scheme,
/// kept as it stands.)
pub proof fn lemma_encrypt_deterministic(p1: Seq<u8>, p2: Seq<u8>)
    requires
        p1 == p2,
    ensures
        spec_token(p1) == spec_token(p2),
{
}

/// AES-128-CBC ciphertext of `password` under the fixed key and
/// initialization vector, PKCS#7-padded: always a positive multiple of 16
/// bytes, one block more than the password's last whole block.
pub fn encrypt_password(password: &[u8]) -> (r: Vec<u8>)
    ensures
        r@ == spec_ciphertext(password@),
        r@.len() == spec_padded_len(password@.len()),
        r@.len() % 16 == 0,
        16 <= r@.len() <= password@.len() + 16,
{
    let key = key_bytes();
    let iv = iv_bytes();
    let r = aes128_cbc_encrypt(key.as_slice(), iv.as_slice(), password);
    proof {
        lemma_padded_len(password@.len());
    }
    r
}

/// The base64-encoded ciphertext of `password`: what the service places in
/// its response body.
pub fn encrypt_token(password: &[u8]) -> (r: Vec<u8>)
    ensures
        r@ == spec_token(password@),
        r@.len() >= 24,
{
    let raw = encrypt_password(password);
    base64_encode(raw.as_slice())
}

#[derive(Clone, Copy, Debug, PartialEq, Eq, Structural)]
pub enum DecryptError {
    /// The token is not the base64 encoding the service produces.
    Encoding,
    /// The decoded bytes do not decrypt to a PKCS#7-padded plaintext.
    Cipher,
}

/// Inverts `encrypt_token`: a token that encodes the ciphertext of some
/// password decrypts to exactly that password (the round trip recovers the
/// plaintext bytes).
pub fn decrypt_token(token: &[u8]) -> (r: Result<Vec<u8>, DecryptError>)
    ensures
        forall|p: Seq<u8>| token@ == spec_token(p) ==> r is Ok && r->Ok_0@ == p,
{
    let raw = match base64_decode(token) {
        Ok(v) => v,
        Err(_) => {
            return Err(DecryptError::Encoding);
        },
    };
    let key = key_bytes();
    let iv = iv_bytes();
    match aes128_cbc_decrypt(key.as_slice(), iv.as_slice(), raw.as_slice()) {
        Ok(p) => Ok(p),
        Err(_) => Err(DecryptError::Cipher),
    }
}

/// The round trip: decrypting the token that `encrypt_token` produced, with
/// the same fixed key and initialization vector, recovers exactly the
/// password bytes, whatever they were.
pub fn encrypt_then_decrypt(password: &[u8]) -> (r: Vec<u8>)
    ensures
        r@ == password@,
{
    let token = encrypt_token(password);
    match decrypt_token(token.as_slice()) {
        Ok(p) => p,
        Err(_) => {
            proof {
                assert(false);
            }
            Vec::new()
        },
    }
}

} // verus!
