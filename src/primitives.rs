use vstd::prelude::*;

use crate::envelope::params_in_bounds;

verus! {

#[verifier::external_type_specification]
#[verifier::external_body]
pub struct ExRandomError(getrandom::Error);

/// The 64-byte key that scrypt derives from a password, a salt and parameters.
pub uninterp spec fn scrypt_key(password: Seq<char>, salt: Seq<u8>, log2_n: u32, r: u32, p: u32) -> Seq<u8>;

/// Relies on `scrypt::scrypt` (with `scrypt::Params::new`, which accepts every
/// parameter set in bounds and an output of 64 bytes): a 64-byte key that
/// depends on the UTF-8 bytes of the password, the salt and the parameters alone.
#[verifier::external_body]
pub(crate) fn derive_key(password: &str, salt: &[u8], log2_n: u32, r: u32, p: u32) -> (k: Vec<u8>)
    requires
        params_in_bounds(log2_n, r, p),
    ensures
        k@ == scrypt_key(password@, salt@, log2_n, r, p),
        k@.len() == 64,
{
    let params = scrypt::Params::new(log2_n as u8, r, p, 64).expect("parameters in bounds");
    let mut out = vec![0u8; 64];
    scrypt::scrypt(password.as_bytes(), salt, &params, &mut out).expect("64-byte output");
    out
}

/// The bytes that AES-256 in CTR mode (big-endian 128-bit counter starting at
/// `iv`) makes of `data` under `key`.
pub uninterp spec fn aes_ctr(key: Seq<u8>, iv: Seq<u8>, data: Seq<u8>) -> Seq<u8>;

/// Relies on `ctr::Ctr128BE<aes::Aes256>` and its `apply_keystream`, which
/// XORs the data with a keystream fixed by key and counter: the result has the
/// length of the data, and applying the same key and counter to it gives the
/// data back.
#[verifier::external_body]
pub(crate) fn aes256_ctr(key: &[u8], iv: &[u8], data: &[u8]) -> (r: Vec<u8>)
    requires
        key@.len() == 32,
        iv@.len() == 16,
    ensures
        r@ == aes_ctr(key@, iv@, data@),
        r@.len() == data@.len(),
        aes_ctr(key@, iv@, r@) == data@,
{
    let mut cipher = <ctr::Ctr128BE<aes::Aes256> as ctr::cipher::KeyIvInit>::new_from_slices(key, iv)
        .expect("32-byte key and 16-byte counter");
    let mut buf = data.to_vec();
    ctr::cipher::StreamCipher::apply_keystream(&mut cipher, &mut buf);
    buf
}

/// The 64-byte HMAC-SHA-512 of `msg` under `key`.
pub uninterp spec fn hmac_sha512(key: Seq<u8>, msg: Seq<u8>) -> Seq<u8>;

/// Relies on `hmac::Hmac<sha2::Sha512>`, which takes keys of any length: a
/// 64-byte tag that depends on the key and the message alone.
#[verifier::external_body]
pub(crate) fn hmac_sha512_tag(key: &[u8], msg: &[u8]) -> (r: Vec<u8>)
    ensures
        r@ == hmac_sha512(key@, msg@),
        r@.len() == 64,
{
    let mut mac = <hmac::Hmac<sha2::Sha512> as hmac::Mac>::new_from_slice(key)
        .expect("any key length");
    hmac::Mac::update(&mut mac, msg);
    hmac::Mac::finalize(mac).into_bytes().to_vec()
}

/// Relies on `getrandom::getrandom`, the operating system's cryptographic
/// source, which fills the whole buffer or fails: `n` bytes of no known value.
#[verifier::external_body]
pub(crate) fn random_bytes(n: usize) -> (r: Result<Vec<u8>, getrandom::Error>)
    ensures
        r matches Ok(v) ==> v@.len() == n,
{
    let mut buf = vec![0u8; n];
    getrandom::getrandom(&mut buf)?;
    Ok(buf)
}

} // verus!
