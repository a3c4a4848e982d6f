use vstd::prelude::*;

use crate::envelope::{
    envelope_bytes, lemma_parse_envelope_bytes, params_in_bounds, parse_spec, Envelope, EnvelopeView,
    HMAC_LEN, IV_LEN,
};
use crate::error::PasswordError;
use crate::primitives::{
    aes256_ctr, aes_ctr, derive_key, hmac_sha512, hmac_sha512_tag, random_bytes, scrypt_key,
};

verus! {

/// The half of a derived key that encrypts.
pub open spec fn enc_key(k: Seq<u8>) -> Seq<u8> {
    k.subrange(0, 32)
}

/// The half of a derived key that authenticates.
pub open spec fn mac_key(k: Seq<u8>) -> Seq<u8> {
    k.subrange(32, 64)
}

/// The stored tag: HMAC-SHA-512 over `iv ‖ ciphertext`, cut to 32 bytes.
pub open spec fn tag_of(k: Seq<u8>, iv: Seq<u8>, ciphertext: Seq<u8>) -> Seq<u8> {
    hmac_sha512(mac_key(k), iv + ciphertext).subrange(0, 32)
}

/// The file that encrypting `plaintext` under `master` with the given
/// parameters and initialisation vector gives.
pub open spec fn seal_spec(plaintext: Seq<u8>, master: Seq<char>, log2_n: u32, r: u32, p: u32, iv: Seq<u8>) -> Seq<u8> {
    let k = scrypt_key(master, iv, log2_n, r, p);
    let ct = aes_ctr(enc_key(k), iv, plaintext);
    envelope_bytes(EnvelopeView { log2_n, r, p, hmac: tag_of(k, iv, ct), iv, ciphertext: ct })
}

/// What opening the file `file` under `master` gives: the header is read,
/// the tag is checked (a mismatch is `WrongMasterPassword`), and only then is
/// the ciphertext decrypted.
pub open spec fn open_spec(file: Seq<u8>, master: Seq<char>) -> Result<Seq<u8>, PasswordError> {
    match parse_spec(file) {
        Err(e) => Err(e),
        Ok(e) => {
            let k = scrypt_key(master, e.iv, e.log2_n, e.r, e.p);
            if tag_of(k, e.iv, e.ciphertext) != e.hmac {
                Err(PasswordError::WrongMasterPassword)
            } else {
                Ok(aes_ctr(enc_key(k), e.iv, e.ciphertext))
            }
        },
    }
}

/// Compares two byte strings of equal length, looking at every byte whatever
/// the first difference, so that the time taken does not reveal where they differ.
pub fn constant_time_eq(a: &Vec<u8>, b: &Vec<u8>) -> (r: bool)
    requires
        a@.len() == b@.len(),
    ensures
        r == (a@ == b@),
{
    let mut diff: u8 = 0;
    let mut i: usize = 0;
    assert(a@.subrange(0, 0) =~= b@.subrange(0, 0));
    while i < a.len()
        invariant
            a@.len() == b@.len(),
            i <= a@.len(),
            (diff == 0) == (a@.subrange(0, i as int) == b@.subrange(0, i as int)),
        decreases a@.len() - i,
    {
        let ai = a[i];
        let bi = b[i];
        let x = ai ^ bi;
        assert(x == 0 <==> ai == bi) by (bit_vector)
            requires
                x == ai ^ bi,
        ;
        let ghost old_diff = diff;
        diff = diff | x;
        assert(diff == 0 <==> (old_diff == 0 && x == 0)) by (bit_vector)
            requires
                diff == old_diff | x,
        ;
        proof {
            let (sa, sb) = (a@.subrange(0, i + 1), b@.subrange(0, i + 1));
            if sa == sb {
                assert(sa[i as int] == sb[i as int]);
                assert(a@.subrange(0, i as int) =~= sa.subrange(0, i as int));
                assert(b@.subrange(0, i as int) =~= sb.subrange(0, i as int));
            }
            if a@.subrange(0, i as int) == b@.subrange(0, i as int) && x == 0 {
                assert forall|k: int| 0 <= k < i + 1 implies sa[k] == sb[k] by {
                    if k < i {
                        assert(a@.subrange(0, i as int)[k] == b@.subrange(0, i as int)[k]);
                    }
                }
                assert(sa =~= sb);
            }
        }
        i = i + 1;
    }
    assert(a@.subrange(0, i as int) =~= a@);
    assert(b@.subrange(0, i as int) =~= b@);
    diff == 0
}

fn prefix(v: &Vec<u8>, n: usize) -> (r: Vec<u8>)
    requires
        n <= v@.len(),
    ensures
        r@ == v@.subrange(0, n as int),
{
    let mut r: Vec<u8> = Vec::new();
    let mut i: usize = 0;
    while i < n
        invariant
            i <= n <= v@.len(),
            r@ == v@.subrange(0, i as int),
        decreases n - i,
    {
        r.push(v[i]);
        i = i + 1;
        assert(r@ =~= v@.subrange(0, i as int));
    }
    r
}

fn suffix(v: &Vec<u8>, n: usize) -> (r: Vec<u8>)
    requires
        n <= v@.len(),
    ensures
        r@ == v@.subrange(n as int, v@.len() as int),
{
    let mut r: Vec<u8> = Vec::new();
    let mut i: usize = n;
    while i < v.len()
        invariant
            n <= i <= v@.len(),
            r@ == v@.subrange(n as int, i as int),
        decreases v@.len() - i,
    {
        r.push(v[i]);
        i = i + 1;
        assert(r@ =~= v@.subrange(n as int, i as int));
    }
    r
}

fn concat(a: &Vec<u8>, b: &Vec<u8>) -> (r: Vec<u8>)
    ensures
        r@ == a@ + b@,
{
    let mut r = a.clone();
    let mut i: usize = 0;
    while i < b.len()
        invariant
            i <= b@.len(),
            r@ == a@ + b@.subrange(0, i as int),
        decreases b@.len() - i,
    {
        r.push(b[i]);
        i = i + 1;
        assert(r@ =~= a@ + b@.subrange(0, i as int));
    }
    assert(b@.subrange(0, i as int) =~= b@);
    r
}

/// Encrypts `plaintext` under `master` with the given parameters and
/// initialisation vector (which is also the key derivation salt), and returns
/// the bytes of the file. Opening them under the same master password gives
/// the plaintext back.
pub fn encrypt_with_iv(plaintext: &Vec<u8>, master: &str, log2_n: u32, r: u32, p: u32, iv: Vec<u8>) -> (out: Vec<u8>)
    requires
        params_in_bounds(log2_n, r, p),
        iv@.len() == IV_LEN,
    ensures
        out@ == seal_spec(plaintext@, master@, log2_n, r, p, iv@),
        open_spec(out@, master@) == Ok::<Seq<u8>, PasswordError>(plaintext@),
{
    let k = derive_key(master, iv.as_slice(), log2_n, r, p);
    let ek = prefix(&k, 32);
    let mk = suffix(&k, 32);
    let ciphertext = aes256_ctr(ek.as_slice(), iv.as_slice(), plaintext.as_slice());
    let msg = concat(&iv, &ciphertext);
    let full = hmac_sha512_tag(mk.as_slice(), msg.as_slice());
    let hmac = prefix(&full, HMAC_LEN);
    let e = Envelope { log2_n, r, p, hmac, iv, ciphertext };
    proof {
        lemma_parse_envelope_bytes(e@);
    }
    e.encode()
}

/// Encrypts `plaintext` under `master` with a fresh random initialisation
/// vector. Fails with `Io` only when the random source fails.
pub fn encrypt(plaintext: &Vec<u8>, master: &str, log2_n: u32, r: u32, p: u32) -> (out: Result<Vec<u8>, PasswordError>)
    requires
        params_in_bounds(log2_n, r, p),
    ensures
        out is Err ==> out == Err::<Vec<u8>, PasswordError>(PasswordError::Io),
        out matches Ok(b) ==> exists|iv: Seq<u8>| iv.len() == IV_LEN && b@ == seal_spec(plaintext@, master@, log2_n, r, p, iv),
        out matches Ok(b) ==> open_spec(b@, master@) == Ok::<Seq<u8>, PasswordError>(plaintext@),
{
    match random_bytes(IV_LEN) {
        Ok(iv) => Ok(encrypt_with_iv(plaintext, master, log2_n, r, p, iv)),
        Err(_) => Err(PasswordError::Io),
    }
}

/// Opens the file `file` under `master`: reads the header, derives the key
/// from the stored parameters and vector, checks the tag in constant time and
/// decrypts. Any mismatch of the tag is `WrongMasterPassword`.
pub fn decrypt(file: &Vec<u8>, master: &str) -> (r: Result<Vec<u8>, PasswordError>)
    ensures
        match r {
            Ok(pt) => open_spec(file@, master@) == Ok::<Seq<u8>, PasswordError>(pt@),
            Err(e) => open_spec(file@, master@) == Err::<Seq<u8>, PasswordError>(e),
        },
{
    let e = match Envelope::parse(file) {
        Ok(e) => e,
        Err(err) => {
            return Err(err);
        },
    };
    let k = derive_key(master, e.iv.as_slice(), e.log2_n, e.r, e.p);
    let ek = prefix(&k, 32);
    let mk = suffix(&k, 32);
    let msg = concat(&e.iv, &e.ciphertext);
    let full = hmac_sha512_tag(mk.as_slice(), msg.as_slice());
    let tag = prefix(&full, HMAC_LEN);
    if !constant_time_eq(&tag, &e.hmac) {
        return Err(PasswordError::WrongMasterPassword);
    }
    Ok(aes256_ctr(ek.as_slice(), e.iv.as_slice(), e.ciphertext.as_slice()))
}

} // verus!
