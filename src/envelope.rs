use vstd::prelude::*;

use crate::error::PasswordError;

verus! {

/// Length of the authentication tag stored in a file.
pub const HMAC_LEN: usize = 32;

/// Length of the initialisation vector, which is also the key derivation salt.
pub const IV_LEN: usize = 16;

/// Length of the fixed header: magic, version, three parameters, tag and vector.
pub const HEADER_LEN: usize = 65;

/// The format version that this library writes and reads.
pub const CURRENT_VERSION: u8 = 2;

/// The four magic bytes `ROST` that open every file.
pub open spec fn magic() -> Seq<u8> {
    seq![0x52u8, 0x4fu8, 0x53u8, 0x54u8]
}

/// Bounds on the key derivation parameters: `log2_n` in 1..=20, `r` and `p` in
/// 1..=255, and `log2_n` below `16 * r`, which scrypt itself demands.
pub open spec fn params_in_bounds(log2_n: u32, r: u32, p: u32) -> bool {
    1 <= log2_n <= 20 && 1 <= r <= 255 && 1 <= p <= 255 && log2_n < 16 * r
}

/// The four little-endian bytes of `v`.
pub open spec fn u32_le(v: u32) -> Seq<u8> {
    seq![
        (v % 256) as u8,
        ((v / 256) % 256) as u8,
        ((v / 65536) % 256) as u8,
        (v / 16777216) as u8,
    ]
}

/// The integer held little-endian in `b[at..at + 4]`.
pub open spec fn le_at(b: Seq<u8>, at: int) -> u32 {
    (b[at] + 256 * b[at + 1] + 65536 * b[at + 2] + 16777216 * b[at + 3]) as u32
}

/// The content of an encrypted file, field by field.
pub struct EnvelopeView {
    pub log2_n: u32,
    pub r: u32,
    pub p: u32,
    pub hmac: Seq<u8>,
    pub iv: Seq<u8>,
    pub ciphertext: Seq<u8>,
}

impl EnvelopeView {
    /// Tag and vector have their fixed lengths and the parameters are in bounds.
    pub open spec fn wf(self) -> bool {
        &&& self.hmac.len() == HMAC_LEN
        &&& self.iv.len() == IV_LEN
        &&& params_in_bounds(self.log2_n, self.r, self.p)
    }
}

/// The bytes of a file that holds `e`.
pub open spec fn envelope_bytes(e: EnvelopeView) -> Seq<u8> {
    magic() + seq![CURRENT_VERSION] + u32_le(e.log2_n) + u32_le(e.r) + u32_le(e.p) + e.hmac + e.iv
        + e.ciphertext
}

/// What reading the bytes `b` of a file gives.
pub open spec fn parse_spec(b: Seq<u8>) -> Result<EnvelopeView, PasswordError> {
    if b.len() < 5 || b.subrange(0, 4) != magic() {
        Err(PasswordError::Corruption)
    } else if b[4] == 1 {
        Err(PasswordError::NeedUpgradeFromV1)
    } else if b[4] > CURRENT_VERSION {
        Err(PasswordError::OutdatedBinary)
    } else if b[4] != CURRENT_VERSION || b.len() < HEADER_LEN {
        Err(PasswordError::Corruption)
    } else if !params_in_bounds(le_at(b, 5), le_at(b, 9), le_at(b, 13)) {
        Err(PasswordError::Corruption)
    } else {
        Ok(
            EnvelopeView {
                log2_n: le_at(b, 5),
                r: le_at(b, 9),
                p: le_at(b, 13),
                hmac: b.subrange(17, 49),
                iv: b.subrange(49, 65),
                ciphertext: b.subrange(65, b.len() as int),
            },
        )
    }
}

/// An encrypted file split into its fields.
pub struct Envelope {
    pub log2_n: u32,
    pub r: u32,
    pub p: u32,
    pub hmac: Vec<u8>,
    pub iv: Vec<u8>,
    pub ciphertext: Vec<u8>,
}

impl View for Envelope {
    type V = EnvelopeView;

    open spec fn view(&self) -> EnvelopeView {
        EnvelopeView {
            log2_n: self.log2_n,
            r: self.r,
            p: self.p,
            hmac: self.hmac@,
            iv: self.iv@,
            ciphertext: self.ciphertext@,
        }
    }
}

proof fn lemma_le_round_trip(v: u32)
    ensures
        le_at(u32_le(v), 0) == v,
{
    let b = u32_le(v);
    let vi = v as int;
    assert(b[0] + 256 * b[1] + 65536 * b[2] + 16777216 * b[3] == vi) by (nonlinear_arith)
        requires
            0 <= vi < 0x1_0000_0000,
            b[0] == vi % 256,
            b[1] == (vi / 256) % 256,
            b[2] == (vi / 65536) % 256,
            b[3] == vi / 16777216,
    ;
}

proof fn lemma_le_bytes(b: Seq<u8>, at: int)
    requires
        0 <= at,
        at + 4 <= b.len(),
    ensures
        u32_le(le_at(b, at)) == b.subrange(at, at + 4),
{
    let (b0, b1, b2, b3) = (b[at] as int, b[at + 1] as int, b[at + 2] as int, b[at + 3] as int);
    let v = b0 + 256 * b1 + 65536 * b2 + 16777216 * b3;
    assert(0 <= v < 0x1_0000_0000 && v % 256 == b0 && (v / 256) % 256 == b1 && (v / 65536) % 256
        == b2 && v / 16777216 == b3) by (nonlinear_arith)
        requires
            0 <= b0 < 256,
            0 <= b1 < 256,
            0 <= b2 < 256,
            0 <= b3 < 256,
            v == b0 + 256 * b1 + 65536 * b2 + 16777216 * b3,
    ;
    assert(u32_le(le_at(b, at)) =~= b.subrange(at, at + 4));
}

/// Reading the bytes of a well-formed envelope gives that envelope back.
pub proof fn lemma_parse_envelope_bytes(e: EnvelopeView)
    requires
        e.wf(),
    ensures
        parse_spec(envelope_bytes(e)) == Ok::<EnvelopeView, PasswordError>(e),
{
    let b = envelope_bytes(e);
    assert(b.len() == 65 + e.ciphertext.len());
    assert(b.subrange(0, 4) =~= magic());
    assert(b[4] == CURRENT_VERSION);
    assert(b.subrange(5, 9) =~= u32_le(e.log2_n));
    assert(b.subrange(9, 13) =~= u32_le(e.r));
    assert(b.subrange(13, 17) =~= u32_le(e.p));
    lemma_le_round_trip(e.log2_n);
    lemma_le_round_trip(e.r);
    lemma_le_round_trip(e.p);
    assert(le_at(b, 5) == le_at(u32_le(e.log2_n), 0));
    assert(le_at(b, 9) == le_at(u32_le(e.r), 0));
    assert(le_at(b, 13) == le_at(u32_le(e.p), 0));
    assert(b.subrange(17, 49) =~= e.hmac);
    assert(b.subrange(49, 65) =~= e.iv);
    assert(b.subrange(65, b.len() as int) =~= e.ciphertext);
}

/// A file that reads successfully is exactly the bytes of what it reads as, so
/// two different files never read as the same envelope: any altered byte either
/// makes reading fail or changes a field.
pub proof fn lemma_parse_exact(b: Seq<u8>)
    requires
        parse_spec(b) is Ok,
    ensures
        parse_spec(b)->Ok_0.wf(),
        envelope_bytes(parse_spec(b)->Ok_0) == b,
{
    let e = parse_spec(b)->Ok_0;
    lemma_le_bytes(b, 5);
    lemma_le_bytes(b, 9);
    lemma_le_bytes(b, 13);
    assert(b.subrange(0, 4) =~= magic());
    let eb = envelope_bytes(e);
    assert(eb.len() == b.len());
    assert forall|i: int| 0 <= i < b.len() implies eb[i] == b[i] by {
        if i < 4 {
            assert(b.subrange(0, 4)[i] == b[i]);
        } else if i == 4 {
        } else if i < 9 {
            assert(b.subrange(5, 9)[i - 5] == b[i]);
        } else if i < 13 {
            assert(b.subrange(9, 13)[i - 9] == b[i]);
        } else if i < 17 {
            assert(b.subrange(13, 17)[i - 13] == b[i]);
        }
    }
    assert(eb =~= b);
}

/// Two files that read as the same envelope are the same bytes.
pub proof fn lemma_parse_injective(b1: Seq<u8>, b2: Seq<u8>)
    requires
        parse_spec(b1) is Ok,
        parse_spec(b1) == parse_spec(b2),
    ensures
        b1 == b2,
{
    lemma_parse_exact(b1);
    lemma_parse_exact(b2);
}

fn push_u32_le(out: &mut Vec<u8>, v: u32)
    ensures
        final(out)@ == old(out)@ + u32_le(v),
{
    out.push((v % 256) as u8);
    out.push(((v / 256) % 256) as u8);
    out.push(((v / 65536) % 256) as u8);
    out.push((v / 16777216) as u8);
    assert(final(out)@ =~= old(out)@ + u32_le(v));
}

fn append_bytes(out: &mut Vec<u8>, src: &Vec<u8>)
    ensures
        final(out)@ == old(out)@ + src@,
{
    let mut i: usize = 0;
    while i < src.len()
        invariant
            i <= src@.len(),
            out@ == old(out)@ + src@.subrange(0, i as int),
        decreases src@.len() - i,
    {
        out.push(src[i]);
        i = i + 1;
        assert(out@ =~= old(out)@ + src@.subrange(0, i as int));
    }
    assert(src@.subrange(0, i as int) =~= src@);
}

fn copy_range(b: &Vec<u8>, from: usize, to: usize) -> (r: Vec<u8>)
    requires
        from <= to <= b@.len(),
    ensures
        r@ == b@.subrange(from as int, to as int),
{
    let mut r: Vec<u8> = Vec::new();
    let mut i: usize = from;
    while i < to
        invariant
            from <= i <= to <= b@.len(),
            r@ == b@.subrange(from as int, i as int),
        decreases to - i,
    {
        r.push(b[i]);
        i = i + 1;
        assert(r@ =~= b@.subrange(from as int, i as int));
    }
    r
}

fn read_u32_le(b: &Vec<u8>, at: usize) -> (r: u32)
    requires
        at + 4 <= b@.len(),
    ensures
        r == le_at(b@, at as int),
{
    let len = b.len();
    assert(at + 3 < len);
    let b0 = b[at] as u64;
    let b1 = b[at + 1] as u64;
    let b2 = b[at + 2] as u64;
    let b3 = b[at + 3] as u64;
    assert(b0 + 256 * b1 + 65536 * b2 + 16777216 * b3 < 0x1_0000_0000) by (nonlinear_arith)
        requires
            b0 < 256,
            b1 < 256,
            b2 < 256,
            b3 < 256,
    ;
    (b0 + 256 * b1 + 65536 * b2 + 16777216 * b3) as u32
}

impl Envelope {
    /// The bytes of a file that holds this envelope.
    pub fn encode(&self) -> (r: Vec<u8>)
        ensures
            r@ == envelope_bytes(self@),
    {
        let mut out: Vec<u8> = Vec::new();
        out.push(0x52u8);
        out.push(0x4fu8);
        out.push(0x53u8);
        out.push(0x54u8);
        out.push(CURRENT_VERSION);
        assert(out@ =~= magic() + seq![CURRENT_VERSION]);
        push_u32_le(&mut out, self.log2_n);
        push_u32_le(&mut out, self.r);
        push_u32_le(&mut out, self.p);
        append_bytes(&mut out, &self.hmac);
        append_bytes(&mut out, &self.iv);
        append_bytes(&mut out, &self.ciphertext);
        out
    }

    /// Reads the bytes of a file: the header is checked (magic, version,
    /// lengths, parameter bounds) and the fields are split out.
    pub fn parse(b: &Vec<u8>) -> (r: Result<Envelope, PasswordError>)
        ensures
            match r {
                Ok(e) => parse_spec(b@) == Ok::<EnvelopeView, PasswordError>(e@),
                Err(err) => parse_spec(b@) == Err::<EnvelopeView, PasswordError>(err),
            },
    {
        if b.len() < 5 || b[0] != 0x52u8 || b[1] != 0x4fu8 || b[2] != 0x53u8 || b[3] != 0x54u8 {
            proof {
                if b@.len() >= 5 {
                    assert(b@.subrange(0, 4)[0] == b@[0]);
                    assert(b@.subrange(0, 4)[1] == b@[1]);
                    assert(b@.subrange(0, 4)[2] == b@[2]);
                    assert(b@.subrange(0, 4)[3] == b@[3]);
                    assert(b@.subrange(0, 4) != magic());
                }
            }
            return Err(PasswordError::Corruption);
        }
        assert(b@.subrange(0, 4) =~= magic());
        let version = b[4];
        if version == 1 {
            return Err(PasswordError::NeedUpgradeFromV1);
        }
        if version > CURRENT_VERSION {
            return Err(PasswordError::OutdatedBinary);
        }
        if version != CURRENT_VERSION || b.len() < HEADER_LEN {
            return Err(PasswordError::Corruption);
        }
        let log2_n = read_u32_le(b, 5);
        let r = read_u32_le(b, 9);
        let p = read_u32_le(b, 13);
        if !(1 <= log2_n && log2_n <= 20 && 1 <= r && r <= 255 && 1 <= p && p <= 255 && log2_n < 16 * r) {
            return Err(PasswordError::Corruption);
        }
        let hmac = copy_range(b, 17, 49);
        let iv = copy_range(b, 49, 65);
        let ciphertext = copy_range(b, 65, b.len());
        let e = Envelope { log2_n, r, p, hmac, iv, ciphertext };
        assert(e@ == parse_spec(b@)->Ok_0);
        Ok(e)
    }
}

} // verus!
