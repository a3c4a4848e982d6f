use vstd::prelude::*;
use vstd::string::{StrSliceExecFns, StringExecFns};

use crate::error::PasswordError;

verus! {

/// Shortest generated password.
pub const MIN_PASSWORD_LEN: usize = 4;

/// Longest generated password.
pub const MAX_PASSWORD_LEN: usize = 128;

/// Length used when none is asked for.
pub const DEFAULT_PASSWORD_LEN: usize = 32;

/// The 62 ASCII letters and digits.
pub open spec fn alnum_alphabet() -> Seq<char> {
    "abcdefghijklmnopqrstuvwxyzABCDEFGHIJKLMNOPQRSTUVWXYZ0123456789"@
}

/// The 94 printable ASCII characters other than space.
pub open spec fn full_alphabet() -> Seq<char> {
    "!\"#$%&'()*+,-./0123456789:;<=>?@ABCDEFGHIJKLMNOPQRSTUVWXYZ[\\]^_`abcdefghijklmnopqrstuvwxyz{|}~"@
}

/// The characters a password is drawn from.
pub open spec fn alphabet(alnum: bool) -> Seq<char> {
    if alnum {
        alnum_alphabet()
    } else {
        full_alphabet()
    }
}

/// A random byte below this bound is kept; the others are dropped so that
/// every character of the alphabet is equally likely.
pub open spec fn accept_bound(alnum: bool) -> int {
    if alnum {
        248
    } else {
        188
    }
}

/// The characters that a run of random bytes gives: each kept byte `b`
/// selects the character at `b` modulo the alphabet's size.
pub open spec fn sampled(alnum: bool, bytes: Seq<u8>) -> Seq<char>
    decreases bytes.len(),
{
    if bytes.len() == 0 {
        Seq::empty()
    } else {
        let rest = sampled(alnum, bytes.drop_last());
        let b = bytes.last() as int;
        if b < accept_bound(alnum) {
            rest.push(alphabet(alnum)[b % (alphabet(alnum).len() as int)])
        } else {
            rest
        }
    }
}

pub open spec fn is_lower(c: char) -> bool {
    'a' <= c && c <= 'z'
}

pub open spec fn is_upper(c: char) -> bool {
    'A' <= c && c <= 'Z'
}

pub open spec fn is_digit(c: char) -> bool {
    '0' <= c && c <= '9'
}

/// Whether `s` holds a lowercase letter, an uppercase letter and a digit.
pub open spec fn has_all_classes(s: Seq<char>) -> bool {
    &&& exists|i: int| 0 <= i < s.len() && is_lower(#[trigger] s[i])
    &&& exists|i: int| 0 <= i < s.len() && is_upper(#[trigger] s[i])
    &&& exists|i: int| 0 <= i < s.len() && is_digit(#[trigger] s[i])
}

/// Whether a requested password length is allowed.
pub open spec fn length_allowed(len: usize) -> bool {
    MIN_PASSWORD_LEN <= len <= MAX_PASSWORD_LEN
}

/// Checks a requested password length: `InvalidLength` outside 4..=128.
pub fn check_password_len(len: usize) -> (r: Result<usize, PasswordError>)
    ensures
        length_allowed(len) ==> r == Ok::<usize, PasswordError>(len),
        !length_allowed(len) ==> r == Err::<usize, PasswordError>(PasswordError::InvalidLength),
{
    if MIN_PASSWORD_LEN <= len && len <= MAX_PASSWORD_LEN {
        Ok(len)
    } else {
        Err(PasswordError::InvalidLength)
    }
}

proof fn lemma_sampled_prefix(alnum: bool, bytes: Seq<u8>, i: int, j: int)
    requires
        0 <= i <= j <= bytes.len(),
    ensures
        sampled(alnum, bytes.take(i)).len() <= sampled(alnum, bytes.take(j)).len(),
        sampled(alnum, bytes.take(j)).take(sampled(alnum, bytes.take(i)).len() as int) == sampled(
            alnum,
            bytes.take(i),
        ),
    decreases j - i,
{
    if i < j {
        lemma_sampled_prefix(alnum, bytes, i, j - 1);
        assert(bytes.take(j).drop_last() =~= bytes.take(j - 1));
        let a = sampled(alnum, bytes.take(i));
        let b = sampled(alnum, bytes.take(j - 1));
        let c = sampled(alnum, bytes.take(j));
        assert(c.take(a.len() as int) =~= b.take(a.len() as int));
    } else {
        assert(sampled(alnum, bytes.take(j)).take(sampled(alnum, bytes.take(i)).len() as int)
            =~= sampled(alnum, bytes.take(i)));
    }
}

fn class_counts(s: &String) -> (r: bool)
    ensures
        r == has_all_classes(s@),
{
    let n = s.as_str().unicode_len();
    let mut lower = false;
    let mut upper = false;
    let mut digit = false;
    let mut i: usize = 0;
    while i < n
        invariant
            n == s@.len(),
            i <= n,
            lower == exists|k: int| 0 <= k < i && is_lower(#[trigger] s@[k]),
            upper == exists|k: int| 0 <= k < i && is_upper(#[trigger] s@[k]),
            digit == exists|k: int| 0 <= k < i && is_digit(#[trigger] s@[k]),
        decreases n - i,
    {
        let c = s.as_str().get_char(i);
        if 'a' <= c && c <= 'z' {
            lower = true;
        }
        if 'A' <= c && c <= 'Z' {
            upper = true;
        }
        if '0' <= c && c <= '9' {
            digit = true;
        }
        i = i + 1;
    }
    lower && upper && digit
}

/// Draws a password of `length` characters from the chosen alphabet, using
/// the bytes of `random` (from a cryptographic source) by rejection sampling.
/// Fails with `InvalidLength` outside 4..=128. Gives `None` when the bytes do
/// not yield `length` characters, or when the password lacks a lowercase
/// letter, an uppercase letter or a digit: the caller draws fresh bytes and
/// tries again.
pub fn generate_password(alnum: bool, length: usize, random: &Vec<u8>) -> (r: Result<
    Option<String>,
    PasswordError,
>)
    ensures
        !length_allowed(length) ==> r == Err::<Option<String>, PasswordError>(
            PasswordError::InvalidLength,
        ),
        length_allowed(length) ==> (r matches Ok(o) && (o is Some <==> (sampled(alnum, random@).len()
            >= length && has_all_classes(sampled(alnum, random@).take(length as int))))),
        r matches Ok(Some(s)) ==> s@ == sampled(alnum, random@).take(length as int),
        r matches Ok(Some(s)) ==> s@.len() == length && has_all_classes(s@) && forall|k: int|
            0 <= k < s@.len() ==> alphabet(alnum).contains(#[trigger] s@[k]),
{
    if !(MIN_PASSWORD_LEN <= length && length <= MAX_PASSWORD_LEN) {
        return Err(PasswordError::InvalidLength);
    }
    let chars: &str = if alnum {
        "abcdefghijklmnopqrstuvwxyzABCDEFGHIJKLMNOPQRSTUVWXYZ0123456789"
    } else {
        "!\"#$%&'()*+,-./0123456789:;<=>?@ABCDEFGHIJKLMNOPQRSTUVWXYZ[\\]^_`abcdefghijklmnopqrstuvwxyz{|}~"
    };
    proof {
        reveal_strlit("abcdefghijklmnopqrstuvwxyzABCDEFGHIJKLMNOPQRSTUVWXYZ0123456789");
        reveal_strlit(
            "!\"#$%&'()*+,-./0123456789:;<=>?@ABCDEFGHIJKLMNOPQRSTUVWXYZ[\\]^_`abcdefghijklmnopqrstuvwxyz{|}~",
        );
    }
    assert(chars@ == alphabet(alnum));
    let size: usize = if alnum { 62 } else { 94 };
    let bound: u8 = if alnum { 248 } else { 188 };
    let mut out = String::new();
    let mut count: usize = 0;
    let mut i: usize = 0;
    while i < random.len() && count < length
        invariant
            i <= random@.len(),
            chars@ == alphabet(alnum),
            size == alphabet(alnum).len(),
            size > 0,
            bound == accept_bound(alnum),
            count == out@.len(),
            out@ == sampled(alnum, random@.take(i as int)),
            count <= length,
            forall|k: int| 0 <= k < out@.len() ==> alphabet(alnum).contains(#[trigger] out@[k]),
        decreases random@.len() - i,
    {
        let b = random[i];
        assert(random@.take(i + 1).drop_last() =~= random@.take(i as int));
        assert(random@.take(i + 1).last() == b);
        if b < bound {
            let k = (b as usize) % size;
            let piece = chars.substring_char(k, k + 1);
            let ghost before = out@;
            out.append(piece);
            assert(piece@ =~= seq![alphabet(alnum)[k as int]]);
            assert(out@ =~= before.push(alphabet(alnum)[k as int]));
            assert(alphabet(alnum).contains(out@[out@.len() - 1]));
            assert forall|j: int| 0 <= j < out@.len() implies alphabet(alnum).contains(
                #[trigger] out@[j],
            ) by {
                if j < before.len() {
                    assert(out@[j] == before[j]);
                }
            }
            count = count + 1;
        }
        i = i + 1;
    }
    proof {
        lemma_sampled_prefix(alnum, random@, i as int, random@.len() as int);
        assert(random@.take(random@.len() as int) =~= random@);
    }
    if count < length {
        assert(i == random@.len());
        assert(random@.take(i as int) =~= random@);
        return Ok(None);
    }
    assert(out@ == sampled(alnum, random@).take(length as int));
    if class_counts(&out) {
        Ok(Some(out))
    } else {
        Ok(None)
    }
}

} // verus!
