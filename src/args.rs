use vstd::prelude::*;
use vstd::string::StrSliceExecFns;

verus! {

/// Whether `c` is one of the ASCII digits `0` to `9`.
pub open spec fn is_digit(c: char) -> bool {
    '0' <= c && c <= '9'
}

/// Whether every character of `s` is an ASCII digit (the empty text qualifies).
pub open spec fn all_digits(s: Seq<char>) -> bool {
    forall|i: int| 0 <= i < s.len() ==> #[trigger] is_digit(s[i])
}

/// The message given back for a command-line value that holds a non-digit.
pub open spec fn digits_message() -> Seq<char> {
    "The value must be made of digits"@
}

/// Accepts a command-line value made of ASCII digits only.
pub fn validate_arg_digits(v: &str) -> (r: Result<(), String>)
    ensures
        r is Ok <==> all_digits(v@),
        r matches Err(m) ==> m@ == digits_message(),
{
    let n = v.unicode_len();
    let mut i: usize = 0;
    while i < n
        invariant
            n == v@.len(),
            i <= n,
            all_digits(v@.subrange(0, i as int)),
        decreases n - i,
    {
        let c = v.get_char(i);
        if !('0' <= c && c <= '9') {
            assert(!is_digit(v@[i as int]));
            let m = String::from_str("The value must be made of digits");
            proof {
                reveal_strlit("The value must be made of digits");
            }
            return Err(m);
        }
        assert(all_digits(v@.subrange(0, i + 1))) by {
            assert forall|k: int| 0 <= k < i + 1 implies #[trigger] is_digit(
                v@.subrange(0, i + 1)[k],
            ) by {
                if k < i {
                    assert(v@.subrange(0, i + 1)[k] == v@.subrange(0, i as int)[k]);
                }
            }
        }
        i = i + 1;
    }
    assert(v@.subrange(0, n as int) =~= v@);
    Ok(())
}

} // verus!
