use vstd::prelude::*;
use vstd::string::StringSliceAdditionalSpecFns;

use crate::models::RecordId;

verus! {

pub open spec fn is_digit(b: u8) -> bool {
    48 <= b <= 57
}

/// The number that the decimal digits `s` write.
pub open spec fn decimal_value(s: Seq<u8>) -> nat
    decreases s.len(),
{
    if s.len() == 0 {
        0
    } else {
        decimal_value(s.drop_last()) * 10 + (s.last() - 48) as nat
    }
}

/// `s` is one or more decimal digits.
pub open spec fn is_decimal(s: Seq<u8>) -> bool {
    s.len() > 0 && forall|i: int| 0 <= i < s.len() ==> is_digit(#[trigger] s[i])
}

/// Reads a record identifier written in decimal, as it appears in a session
/// token or a path. Anything but one or more digits whose value fits the
/// identifier type is refused.
pub fn parse_id(s: &str) -> (r: Option<RecordId>)
    ensures
        r == (if is_decimal(s.spec_bytes()) && decimal_value(s.spec_bytes()) <= u64::MAX {
            Some(decimal_value(s.spec_bytes()) as u64)
        } else {
            None::<RecordId>
        }),
{
    let b = s.as_bytes();
    if b.len() == 0 {
        return None;
    }
    let mut v: u64 = 0;
    let mut i: usize = 0;
    while i < b.len()
        invariant
            i <= b@.len(),
            b@ == s.spec_bytes(),
            forall|k: int| 0 <= k < i ==> is_digit(#[trigger] b@[k]),
            v as nat == decimal_value(b@.subrange(0, i as int)),
        decreases b@.len() - i,
    {
        let d = b[i];
        assert(b@.subrange(0, i as int + 1).drop_last() == b@.subrange(0, i as int));
        if d < 48 || d > 57 {
            return None;
        }
        if v > (u64::MAX - (d - 48) as u64) / 10 {
            proof {
                lemma_decimal_prefix_bound(b@, i as int + 1);
            }
            return None;
        }
        v = v * 10 + (d - 48) as u64;
        i += 1;
    }
    assert(b@.subrange(0, i as int) == b@);
    Some(v)
}

/// A number written with more digits is no smaller than the number its
/// first `n` digits write.
proof fn lemma_decimal_prefix_bound(s: Seq<u8>, n: int)
    requires
        0 <= n <= s.len(),
    ensures
        decimal_value(s.subrange(0, n)) <= decimal_value(s),
    decreases s.len() - n,
{
    if n < s.len() {
        lemma_decimal_prefix_bound(s, n + 1);
        assert(s.subrange(0, n + 1).drop_last() == s.subrange(0, n));
    }
    else {
        assert(s.subrange(0, n) == s);
    }
}

} // verus!
