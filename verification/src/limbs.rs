//! Little-endian 256-bit numbers held as four 64-bit limbs.
use vstd::prelude::*;

verus! {

/// 2^64, the weight of the second limb.
pub open spec fn w1() -> nat {
    0x1_0000_0000_0000_0000nat
}

/// 2^128, the weight of the third limb.
pub open spec fn w2() -> nat {
    0x1_0000_0000_0000_0000_0000_0000_0000_0000nat
}

/// 2^192, the weight of the fourth limb.
pub open spec fn w3() -> nat {
    0x1_0000_0000_0000_0000_0000_0000_0000_0000_0000_0000_0000_0000nat
}

/// The number that four little-endian limbs stand for.
pub open spec fn limbs_value(l: [u64; 4]) -> nat {
    l@[0] as nat + l@[1] as nat * w1() + l@[2] as nat * w2() + l@[3] as nat * w3()
}

/// Two limb arrays stand for the same number only if they are the same.
pub proof fn lemma_limbs_value_injective(a: [u64; 4], b: [u64; 4])
    requires
        limbs_value(a) == limbs_value(b),
    ensures
        a@ == b@,
{
    assert(a@[3] == b@[3]);
    assert(a@[2] == b@[2]);
    assert(a@[1] == b@[1]);
    assert(a@[0] == b@[0]);
    assert(a@ =~= b@);
}

/// Compares the numbers that two limb arrays stand for.
pub fn limbs_lt(a: &[u64; 4], b: &[u64; 4]) -> (res: bool)
    ensures
        res == (limbs_value(*a) < limbs_value(*b)),
{
    if a[3] != b[3] {
        a[3] < b[3]
    } else if a[2] != b[2] {
        a[2] < b[2]
    } else if a[1] != b[1] {
        a[1] < b[1]
    } else {
        a[0] < b[0]
    }
}

/// Tells whether two limb arrays stand for the same number.
pub fn limbs_eq(a: &[u64; 4], b: &[u64; 4]) -> (res: bool)
    ensures
        res == (limbs_value(*a) == limbs_value(*b)),
{
    let same = a[0] == b[0] && a[1] == b[1] && a[2] == b[2] && a[3] == b[3];
    proof {
        if limbs_value(*a) == limbs_value(*b) {
            lemma_limbs_value_injective(*a, *b);
        }
    }
    same
}

} // verus!
