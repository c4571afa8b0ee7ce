use primitive_types::U256;
use vstd::prelude::*;

verus! {

/// The number that a big-endian byte string denotes.
pub open spec fn be_value(s: Seq<u8>) -> nat
    decreases s.len(),
{
    if s.len() == 0 {
        0
    } else {
        be_value(s.drop_last()) * 256 + s.last() as nat
    }
}

/// `256` to the power `n`.
pub open spec fn pow256(n: nat) -> nat
    decreases n,
{
    if n == 0 {
        1
    } else {
        256 * pow256((n - 1) as nat)
    }
}

/// The value of two byte strings put one after the other.
pub proof fn lemma_be_value_append(a: Seq<u8>, b: Seq<u8>)
    ensures
        be_value(a + b) == be_value(a) * pow256(b.len()) + be_value(b),
    decreases b.len(),
{
    if b.len() == 0 {
        assert(a + b =~= a);
        assert(be_value(b) == 0);
        assert(pow256(0) == 1);
        assert(be_value(a) * pow256(b.len()) == be_value(a));
    } else {
        lemma_be_value_append(a, b.drop_last());
        assert((a + b).drop_last() =~= a + b.drop_last());
        let x = be_value(a);
        let p = pow256((b.len() - 1) as nat);
        let y = be_value(b.drop_last());
        assert((x * p + y) * 256 == x * (256 * p) + y * 256) by (nonlinear_arith);
        assert((a + b).last() == b.last());
        assert(be_value(a + b) == be_value((a + b).drop_last()) * 256 + (a + b).last() as nat);
        assert(be_value(b) == y * 256 + b.last() as nat);
        assert(pow256(b.len()) == 256 * p);
        assert(be_value((a + b).drop_last()) == x * p + y);
        assert(be_value(a + b) == (x * p + y) * 256 + b.last() as nat);
    }
}

/// A string of `n` bytes denotes a number below `256^n`.
pub proof fn lemma_be_value_bound(s: Seq<u8>)
    ensures
        be_value(s) < pow256(s.len()),
    decreases s.len(),
{
    if s.len() > 0 {
        lemma_be_value_bound(s.drop_last());
        let y = be_value(s.drop_last());
        let p = pow256((s.len() - 1) as nat);
        assert(y * 256 + 255 < 256 * p) by (nonlinear_arith)
            requires
                y < p,
        ;
    }
}

/// A byte string denotes 0 exactly when all its bytes are 0.
pub proof fn lemma_be_value_zero(s: Seq<u8>)
    ensures
        be_value(s) == 0 <==> (forall|i: int| 0 <= i < s.len() ==> s[i] == 0),
    decreases s.len(),
{
    if s.len() > 0 {
        lemma_be_value_zero(s.drop_last());
        if be_value(s) == 0 {
            assert forall|i: int| 0 <= i < s.len() implies s[i] == 0 by {
                if i < s.len() - 1 {
                    assert(s.drop_last()[i] == s[i]);
                }
            }
        } else {
            if forall|i: int| 0 <= i < s.len() ==> s[i] == 0 {
                assert forall|i: int| 0 <= i < s.drop_last().len() implies s.drop_last()[i] == 0 by {
                    assert(s.drop_last()[i] == s[i]);
                }
                assert(s[s.len() - 1] == 0);
            }
        }
    }
}

/// Whether the number whose big-endian bytes are `a` fits in a `u64`: its first 24 bytes
/// are 0.
pub(crate) fn fits_u64(a: &[u8; 32]) -> (r: bool)
    ensures
        r == (be_value(a@) <= u64::MAX),
{
    let mut i: usize = 0;
    let mut all_zero = true;
    while i < 24
        invariant
            i <= 24,
            all_zero == (forall|j: int| 0 <= j < i ==> a@[j] == 0),
        decreases 24 - i,
    {
        if a[i] != 0 {
            all_zero = false;
        }
        i = i + 1;
    }
    proof {
        let hi = a@.subrange(0, 24);
        let lo = a@.subrange(24, 32);
        assert(a@ =~= hi + lo);
        lemma_be_value_append(hi, lo);
        lemma_be_value_bound(lo);
        lemma_be_value_zero(hi);
        reveal_with_fuel(pow256, 9);
        assert(pow256(8) == 0x1_0000_0000_0000_0000);
        if !all_zero {
            let x = be_value(hi);
            assert(x * 0x1_0000_0000_0000_0000 >= 0x1_0000_0000_0000_0000) by (nonlinear_arith)
                requires
                    x >= 1,
            ;
        }
    }
    all_zero
}

/// Calls `U256::is_zero` on the number whose big-endian bytes are `a`. Claimed: the result
/// says whether that number is 0.
#[verifier::external_body]
pub(crate) fn u256_is_zero(a: &[u8; 32]) -> (r: bool)
    ensures
        r == (be_value(a@) == 0),
{
    U256::from_big_endian(a).is_zero()
}

/// Calls `>` on `U256` for the numbers whose big-endian bytes are `a` and `b`. Claimed: the
/// result says whether the first is the greater.
#[verifier::external_body]
pub(crate) fn u256_gt(a: &[u8; 32], b: &[u8; 32]) -> (r: bool)
    ensures
        r == (be_value(a@) > be_value(b@)),
{
    U256::from_big_endian(a) > U256::from_big_endian(b)
}

/// Calls `/` on `U256` (it panics on a zero divisor) for the numbers whose big-endian bytes
/// are `a` and `b`. Claimed: the big-endian bytes returned denote the floor of their
/// quotient.
#[verifier::external_body]
pub(crate) fn u256_div(a: &[u8; 32], b: &[u8; 32]) -> (q: [u8; 32])
    requires
        be_value(b@) != 0,
    ensures
        be_value(q@) == be_value(a@) / be_value(b@),
{
    let quotient = U256::from_big_endian(a) / U256::from_big_endian(b);
    let mut out = [0u8; 32];
    quotient.to_big_endian(&mut out);
    out
}

/// Calls `U256::as_u64` (it panics above `u64::MAX`) on the number whose big-endian bytes
/// are `a`. Claimed: the result is that number.
#[verifier::external_body]
pub(crate) fn u256_as_u64(a: &[u8; 32]) -> (r: u64)
    requires
        be_value(a@) <= u64::MAX,
    ensures
        r == be_value(a@),
{
    U256::from_big_endian(a).as_u64()
}

} // verus!
