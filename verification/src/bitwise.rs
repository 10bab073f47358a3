//! Bit-vector utilities: a 32-bit word as a little-endian vector of booleans
//! (index 0 is the least significant bit) and back again.

use vstd::prelude::*;

verus! {

/// True when bit `i` of `w` is set.
pub open spec fn bit(w: u32, i: u32) -> bool
    recommends
        i < 32,
{
    w & (1u32 << i) != 0
}

/// Setting bit `i` leaves every other bit alone.
proof fn lemma_set_bit(t: u32, i: u32)
    by (bit_vector)
    requires
        i < 32,
    ensures
        forall|j: u32| j < 32 ==> #[trigger] bit(t | (1u32 << i), j) == (bit(t, j) || j == i),
{
}

/// Returns the unsigned value whose bit `i` is `bits[i]`; bits past the
/// end of the slice, and entries past index 31, read as zero.
pub fn vec_to_u32(bits: &[bool]) -> (r: u32)
    ensures
        forall|i: u32| i < 32 ==> #[trigger] bit(r, i) == (i < bits@.len() && bits@[i as int]),
{
    let mut total: u32 = 0;
    let mut i: usize = 0;
    proof {
        assert(forall|j: u32| j < 32 ==> !bit(0u32, j)) by (bit_vector);
    }
    while i < bits.len()
        invariant
            i <= bits@.len(),
            forall|j: u32| j < 32 ==> #[trigger] bit(total, j) == (j < i && bits@[j as int]),
        decreases bits@.len() - i,
    {
        if i < 32 && bits[i] {
            proof {
                lemma_set_bit(total, i as u32);
            }
            total = total | (1u32 << (i as u32));
        }
        i = i + 1;
    }
    total
}

/// Returns the 32 bits of `num` as a vector, least significant bit first.
pub fn u32_to_vec(num: u32) -> (r: Vec<bool>)
    ensures
        r@.len() == 32,
        forall|i: u32| i < 32 ==> r@[i as int] == bit(num, i),
{
    let mut bits: Vec<bool> = Vec::new();
    let mut i: u32 = 0;
    while i < 32
        invariant
            i <= 32,
            bits@.len() == i,
            forall|j: u32| j < i ==> bits@[j as int] == bit(num, j),
        decreases 32 - i,
    {
        bits.push(num & (1u32 << i) != 0);
        i = i + 1;
    }
    bits
}

/// Concatenates two bit vectors: the result carries `sec`'s bits in its low
/// positions and `first`'s bits above them.
pub fn vec_concat(first: &[bool], sec: &[bool]) -> (r: Vec<bool>)
    ensures
        r@ == sec@ + first@,
{
    let mut r: Vec<bool> = Vec::new();
    let mut i: usize = 0;
    while i < sec.len()
        invariant
            i <= sec@.len(),
            r@ == sec@.take(i as int),
        decreases sec@.len() - i,
    {
        r.push(sec[i]);
        proof {
            assert(r@ =~= sec@.take(i + 1 as int));
        }
        i = i + 1;
    }
    let mut j: usize = 0;
    while j < first.len()
        invariant
            j <= first@.len(),
            r@ == sec@ + first@.take(j as int),
        decreases first@.len() - j,
    {
        r.push(first[j]);
        proof {
            assert(r@ =~= sec@ + first@.take(j + 1 as int));
        }
        j = j + 1;
    }
    proof {
        assert(sec@.take(sec@.len() as int) =~= sec@);
        assert(first@.take(first@.len() as int) =~= first@);
        assert(r@ =~= sec@ + first@);
    }
    r
}

} // verus!
