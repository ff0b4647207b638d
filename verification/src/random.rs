//! Pseudo-random choices, each drawn from a seed that steps on.

use vstd::prelude::*;

verus! {

/// The seed after one draw.
pub open spec fn stepped(seed: u64) -> u64 {
    seed.wrapping_mul(6364136223846793005).wrapping_add(1)
}

/// The number below `len` that is drawn from a seed.
pub open spec fn drawn(seed: u64, len: int) -> int {
    (stepped(seed) / 0x1_0000_0000) as int % len
}

/// Draws a number below `len` and steps the seed on.
pub fn rand_index(seed: &mut u64, len: usize) -> (r: usize)
    requires
        len > 0,
    ensures
        *final(seed) == stepped(*old(seed)),
        r == drawn(*old(seed), len as int),
        r < len,
{
    *seed = seed.wrapping_mul(6364136223846793005).wrapping_add(1);
    let s: u64 = *seed;
    assert(s >> 32 == s / 0x1_0000_0000) by (bit_vector);
    assert(s / 0x1_0000_0000 <= 0xffff_ffff) by (bit_vector);
    let high: u32 = (s >> 32) as u32;
    (high as usize) % len
}

/// `a` with the elements at `i` and `j` exchanged.
pub open spec fn swapped(a: Seq<usize>, i: int, j: int) -> Seq<usize> {
    a.update(i, a[j]).update(j, a[i])
}

/// `a` shuffled from the position `i` down: each element changes places with one that is drawn
/// from those up to it. The seed that is left comes with it.
pub open spec fn shuffled_from(a: Seq<usize>, i: int, seed: u64) -> (Seq<usize>, u64)
    decreases i,
{
    if i < 1 {
        (a, seed)
    } else {
        shuffled_from(swapped(a, i, drawn(seed, i + 1)), i - 1, stepped(seed))
    }
}

/// `a` shuffled, and the seed that is left.
pub open spec fn shuffled(a: Seq<usize>, seed: u64) -> (Seq<usize>, u64) {
    shuffled_from(a, a.len() - 1, seed)
}

/// Shuffling loses nothing and adds nothing.
pub proof fn lemma_shuffled(a: Seq<usize>, i: int, seed: u64)
    requires
        i < a.len(),
    ensures
        shuffled_from(a, i, seed).0.to_multiset() == a.to_multiset(),
        shuffled_from(a, i, seed).0.len() == a.len(),
    decreases i,
{
    if i >= 1 {
        let j = drawn(seed, i + 1);
        assert(0 <= j < i + 1);
        lemma_swap_multiset(a, i, j);
        lemma_shuffled(swapped(a, i, j), i - 1, stepped(seed));
    }
}

/// Shuffling a list of different numbers gives a list of different numbers, out of the same ones.
pub proof fn lemma_shuffled_apart(a: Seq<usize>, seed: u64)
    requires
        a.no_duplicates(),
    ensures
        shuffled(a, seed).0.no_duplicates(),
        shuffled(a, seed).0.len() == a.len(),
        forall|x: usize| shuffled(a, seed).0.contains(x) <==> a.contains(x),
{
    broadcast use vstd::seq_lib::group_to_multiset_ensures;

    let b = shuffled(a, seed).0;
    lemma_shuffled(a, a.len() - 1, seed);
    a.lemma_multiset_has_no_duplicates();
    b.lemma_multiset_has_no_duplicates_conv();
    assert forall|x: usize| b.contains(x) <==> a.contains(x) by {
        assert(b.contains(x) <==> b.to_multiset().count(x) > 0);
        assert(a.contains(x) <==> a.to_multiset().count(x) > 0);
    }
}

/// Shuffles a list.
pub fn shuffle_indices(arr: &mut Vec<usize>, seed: &mut u64)
    ensures
        (final(arr)@, *final(seed)) == shuffled(old(arr)@, *old(seed)),
        final(arr)@.to_multiset() == old(arr)@.to_multiset(),
        final(arr).len() == old(arr).len(),
{
    if arr.len() < 2 {
        return ;
    }
    let mut i: usize = arr.len() - 1;
    while i > 0
        invariant
            i < arr.len(),
            arr.len() == old(arr).len(),
            shuffled_from(arr@, i as int, *seed) == shuffled(old(arr)@, *old(seed)),
        decreases i,
    {
        let j: usize = rand_index(seed, i + 1);
        let ghost before = arr@;
        let x: usize = arr[i];
        let y: usize = arr[j];
        arr.set(i, y);
        arr.set(j, x);
        assert(arr@ == swapped(before, i as int, j as int));
        i = i - 1;
    }
    proof {
        lemma_shuffled(old(arr)@, old(arr).len() - 1, *old(seed));
    }
}

proof fn lemma_swap_multiset(a: Seq<usize>, i: int, j: int)
    requires
        0 <= i < a.len(),
        0 <= j < a.len(),
    ensures
        swapped(a, i, j).to_multiset() == a.to_multiset(),
{
    broadcast use vstd::seq_lib::group_to_multiset_ensures;
    broadcast use vstd::multiset::group_multiset_axioms;

    vstd::seq_lib::to_multiset_update(a, i, a[j]);
    vstd::seq_lib::to_multiset_update(a.update(i, a[j]), j, a[i]);
    assert(a.contains(a[i]) && a.contains(a[j]));
    assert(a.to_multiset().count(a[i]) > 0 && a.to_multiset().count(a[j]) > 0);
    assert(a.update(i, a[j])[j] == a[j]);
    assert(swapped(a, i, j).to_multiset() =~= a.to_multiset());
}

} // verus!
