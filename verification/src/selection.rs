//! The order in which a wallet walks the inventory.
//!
//! Each wallet gets a seed from a hash of its address. The seed fixes a
//! shuffle of the item positions, so that one wallet sees the same order on
//! every attempt and different wallets start at different items.

use vstd::prelude::*;
use std::collections::hash_map::DefaultHasher;
use std::hash::{BuildHasher, BuildHasherDefault};

verus! {

/// The 64-bit hash that the standard library's default hasher, freshly made,
/// gives to a string. A fresh default hasher carries no key of its own, so
/// the hash is the same in every process; the standard library may change
/// it from one release to the next.
pub uninterp spec fn default_hash(text: Seq<char>) -> u64;

/// Hashes `text` with `BuildHasher::hash_one` of the standard library, on a
/// builder of default hashers: a fresh `DefaultHasher` is fed the string and
/// finished. The hash depends on the characters alone.
#[verifier::external_body]
fn hash_text(text: &str) -> (r: u64)
    ensures
        r == default_hash(text@),
{
    BuildHasherDefault::<DefaultHasher>::default().hash_one(text)
}

/// Half the width of the range of seeds.
pub const SEED_OFFSET: i32 = 1073741823;

/// The divisor that brings a hash into the range of seeds.
pub const SEED_MODULUS: u64 = 2147483647;

/// The seed of a hash: its remainder by `SEED_MODULUS`, moved down by
/// `SEED_OFFSET`, so that seeds lie around zero.
pub open spec fn seed_of_hash(hash: u64) -> i32 {
    ((hash % SEED_MODULUS) - SEED_OFFSET) as i32
}

/// The seed of a wallet.
pub open spec fn wallet_seed_spec(wallet: Seq<char>) -> i32 {
    seed_of_hash(default_hash(wallet))
}

/// Brings a hash into the range of seeds.
pub fn normalize_hash(hash: u64) -> (r: i32)
    ensures
        r == seed_of_hash(hash),
        -SEED_OFFSET <= r <= SEED_OFFSET,
{
    let m: u64 = hash % SEED_MODULUS;
    (m as i32) - SEED_OFFSET
}

/// The seed of a wallet: the same for every call with the same address.
pub fn wallet_seed(wallet_address: &str) -> (r: i32)
    ensures
        r == wallet_seed_spec(wallet_address@),
        -SEED_OFFSET <= r <= SEED_OFFSET,
{
    normalize_hash(hash_text(wallet_address))
}

/// The multiplier of the generator that drives the shuffle.
pub const LCG_MULTIPLIER: u128 = 6364136223846793005;

/// The increment of the generator that drives the shuffle.
pub const LCG_INCREMENT: u128 = 1442695040888963407;

/// The modulus of the generator that drives the shuffle: 2^64.
pub const LCG_MODULUS: u128 = 0x1_0000_0000_0000_0000;

/// The state that the generator starts from, for a seed.
pub open spec fn initial_state(seed: i32) -> u64 {
    (seed + 0x8000_0000) as u64
}

/// The state that follows `state`.
pub open spec fn next_state(state: u64) -> u64 {
    ((state * LCG_MULTIPLIER + LCG_INCREMENT) % (LCG_MODULUS as int)) as u64
}

/// The position below `bound` that a state selects: its upper 32 bits,
/// reduced by `bound`.
pub open spec fn draw(state: u64, bound: int) -> int {
    ((state as int) / 0x1_0000_0000) % bound
}

/// `p` with the entries at `a` and `b` exchanged.
pub open spec fn swapped(p: Seq<usize>, a: int, b: int) -> Seq<usize> {
    p.update(a, p[b]).update(b, p[a])
}

/// The shuffle of the first `i` entries of `p` that `state` drives: for each
/// position from `i - 1` down to 1, the generator advances and the entry is
/// exchanged with the one at a drawn position at or below it.
pub open spec fn shuffled(p: Seq<usize>, state: u64, i: nat) -> Seq<usize>
    decreases i,
{
    if i <= 1 {
        p
    } else {
        let s = next_state(state);
        shuffled(swapped(p, i - 1, draw(s, i as int)), s, (i - 1) as nat)
    }
}

/// The positions `0, 1, ..., n - 1`.
pub open spec fn identity_order(n: nat) -> Seq<usize> {
    Seq::new(n, |i: int| i as usize)
}

/// The order in which the holder of `seed` walks `n` items.
pub open spec fn selection_order_spec(seed: i32, n: nat) -> Seq<usize> {
    shuffled(identity_order(n), initial_state(seed), n)
}

/// Every position below the length occurs in `p`, exactly once.
pub open spec fn is_permutation(p: Seq<usize>) -> bool {
    &&& forall|i: int| 0 <= i < p.len() ==> (#[trigger] p[i]) < p.len()
    &&& forall|i: int, j: int| 0 <= i < j < p.len() ==> p[i] != p[j]
    &&& forall|v: usize| v < p.len() ==> #[trigger] p.contains(v)
}

/// Exchanging two entries of a permutation gives a permutation.
pub proof fn lemma_swapped_is_permutation(p: Seq<usize>, a: int, b: int)
    requires
        is_permutation(p),
        0 <= a < p.len(),
        0 <= b < p.len(),
    ensures
        is_permutation(swapped(p, a, b)),
        swapped(p, a, b).len() == p.len(),
{
    let q = swapped(p, a, b);
    assert forall|v: usize| v < q.len() implies #[trigger] q.contains(v) by {
        assert(p.contains(v));
        let k = choose|k: int| 0 <= k < p.len() && p[k] == v;
        if k == a {
            assert(q[b] == v);
        } else if k == b {
            assert(q[a] == v);
        } else {
            assert(q[k] == v);
        }
    }
}

/// A shuffle of a permutation is a permutation of the same length.
pub proof fn lemma_shuffled_is_permutation(p: Seq<usize>, state: u64, i: nat)
    requires
        is_permutation(p),
        i <= p.len(),
    ensures
        is_permutation(shuffled(p, state, i)),
        shuffled(p, state, i).len() == p.len(),
    decreases i,
{
    if i > 1 {
        let s = next_state(state);
        let j = draw(s, i as int);
        lemma_swapped_is_permutation(p, i - 1, j);
        lemma_shuffled_is_permutation(swapped(p, i - 1, j), s, (i - 1) as nat);
    }
}

/// The order of selection holds every position below `n` exactly once,
/// whatever the seed.
pub proof fn lemma_selection_order_is_permutation(seed: i32, n: nat)
    requires
        n <= usize::MAX,
    ensures
        is_permutation(selection_order_spec(seed, n)),
        selection_order_spec(seed, n).len() == n,
{
    let id = identity_order(n);
    assert forall|v: usize| v < id.len() implies #[trigger] id.contains(v) by {
        assert(id[v as int] == v);
    }
    lemma_shuffled_is_permutation(id, initial_state(seed), n);
}

/// Advances the generator.
fn advance(state: u64) -> (r: u64)
    ensures
        r == next_state(state),
{
    let wide: u128 = state as u128;
    assert(wide * LCG_MULTIPLIER <= 0xFFFF_FFFF_FFFF_FFFF * LCG_MULTIPLIER) by (nonlinear_arith)
        requires
            0 <= wide <= 0xFFFF_FFFF_FFFF_FFFF,
    ;
    let next: u128 = (wide * LCG_MULTIPLIER + LCG_INCREMENT) % LCG_MODULUS;
    next as u64
}

/// The order in which the holder of `seed` walks `n` items: a shuffle of
/// the positions below `n` that depends on the seed and on `n` alone.
pub fn selection_order(seed: i32, n: usize) -> (r: Vec<usize>)
    ensures
        r@ == selection_order_spec(seed, n as nat),
        r@.len() == n,
        is_permutation(r@),
{
    let mut order: Vec<usize> = Vec::new();
    let mut k: usize = 0;
    while k < n
        invariant
            k <= n,
            order@ == identity_order(k as nat),
        decreases n - k,
    {
        order.push(k);
        proof {
            assert(order@ =~= identity_order((k + 1) as nat));
        }
        k = k + 1;
    }
    let mut state: u64 = ((seed as i64) + 0x8000_0000) as u64;
    let mut i: usize = n;
    while i > 1
        invariant
            i <= n,
            order@.len() == n,
            shuffled(order@, state, i as nat) == selection_order_spec(seed, n as nat),
        decreases i,
    {
        state = advance(state);
        let j: usize = ((state / 0x1_0000_0000) % (i as u64)) as usize;
        let last: usize = order[i - 1];
        let other: usize = order[j];
        order.set(i - 1, other);
        order.set(j, last);
        i = i - 1;
    }
    proof {
        lemma_selection_order_is_permutation(seed, n as nat);
    }
    order
}

} // verus!
