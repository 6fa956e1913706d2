//! The claim: up to a given number of items that a tier's predicate admits,
//! taken in a given order and marked as reserved to a wallet in one step.

use vstd::prelude::*;
use crate::models::{NftFull, NftFullView, StagePredicate, StagePredicateView};
use crate::nft_views;
use crate::requests::{MintReservation, MintReservationView};
use crate::text::owned;

verus! {

/// Tells whether a position holds an item that can be claimed through a
/// tier with predicate `p`.
pub open spec fn pick_pred(nfts: Seq<NftFullView>, p: StagePredicateView, now: i64) -> spec_fn(
    usize,
) -> bool {
    |i: usize| i < nfts.len() && nfts[i as int].eligible(p, now)
}

/// The positions of the items that can be claimed, in the order of the walk.
pub open spec fn candidates(
    nfts: Seq<NftFullView>,
    order: Seq<usize>,
    p: StagePredicateView,
    now: i64,
) -> Seq<usize> {
    order.filter(pick_pred(nfts, p, now))
}

/// The positions that a claim of `count` items takes: the first `count`
/// candidates, or all of them where there are fewer.
pub open spec fn claim_targets(
    nfts: Seq<NftFullView>,
    order: Seq<usize>,
    p: StagePredicateView,
    now: i64,
    count: nat,
) -> Seq<usize> {
    let c = candidates(nfts, order, p, now);
    if count < c.len() {
        c.take(count as int)
    } else {
        c
    }
}

/// The items after those at `targets` have been claimed for `wallet`.
pub open spec fn claim_all(
    nfts: Seq<NftFullView>,
    targets: Seq<usize>,
    wallet: Seq<char>,
    reserved_until: i64,
    in_mint_run: bool,
) -> Seq<NftFullView> {
    Seq::new(
        nfts.len(),
        |i: int|
            if targets.contains(i as usize) {
                nfts[i].claimed(wallet, reserved_until, in_mint_run)
            } else {
                nfts[i]
            },
    )
}

/// What the claimant is told of the item at position `t`.
pub open spec fn reservation_of(
    nfts: Seq<NftFullView>,
    t: usize,
    wallet: Seq<char>,
) -> MintReservationView {
    MintReservationView {
        wallet_address: wallet,
        nft_id: nfts[t as int].nft_lite.id,
        meta_data: nfts[t as int].meta_data,
    }
}

/// What the claimant is told of the items at `targets`, in their order.
pub open spec fn reservations_of(
    nfts: Seq<NftFullView>,
    targets: Seq<usize>,
    wallet: Seq<char>,
) -> Seq<MintReservationView> {
    Seq::new(targets.len(), |k: int| reservation_of(nfts, targets[k], wallet))
}

/// The views of a list of claimed items, in order.
pub open spec fn reservation_views(v: Seq<MintReservation>) -> Seq<MintReservationView> {
    Seq::new(v.len(), |i: int| v[i]@)
}

/// Every candidate is a position of an item that can be claimed.
pub proof fn lemma_candidates_are_eligible(
    nfts: Seq<NftFullView>,
    order: Seq<usize>,
    p: StagePredicateView,
    now: i64,
)
    ensures
        forall|k: int|
            0 <= k < candidates(nfts, order, p, now).len() ==> {
                let t = #[trigger] candidates(nfts, order, p, now)[k];
                t < nfts.len() && nfts[t as int].eligible(p, now)
            },
{
    let f = pick_pred(nfts, p, now);
    assert forall|k: int| 0 <= k < order.filter(f).len() implies f(#[trigger] order.filter(f)[k]) by {
        order.lemma_filter_pred(f, k);
    }
}

/// Every target of a claim is a candidate.
pub proof fn lemma_targets_are_eligible(
    nfts: Seq<NftFullView>,
    order: Seq<usize>,
    p: StagePredicateView,
    now: i64,
    count: nat,
)
    ensures
        claim_targets(nfts, order, p, now, count).len() <= count,
        claim_targets(nfts, order, p, now, count).len() <= candidates(nfts, order, p, now).len(),
        forall|k: int|
            0 <= k < claim_targets(nfts, order, p, now, count).len() ==> {
                let t = #[trigger] claim_targets(nfts, order, p, now, count)[k];
                t == candidates(nfts, order, p, now)[k] && t < nfts.len() && nfts[t as int].eligible(p, now)
            },
{
    lemma_candidates_are_eligible(nfts, order, p, now);
}

/// The positions that a claim of `count` items takes.
fn select_targets(
    nfts: &Vec<NftFull>,
    order: &Vec<usize>,
    p: &StagePredicate,
    now: i64,
    count: usize,
) -> (r: Vec<usize>)
    ensures
        r@ == claim_targets(nft_views(nfts@), order@, p@, now, count as nat),
{
    let ghost views = nft_views(nfts@);
    let ghost f = pick_pred(views, p@, now);
    let mut picked: Vec<usize> = Vec::new();
    let mut k: usize = 0;
    proof {
        reveal(Seq::filter);
        assert(order@.take(0).filter(f) =~= Seq::<usize>::empty());
    }
    while k < order.len() && picked.len() < count
        invariant
            k <= order.len(),
            views == nft_views(nfts@),
            f == pick_pred(views, p@, now),
            picked@ == order@.take(k as int).filter(f),
            picked.len() <= count,
        decreases order.len() - k,
    {
        let idx: usize = order[k];
        let take = idx < nfts.len() && nfts[idx].is_eligible(p, now);
        proof {
            reveal(Seq::filter);
            assert(order@.take(k as int + 1).drop_last() =~= order@.take(k as int));
            assert(order@.take(k as int + 1).last() == idx);
            assert(f(idx) == take);
        }
        if take {
            picked.push(idx);
        }
        k = k + 1;
    }
    proof {
        let c = candidates(views, order@, p@, now);
        let head = order@.take(k as int);
        let tail = order@.skip(k as int);
        assert(order@ =~= head + tail);
        Seq::filter_distributes_over_add(head, tail, f);
        assert(c == picked@ + tail.filter(f));
        if k == order.len() {
            assert(tail =~= Seq::<usize>::empty());
            reveal(Seq::filter);
            assert(tail.filter(f) =~= Seq::<usize>::empty());
            assert(c =~= picked@);
        } else {
            assert(picked.len() == count);
            if (count as nat) < c.len() {
                assert(c.take(count as int) =~= picked@);
            } else {
                assert(c =~= picked@);
            }
        }
    }
    picked
}

/// Marks the items at `targets` as reserved to `wallet`.
fn mark_claimed(
    nfts: &mut Vec<NftFull>,
    targets: &Vec<usize>,
    wallet: &str,
    reserved_until: i64,
    in_mint_run: bool,
)
    requires
        forall|k: int| 0 <= k < targets@.len() ==> (#[trigger] targets@[k]) < old(nfts)@.len(),
    ensures
        nft_views(final(nfts)@) == claim_all(
            nft_views(old(nfts)@),
            targets@,
            wallet@,
            reserved_until,
            in_mint_run,
        ),
{
    let ghost before = nft_views(nfts@);
    let n: usize = nfts.len();
    let mut k: usize = 0;
    proof {
        assert(nft_views(nfts@) =~= claim_all(
            before,
            targets@.take(0),
            wallet@,
            reserved_until,
            in_mint_run,
        ));
    }
    while k < targets.len()
        invariant
            k <= targets.len(),
            nfts@.len() == before.len(),
            before.len() == n,
            forall|j: int| 0 <= j < targets@.len() ==> (#[trigger] targets@[j]) < before.len(),
            nft_views(nfts@) == claim_all(
                before,
                targets@.take(k as int),
                wallet@,
                reserved_until,
                in_mint_run,
            ),
        decreases targets.len() - k,
    {
        let t: usize = targets[k];
        let ghost prior = nft_views(nfts@);
        let ghost prior_items = nfts@;
        let item = &mut nfts[t];
        item.nft_lite.reserved = true;
        item.nft_lite.reserved_until = Some(reserved_until);
        item.reserved_to_wallet_address = Some(owned(wallet));
        item.in_mint_run = in_mint_run;
        proof {
            let done = targets@.take(k as int);
            let next = targets@.take(k as int + 1);
            assert(next =~= done.push(t));
            assert(next[k as int] == t);
            let goal = claim_all(before, next, wallet@, reserved_until, in_mint_run);
            assert(nfts@.len() == prior_items.len());
            assert forall|i: int| 0 <= i < before.len() implies nft_views(nfts@)[i] == goal[i] by {
                assert(prior[i] == prior_items[i]@);
                if i == t {
                    assert(nfts@[i]@ == prior[i].claimed(wallet@, reserved_until, in_mint_run));
                    assert(next.contains(i as usize));
                } else {
                    assert(nfts@[i] == prior_items[i]);
                    let iu = i as usize;
                    if done.contains(iu) {
                        let w = choose|w: int| 0 <= w < done.len() && done[w] == iu;
                        assert(next[w] == iu);
                    }
                    if next.contains(iu) {
                        let w = choose|w: int| 0 <= w < next.len() && next[w] == iu;
                        assert(w != k);
                        assert(done[w] == iu);
                    }
                }
            }
            assert(nft_views(nfts@) =~= goal);
        }
        k = k + 1;
    }
    proof {
        assert(targets@.take(targets@.len() as int) =~= targets@);
    }
}

/// What the claimant is told of the items at `targets`.
fn describe_claimed(
    nfts: &Vec<NftFull>,
    targets: &Vec<usize>,
    wallet: &str,
) -> (r: Vec<MintReservation>)
    requires
        forall|k: int| 0 <= k < targets@.len() ==> (#[trigger] targets@[k]) < nfts@.len(),
    ensures
        reservation_views(r@) == reservations_of(nft_views(nfts@), targets@, wallet@),
{
    let mut out: Vec<MintReservation> = Vec::new();
    let mut k: usize = 0;
    while k < targets.len()
        invariant
            k <= targets.len(),
            forall|j: int| 0 <= j < targets@.len() ==> (#[trigger] targets@[j]) < nfts@.len(),
            out@.len() == k,
            reservation_views(out@) == reservations_of(
                nft_views(nfts@),
                targets@.take(k as int),
                wallet@,
            ),
        decreases targets.len() - k,
    {
        let t: usize = targets[k];
        let ghost prior_out = out@;
        out.push(
            MintReservation {
                wallet_address: owned(wallet),
                nft_id: nfts[t].nft_lite.id,
                meta_data: nfts[t].meta_data.clone(),
            },
        );
        proof {
            assert(targets@.take(k as int + 1) =~= targets@.take(k as int).push(t));
            let goal = reservations_of(nft_views(nfts@), targets@.take(k as int + 1), wallet@);
            let prior_goal = reservations_of(nft_views(nfts@), targets@.take(k as int), wallet@);
            assert forall|j: int| 0 <= j < out@.len() implies reservation_views(out@)[j] == goal[j] by {
                if j < k {
                    assert(out@[j] == prior_out[j]);
                    assert(reservation_views(prior_out)[j] == prior_goal[j]);
                } else {
                    assert(nft_views(nfts@)[t as int] == nfts@[t as int]@);
                }
            }
            assert(reservation_views(out@) =~= goal);
        }
        k = k + 1;
    }
    proof {
        assert(targets@.take(targets@.len() as int) =~= targets@);
    }
    out
}

/// Claims up to `count` items for `wallet`: the first items in `order` that
/// are available at time `now` and that `p` admits. Each is marked as
/// reserved to the wallet until `reserved_until`; no other item changes.
/// Returns the claimed items with their metadata, in the order of the walk.
pub fn claim(
    nfts: &mut Vec<NftFull>,
    order: &Vec<usize>,
    p: &StagePredicate,
    wallet: &str,
    reserved_until: i64,
    in_mint_run: bool,
    now: i64,
    count: usize,
) -> (r: Vec<MintReservation>)
    ensures
        ({
            let before = nft_views(old(nfts)@);
            let targets = claim_targets(before, order@, p@, now, count as nat);
            &&& nft_views(final(nfts)@) == claim_all(
                before,
                targets,
                wallet@,
                reserved_until,
                in_mint_run,
            )
            &&& reservation_views(r@) == reservations_of(before, targets, wallet@)
        }),
{
    let targets = select_targets(nfts, order, p, now, count);
    proof {
        lemma_targets_are_eligible(nft_views(nfts@), order@, p@, now, count as nat);
    }
    let claimed = describe_claimed(nfts, &targets, wallet);
    mark_claimed(nfts, &targets, wallet, reserved_until, in_mint_run);
    claimed
}

} // verus!
