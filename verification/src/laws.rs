//! What holds of the engine as a whole: that an item is claimed at most
//! once, by one attempt, by two in a row and by any number of callers;
//! that as many callers are served as items are available; that the quota
//! bounds every wallet; that an expired reservation can be claimed again;
//! that a submit error keeps a reservation valid; that tiers are drawn
//! from in their priority order; that a confirmed assignment is not made
//! twice; and that a mint run gives no item twice.

use vstd::prelude::*;
use crate::allocation::{
    candidates, claim_all, claim_targets, lemma_candidates_are_eligible,
    lemma_targets_are_eligible, pick_pred, reservations_of,
};
use crate::db::{
    active_count, active_pred, allocation, claimed_positions, deciding_stage, default_pred,
    guarded_reservation, lemma_deciding_stage, mint_run_draw, open_stages, personal_pred,
    quota_exceeded, reservation, stage_yields, AllocationView,
};
use crate::handlers::mint::{held_metadata, lemma_first_with_id};
use crate::handlers::reservation::mint_run;
use crate::lifecycle::{
    is_first_with_id, is_only_match, lemma_only_match, only_match, tx_pred, tx_result_applied,
    TxOutcome,
};
use crate::models::{MintState, NftFullView, StagePredicateView, StageView};
use crate::requests::{MetadataView, MintReservationView, OpenStageWalletView};
use crate::selection::{
    is_permutation, lemma_selection_order_is_permutation, selection_order_spec, wallet_seed_spec,
};
use crate::NFTDatabaseView;

verus! {

/// Replacing one entry of a sequence adds at most one entry to a filter of
/// it, and none where the new entry passes the filter only if the old one
/// did.
pub proof fn lemma_filter_len_update<A>(s: Seq<A>, f: spec_fn(A) -> bool, t: int, y: A)
    requires
        0 <= t < s.len(),
    ensures
        s.update(t, y).filter(f).len() <= s.filter(f).len() + 1,
        (f(y) ==> f(s[t])) ==> s.update(t, y).filter(f).len() <= s.filter(f).len(),
    decreases s.len(),
{
    reveal(Seq::filter);
    let u = s.update(t, y);
    if t == s.len() - 1 {
        assert(u.drop_last() =~= s.drop_last());
    } else {
        assert(u.drop_last() =~= s.drop_last().update(t, y));
        assert(u.last() == s.last());
        lemma_filter_len_update(s.drop_last(), f, t, y);
    }
}

/// Where the walk reaches every position, an item that can be claimed is
/// among the candidates.
pub proof fn lemma_eligible_is_candidate(
    nfts: Seq<NftFullView>,
    order: Seq<usize>,
    p: StagePredicateView,
    now: i64,
    i: usize,
)
    requires
        is_permutation(order),
        order.len() == nfts.len(),
        i < nfts.len(),
        nfts[i as int].eligible(p, now),
    ensures
        candidates(nfts, order, p, now).contains(i),
        candidates(nfts, order, p, now).len() > 0,
{
    let f = pick_pred(nfts, p, now);
    assert(order.contains(i));
    let k = choose|k: int| 0 <= k < order.len() && order[k] == i;
    assert(f(order[k]));
    order.lemma_filter_contains(f, k);
}


/// What an attempt does to the items: those at the claimed positions are
/// marked as reserved to the wallet, and no other item changes. The
/// attempt succeeds exactly where it claims a position.
pub proof fn lemma_allocation_items(
    db: NFTDatabaseView,
    seed: i32,
    wallet: Seq<char>,
    stages: Seq<StageView>,
    count: nat,
    reserved_until: i64,
    in_mint_run: bool,
    now: i64,
)
    ensures
        ({
            let (after, out) = allocation(
                db,
                seed,
                wallet,
                stages,
                count,
                reserved_until,
                in_mint_run,
                now,
            );
            let targets = claimed_positions(db, seed, stages, count, now);
            &&& after.nfts == claim_all(db.nfts, targets, wallet, reserved_until, in_mint_run)
            &&& after.stages == db.stages
            &&& out is Claimed <==> targets.len() > 0
            &&& targets.len() <= count
            &&& forall|k: int|
                0 <= k < targets.len() ==> (#[trigger] targets[k]) < db.nfts.len()
                    && db.nfts[targets[k] as int].available(now)
        }),
{
    let order = selection_order_spec(seed, db.nfts.len());
    let k = deciding_stage(db.nfts, order, stages, now, count, 0);
    lemma_deciding_stage(db.nfts, order, stages, now, count, 0);
    let targets = claimed_positions(db, seed, stages, count, now);
    if k >= stages.len() || stages[k].misconfigured() {
        assert(claim_all(db.nfts, targets, wallet, reserved_until, in_mint_run) =~= db.nfts);
    } else {
        lemma_targets_are_eligible(db.nfts, order, stages[k].predicate(), now, count);
    }
}

/// An item is claimed at most once: what one attempt has claimed, no
/// attempt made while the hold runs claims again, whoever makes it and
/// through whichever tiers.
pub proof fn law_at_most_one_claim(
    db: NFTDatabaseView,
    seed: i32,
    wallet: Seq<char>,
    stages: Seq<StageView>,
    count: nat,
    reserved_until: i64,
    in_mint_run: bool,
    now: i64,
    next_seed: i32,
    next_wallet: Seq<char>,
    next_stages: Seq<StageView>,
    next_count: nat,
    next_until: i64,
    next_in_mint_run: bool,
    later: i64,
    t: usize,
)
    requires
        later <= reserved_until,
        claimed_positions(db, seed, stages, count, now).contains(t),
    ensures
        ({
            let after = allocation(
                db,
                seed,
                wallet,
                stages,
                count,
                reserved_until,
                in_mint_run,
                now,
            ).0;
            let next = allocation(
                after,
                next_seed,
                next_wallet,
                next_stages,
                next_count,
                next_until,
                next_in_mint_run,
                later,
            ).0;
            &&& !claimed_positions(after, next_seed, next_stages, next_count, later).contains(t)
            &&& next.nfts[t as int] == after.nfts[t as int]
            &&& after.nfts[t as int].reserved_to_wallet_address == Some(wallet)
        }),
{
    lemma_allocation_items(db, seed, wallet, stages, count, reserved_until, in_mint_run, now);
    let after = allocation(db, seed, wallet, stages, count, reserved_until, in_mint_run, now).0;
    let first = claimed_positions(db, seed, stages, count, now);
    let w = choose|w: int| 0 <= w < first.len() && first[w] == t;
    assert(first[w] < db.nfts.len());
    assert(!after.nfts[t as int].available(later));
    lemma_allocation_items(
        after,
        next_seed,
        next_wallet,
        next_stages,
        next_count,
        next_until,
        next_in_mint_run,
        later,
    );
    let second = claimed_positions(after, next_seed, next_stages, next_count, later);
    if second.contains(t) {
        let v = choose|v: int| 0 <= v < second.len() && second[v] == t;
        assert(after.nfts[second[v] as int].available(later));
    }
}

/// A filter of a sequence without duplicates has no duplicates.
pub proof fn lemma_filter_no_duplicates<A>(s: Seq<A>, f: spec_fn(A) -> bool)
    requires
        s.no_duplicates(),
    ensures
        s.filter(f).no_duplicates(),
    decreases s.len(),
{
    reveal(Seq::filter);
    if s.len() > 0 {
        let rest = s.drop_last();
        lemma_filter_no_duplicates(rest, f);
        let kept = rest.filter(f);
        if f(s.last()) {
            assert forall|i: int| 0 <= i < kept.len() implies kept[i] != s.last() by {
                assert(kept.contains(kept[i]));
                rest.lemma_filter_contains_rev(f, kept[i]);
                let k = choose|k: int| 0 <= k < rest.len() && rest[k] == kept[i];
                assert(s[k] == kept[i]);
            }
        }
    }
}

/// One attempt claims no item twice: the claimed positions are pairwise
/// distinct, and in a store that meets its invariant so are the
/// identifiers that the claimant is told.
pub proof fn law_claims_are_distinct(
    db: NFTDatabaseView,
    seed: i32,
    wallet: Seq<char>,
    stages: Seq<StageView>,
    count: nat,
    reserved_until: i64,
    in_mint_run: bool,
    now: i64,
    a: int,
    b: int,
)
    requires
        db.nfts.len() <= usize::MAX,
        0 <= a < b < claimed_positions(db, seed, stages, count, now).len(),
    ensures
        claimed_positions(db, seed, stages, count, now)[a] != claimed_positions(
            db,
            seed,
            stages,
            count,
            now,
        )[b],
        db.wf() ==> (allocation(
            db,
            seed,
            wallet,
            stages,
            count,
            reserved_until,
            in_mint_run,
            now,
        ).1 matches AllocationView::Claimed { claims, .. } && claims.len() == claimed_positions(
            db,
            seed,
            stages,
            count,
            now,
        ).len() && claims[a].nft_id != claims[b].nft_id),
{
    let order = selection_order_spec(seed, db.nfts.len());
    lemma_selection_order_is_permutation(seed, db.nfts.len());
    lemma_deciding_stage(db.nfts, order, stages, now, count, 0);
    let k = deciding_stage(db.nfts, order, stages, now, count, 0);
    let p = stages[k].predicate();
    let targets = claim_targets(db.nfts, order, p, now, count);
    assert(targets == claimed_positions(db, seed, stages, count, now));
    lemma_filter_no_duplicates(order, pick_pred(db.nfts, p, now));
    lemma_targets_are_eligible(db.nfts, order, p, now, count);
    let c = candidates(db.nfts, order, p, now);
    assert(targets[a] == c[a] && targets[b] == c[b]);
    if db.wf() {
        let claims = reservations_of(db.nfts, targets, wallet);
        assert(claims[a].nft_id == db.nfts[targets[a] as int].nft_lite.id);
        assert(claims[b].nft_id == db.nfts[targets[b] as int].nft_lite.id);
        if targets[a] < targets[b] {
            assert(db.nfts[targets[a] as int].nft_lite.id != db.nfts[targets[b] as int].nft_lite.id);
        } else {
            assert(db.nfts[targets[b] as int].nft_lite.id != db.nfts[targets[a] as int].nft_lite.id);
        }
    }
}

/// An attempt for at least one item succeeds where some tier of the list
/// admits an item that can be claimed and no tier up to it is
/// misconfigured; and the tier that gives lies no later than that one.
pub proof fn law_claims_when_available(
    db: NFTDatabaseView,
    seed: i32,
    wallet: Seq<char>,
    stages: Seq<StageView>,
    count: nat,
    reserved_until: i64,
    in_mint_run: bool,
    now: i64,
    j: int,
    i: usize,
)
    requires
        db.nfts.len() <= usize::MAX,
        count > 0,
        0 <= j < stages.len(),
        forall|k: int| 0 <= k <= j ==> !(#[trigger] stages[k]).misconfigured(),
        i < db.nfts.len(),
        db.nfts[i as int].eligible(stages[j].predicate(), now),
    ensures
        (allocation(
            db,
            seed,
            wallet,
            stages,
            count,
            reserved_until,
            in_mint_run,
            now,
        ).1 matches AllocationView::Claimed { stage, .. } && stage <= j),
{
    let order = selection_order_spec(seed, db.nfts.len());
    lemma_selection_order_is_permutation(seed, db.nfts.len());
    lemma_deciding_stage(db.nfts, order, stages, now, count, 0);
    lemma_eligible_is_candidate(db.nfts, order, stages[j].predicate(), now, i);
    assert(stage_yields(db.nfts, order, stages[j], now, count));
}

/// Tiers are drawn from in their order: where the tier at position `stage`
/// gave the items, no tier before it admits any item that can be claimed.
/// And where the attempt found no inventory, no tier of the list does.
pub proof fn law_tier_priority(
    db: NFTDatabaseView,
    seed: i32,
    wallet: Seq<char>,
    stages: Seq<StageView>,
    count: nat,
    reserved_until: i64,
    in_mint_run: bool,
    now: i64,
    j: int,
    i: usize,
)
    requires
        db.nfts.len() <= usize::MAX,
        count > 0,
        0 <= j < stages.len(),
        i < db.nfts.len(),
    ensures
        ({
            let out = allocation(
                db,
                seed,
                wallet,
                stages,
                count,
                reserved_until,
                in_mint_run,
                now,
            ).1;
            &&& (out matches AllocationView::Claimed { stage, .. } && j < stage)
                ==> !db.nfts[i as int].eligible(stages[j].predicate(), now)
            &&& out is NoInventory ==> !db.nfts[i as int].eligible(stages[j].predicate(), now)
        }),
{
    let order = selection_order_spec(seed, db.nfts.len());
    lemma_selection_order_is_permutation(seed, db.nfts.len());
    lemma_deciding_stage(db.nfts, order, stages, now, count, 0);
    let k = deciding_stage(db.nfts, order, stages, now, count, 0);
    if j < k && db.nfts[i as int].eligible(stages[j].predicate(), now) {
        lemma_eligible_is_candidate(db.nfts, order, stages[j].predicate(), now, i);
        assert(stage_yields(db.nfts, order, stages[j], now, count));
    }
}

/// The tiers open to a wallet list its personal tiers before the fallback
/// tiers: the list is the personal tiers followed by the fallback tiers,
/// and an open fallback tier is on it whatever the personal tiers are.
pub proof fn law_personal_before_default(db: NFTDatabaseView, wallet: Seq<char>, now: i64, i: int)
    requires
        0 <= i < db.stages.len(),
    ensures
        ({
            let personal = db.stages.filter(personal_pred(db.wallet_whitelist, wallet, now));
            let fallback = db.stages.filter(default_pred(now));
            let all = open_stages(db, wallet, now);
            &&& all.len() == personal.len() + fallback.len()
            &&& forall|k: int| 0 <= k < personal.len() ==> all[k] == personal[k]
            &&& forall|k: int| 0 <= k < fallback.len() ==> all[personal.len() + k] == fallback[k]
            &&& db.stages[i].is_open(now) && db.stages[i].is_default ==> fallback.contains(
                db.stages[i],
            ) && all.contains(db.stages[i])
            &&& forall|k: int|
                0 <= k < personal.len() ==> (#[trigger] personal[k]).is_open(now)
            &&& forall|k: int|
                0 <= k < fallback.len() ==> (#[trigger] fallback[k]).is_open(now)
                    && fallback[k].is_default
        }),
{
    let f = personal_pred(db.wallet_whitelist, wallet, now);
    let g = default_pred(now);
    let personal = db.stages.filter(f);
    let fallback = db.stages.filter(g);
    let all = open_stages(db, wallet, now);
    if db.stages[i].is_open(now) && db.stages[i].is_default {
        db.stages.lemma_filter_contains(g, i);
        let k = choose|k: int| 0 <= k < fallback.len() && fallback[k] == db.stages[i];
        assert(all[personal.len() + k] == db.stages[i]);
    }
    assert forall|k: int| 0 <= k < personal.len() implies (#[trigger] personal[k]).is_open(now) by {
        db.stages.lemma_filter_pred(f, k);
    }
    assert forall|k: int| 0 <= k < fallback.len() implies (#[trigger] fallback[k]).is_open(now)
        && fallback[k].is_default by {
        db.stages.lemma_filter_pred(g, k);
    }
}

/// The quota bounds every wallet: an attempt to reserve under a quota of
/// `max_reservations` leaves no wallet above the quota that was not above
/// it before. A wallet at its quota is refused and nothing is claimed.
pub proof fn law_quota_bound(
    db: NFTDatabaseView,
    seed: i32,
    wallet: Seq<char>,
    reserved_until: i64,
    max_reservations: usize,
    now: i64,
    other: Seq<char>,
)
    requires
        db.nfts.len() <= usize::MAX,
    ensures
        ({
            let (after, out) = guarded_reservation(
                db,
                seed,
                wallet,
                reserved_until,
                max_reservations,
                now,
            );
            &&& active_count(db.nfts, other, now) <= max_reservations ==> active_count(
                after.nfts,
                other,
                now,
            ) <= max_reservations
            &&& other != wallet ==> active_count(after.nfts, other, now) <= active_count(
                db.nfts,
                other,
                now,
            )
            &&& active_count(after.nfts, wallet, now) <= active_count(db.nfts, wallet, now) + 1
            &&& quota_exceeded(db, wallet, max_reservations, now) ==> out is QuotaExceeded
                && after == db
        }),
{
    let (after, out) = guarded_reservation(db, seed, wallet, reserved_until, max_reservations, now);
    let stages = open_stages(db, wallet, now);
    if !quota_exceeded(db, wallet, max_reservations, now) && stages.len() > 0 {
        lemma_allocation_items(db, seed, wallet, stages, 1, reserved_until, false, now);
        let targets = claimed_positions(db, seed, stages, 1, now);
        if targets.len() == 0 {
            assert(after.nfts =~= db.nfts);
        } else {
            let t = targets[0];
            let item = db.nfts[t as int].claimed(wallet, reserved_until, false);
            assert(targets.contains(t));
            assert forall|i: int| 0 <= i < db.nfts.len() implies after.nfts[i] == db.nfts.update(
                t as int,
                item,
            )[i] by {
                let iu = i as usize;
                if targets.contains(iu) {
                    let w = choose|w: int| 0 <= w < targets.len() && targets[w] == iu;
                    assert(w == 0);
                }
            }
            assert(after.nfts =~= db.nfts.update(t as int, item));
            lemma_filter_len_update(db.nfts, active_pred(other, now), t as int, item);
            lemma_filter_len_update(db.nfts, active_pred(wallet, now), t as int, item);
        }
    }
}

/// An expired reservation can be claimed again: an item that is reserved
/// with a deadline in the past, and is neither assigned, in process nor
/// under a submit error, is available to every wallet, and is among the
/// candidates of every tier that admits it, whatever the seed.
pub proof fn law_expiry_reclaim(
    nfts: Seq<NftFullView>,
    seed: i32,
    p: StagePredicateView,
    now: i64,
    i: usize,
)
    requires
        nfts.len() <= usize::MAX,
        i < nfts.len(),
        nfts[i as int].nft_lite.reserved,
        nfts[i as int].reservation_expired(now),
        !nfts[i as int].nft_lite.has_submit_error,
        !nfts[i as int].nft_lite.assigned,
        !nfts[i as int].nft_lite.in_process,
        nfts[i as int].admitted_by(p),
    ensures
        nfts[i as int].available(now),
        nfts[i as int].state(now) == MintState::Available,
        candidates(nfts, selection_order_spec(seed, nfts.len()), p, now).contains(i),
{
    lemma_selection_order_is_permutation(seed, nfts.len());
    lemma_eligible_is_candidate(nfts, selection_order_spec(seed, nfts.len()), p, now, i);
}

/// A submit error keeps the reservation with its holder: a reserved item
/// with an outstanding submit error is valid for its holder at every time,
/// also after the deadline, and no wallet can claim it.
pub proof fn law_retry_exemption(item: NftFullView, p: StagePredicateView, now: i64)
    requires
        item.nft_lite.reserved,
        item.nft_lite.has_submit_error,
    ensures
        item.nft_lite.reservation_valid(now),
        !item.available(now),
        !item.eligible(p, now),
{
}

/// The holder of an item under retry gets its metadata at every time: for
/// an item that is reserved to the wallet and carries a submit error, the
/// request for the metadata succeeds whatever the deadline.
pub proof fn law_retry_keeps_metadata(
    db: NFTDatabaseView,
    wallet: Seq<char>,
    nft: u128,
    now: i64,
    i: int,
)
    requires
        is_first_with_id(db.nfts, nft, i),
        db.nfts[i].reserved_to_wallet_address == Some(wallet),
        db.nfts[i].nft_lite.reserved,
        db.nfts[i].nft_lite.has_submit_error,
    ensures
        held_metadata(db, wallet, nft, now) == Ok::<MetadataView, crate::handlers::Refusal>(
            db.nfts[i].meta_data,
        ),
{
    lemma_first_with_id(db, nft, i);
}

/// A confirmed assignment is not made twice: a report of success that is
/// taken a second time changes nothing. Where the first report assigned
/// the item, the second is answered with `AlreadyProcessed`; where the
/// first was refused, the second is refused in the same way.
pub proof fn law_idempotent_confirmation(
    db: NFTDatabaseView,
    wallet: Option<Seq<char>>,
    tx: Seq<char>,
    assigned_on: Option<i64>,
    error: Option<Seq<char>>,
    token_id: Option<Seq<char>>,
)
    ensures
        ({
            let (after, first) = tx_result_applied(
                db,
                wallet,
                tx,
                true,
                assigned_on,
                error,
                token_id,
            );
            let (again, second) = tx_result_applied(
                after,
                wallet,
                tx,
                true,
                assigned_on,
                error,
                token_id,
            );
            &&& again == after
            &&& first == TxOutcome::Assigned ==> second == TxOutcome::AlreadyProcessed
            &&& first != TxOutcome::Assigned ==> second == first && after == db
        }),
{
    let (after, first) = tx_result_applied(db, wallet, tx, true, assigned_on, error, token_id);
    if first == TxOutcome::Assigned {
        law_confirmed_stays(
            db,
            wallet,
            tx,
            assigned_on,
            error,
            token_id,
            wallet,
            true,
            assigned_on,
            error,
            token_id,
        );
    }
}

/// Once a report of success for a transaction has assigned an item, any
/// further report for the same transaction, of success or of failure and
/// whatever it carries, is answered with `AlreadyProcessed` and changes
/// nothing; the owner and the token identifier of the item stay as they
/// are.
pub proof fn law_confirmed_stays(
    db: NFTDatabaseView,
    wallet: Option<Seq<char>>,
    tx: Seq<char>,
    assigned_on: Option<i64>,
    error: Option<Seq<char>>,
    token_id: Option<Seq<char>>,
    next_wallet: Option<Seq<char>>,
    next_success: bool,
    next_assigned_on: Option<i64>,
    next_error: Option<Seq<char>>,
    next_token_id: Option<Seq<char>>,
)
    requires
        tx_result_applied(db, wallet, tx, true, assigned_on, error, token_id).1
            == TxOutcome::Assigned,
    ensures
        ({
            let after = tx_result_applied(db, wallet, tx, true, assigned_on, error, token_id).0;
            let i = only_match(db.nfts, tx_pred(tx));
            &&& tx_result_applied(
                after,
                next_wallet,
                tx,
                next_success,
                next_assigned_on,
                next_error,
                next_token_id,
            ) == (after, TxOutcome::AlreadyProcessed)
            &&& after.nfts[i].nft_lite.assigned
            &&& after.nfts[i].assigned_to_wallet_address == wallet
            &&& after.nfts[i].token_id == token_id
        }),
{
    let f = tx_pred(tx);
    let i = only_match(db.nfts, f);
    assert(is_only_match(db.nfts, f, i));
    let after = tx_result_applied(db, wallet, tx, true, assigned_on, error, token_id).0;
    assert(is_only_match(after.nfts, f, i)) by {
        assert forall|j: int| 0 <= j < after.nfts.len() && j != i implies !f(
            #[trigger] after.nfts[j],
        ) by {
            assert(after.nfts[j] == db.nfts[j]);
        }
    }
    lemma_only_match(after.nfts, f, i);
}

/// The tally of draws never falls: an attempt to claim items leaves every
/// allowance with its wallet, its tier and its limit, and with a count of
/// reserved items that is no smaller than before.
pub proof fn law_counters_never_fall(
    db: NFTDatabaseView,
    seed: i32,
    wallet: Seq<char>,
    stages: Seq<StageView>,
    count: nat,
    reserved_until: i64,
    in_mint_run: bool,
    now: i64,
    i: int,
)
    requires
        0 <= i < db.wallet_whitelist.len(),
    ensures
        ({
            let after = allocation(
                db,
                seed,
                wallet,
                stages,
                count,
                reserved_until,
                in_mint_run,
                now,
            ).0;
            let old_row = db.wallet_whitelist[i];
            let new_row = after.wallet_whitelist[i];
            &&& after.wallet_whitelist.len() == db.wallet_whitelist.len()
            &&& new_row.wallet_address == old_row.wallet_address
            &&& new_row.stage == old_row.stage
            &&& new_row.allocation_count == old_row.allocation_count
            &&& new_row.assigned_count == old_row.assigned_count
            &&& new_row.reserved_count >= old_row.reserved_count
        }),
{
}

/// The lifecycle of an item, step by step. A claim takes an available
/// item to `Reserved` for as long as the hold runs. A submission takes a
/// reserved item, or one under a submit error, to `InProcess`. A report of
/// success takes it to `Assigned`; a report of failure takes it to
/// `SubmitError` and leaves it reserved and in process.
pub proof fn law_lifecycle(
    item: NftFullView,
    wallet: Seq<char>,
    reserved_until: i64,
    in_mint_run: bool,
    handle: Seq<char>,
    assigned_on: Option<i64>,
    token_id: Option<Seq<char>>,
    error: Option<Seq<char>>,
    now: i64,
)
    ensures
        item.available(now) ==> item.state(now) == MintState::Available,
        item.available(now) && now <= reserved_until ==> item.claimed(
            wallet,
            reserved_until,
            in_mint_run,
        ).state(now) == MintState::Reserved,
        !item.nft_lite.assigned ==> item.submitted_hash(handle).state(now) == MintState::InProcess
            && item.submitted_payload(handle).state(now) == MintState::InProcess,
        item.assigned_to(wallet, assigned_on, token_id).state(now) == MintState::Assigned,
        item.assigned_to(wallet, assigned_on, token_id).wf(),
        !item.nft_lite.assigned ==> item.submit_failed(error).state(now)
            == MintState::SubmitError,
        item.submit_failed(error).nft_lite.in_process == item.nft_lite.in_process,
        item.submit_failed(error).nft_lite.reserved == item.nft_lite.reserved,
        item.submit_failed(error).tx_error == error,
{
}

/// A filter that passes less keeps less.
pub proof fn lemma_filter_len_weaker<A>(s: Seq<A>, f: spec_fn(A) -> bool, g: spec_fn(A) -> bool)
    requires
        forall|i: int| 0 <= i < s.len() && g(#[trigger] s[i]) ==> f(s[i]),
    ensures
        s.filter(g).len() <= s.filter(f).len(),
    decreases s.len(),
{
    reveal(Seq::filter);
    if s.len() > 0 {
        let rest = s.drop_last();
        assert forall|i: int| 0 <= i < rest.len() && g(#[trigger] rest[i]) implies f(rest[i]) by {
            assert(rest[i] == s[i]);
        }
        lemma_filter_len_weaker(rest, f, g);
        assert(s.last() == s[s.len() - 1]);
    }
}

/// Time alone puts no wallet above its quota: as long as the store does
/// not change, the count of a wallet's active items does not grow.
pub proof fn law_quota_count_falls_with_time(
    nfts: Seq<NftFullView>,
    wallet: Seq<char>,
    now: i64,
    later: i64,
)
    requires
        now <= later,
    ensures
        active_count(nfts, wallet, later) <= active_count(nfts, wallet, now),
{
    lemma_filter_len_weaker(nfts, active_pred(wallet, now), active_pred(wallet, later));
}


/// One caller of the reservation: its seed, its wallet, and the deadline
/// that it asks for.
pub struct Caller {
    pub seed: i32,
    pub wallet: Seq<char>,
    pub reserved_until: i64,
}

/// The store after the first `k` of the callers have each tried to reserve
/// one item at time `now`, one after the other. The store takes callers
/// that come at once in some order; this is the store for that order.
pub open spec fn store_after(
    db: NFTDatabaseView,
    callers: Seq<Caller>,
    k: int,
    now: i64,
) -> NFTDatabaseView
    decreases k,
{
    if k <= 0 || k > callers.len() {
        db
    } else {
        let c = callers[k - 1];
        reservation(store_after(db, callers, k - 1, now), c.seed, c.wallet, c.reserved_until, now).0
    }
}

/// The positions that the caller at place `k` claims: one position where
/// it gets an item, none where it does not.
pub open spec fn claimed_by(
    db: NFTDatabaseView,
    callers: Seq<Caller>,
    k: int,
    now: i64,
) -> Seq<usize> {
    let store = store_after(db, callers, k, now);
    let c = callers[k];
    let stages = open_stages(store, c.wallet, now);
    if stages.len() == 0 {
        Seq::empty()
    } else {
        claimed_positions(store, c.seed, stages, 1, now)
    }
}

/// What one caller does to the items: it claims at most one position. The
/// item there was available and is now reserved to the caller; no other
/// item changes. The caller is answered
/// with an item exactly where it claims a position, and the item is the
/// one at that position.
pub proof fn lemma_one_caller(db: NFTDatabaseView, c: Caller, now: i64)
    requires
        db.nfts.len() <= usize::MAX,
    ensures
        ({
            let (after, out) = reservation(db, c.seed, c.wallet, c.reserved_until, now);
            let stages = open_stages(db, c.wallet, now);
            let targets = if stages.len() == 0 {
                Seq::<usize>::empty()
            } else {
                claimed_positions(db, c.seed, stages, 1, now)
            };
            &&& after.nfts.len() == db.nfts.len()
            &&& targets.len() <= 1
            &&& out is Claimed <==> targets.len() == 1
            &&& out matches AllocationView::Claimed { claims, .. } ==> claims.len() == 1
                && claims[0].nft_id == db.nfts[targets[0] as int].nft_lite.id
            &&& forall|i: int|
                0 <= i < db.nfts.len() && !targets.contains(i as usize) ==> after.nfts[i]
                    == db.nfts[i]
            &&& forall|k: int|
                0 <= k < targets.len() ==> {
                    let t = #[trigger] targets[k];
                    &&& t < db.nfts.len()
                    &&& db.nfts[t as int].available(now)
                    &&& after.nfts[t as int] == db.nfts[t as int].claimed(
                        c.wallet,
                        c.reserved_until,
                        false,
                    )
                }
        }),
{
    let stages = open_stages(db, c.wallet, now);
    if stages.len() > 0 {
        lemma_allocation_items(db, c.seed, c.wallet, stages, 1, c.reserved_until, false, now);
        let targets = claimed_positions(db, c.seed, stages, 1, now);
        let after = reservation(db, c.seed, c.wallet, c.reserved_until, now).0;
        assert forall|k: int| 0 <= k < targets.len() implies after.nfts[(#[trigger] targets[k]) as int]
            == db.nfts[targets[k] as int].claimed(c.wallet, c.reserved_until, false) by {
            assert(targets.contains(targets[k]));
        }
    }
}

/// The store after the first `k` callers has the items of the first store
/// at their positions and under their identifiers.
pub proof fn lemma_callers_keep_items(db: NFTDatabaseView, callers: Seq<Caller>, k: int, now: i64)
    requires
        db.nfts.len() <= usize::MAX,
        0 <= k <= callers.len(),
    ensures
        ({
            let store = store_after(db, callers, k, now);
            &&& store.nfts.len() == db.nfts.len()
            &&& forall|i: int|
                0 <= i < db.nfts.len() ==> (#[trigger] store.nfts[i]).nft_lite.id
                    == db.nfts[i].nft_lite.id
        }),
    decreases k,
{
    if k > 0 {
        lemma_callers_keep_items(db, callers, k - 1, now);
        let before = store_after(db, callers, k - 1, now);
        lemma_one_caller(before, callers[k - 1], now);
        let store = store_after(db, callers, k, now);
        let targets = claimed_by(db, callers, k - 1, now);
        assert forall|i: int| 0 <= i < db.nfts.len() implies (#[trigger] store.nfts[i]).nft_lite.id
            == db.nfts[i].nft_lite.id by {
            if targets.contains(i as usize) {
                let w = choose|w: int| 0 <= w < targets.len() && targets[w] == i as usize;
                assert(store.nfts[targets[w] as int].nft_lite.id == before.nfts[i].nft_lite.id);
            }
        }
    }
}

/// Every caller asks for a hold that does not end before `now`.
pub open spec fn holds_in_time(callers: Seq<Caller>, now: i64) -> bool {
    forall|i: int| 0 <= i < callers.len() ==> (#[trigger] callers[i]).reserved_until >= now
}

/// What holds of the store after the first `k` callers, where every hold
/// asked for does not end before `now`: it has the items of the first
/// store at their positions and under their identifiers; an item that is
/// still available is as it was in the first store; and an item that an
/// earlier caller claimed is reserved to that caller, as the caller left
/// it, and not available.
pub proof fn lemma_callers(db: NFTDatabaseView, callers: Seq<Caller>, k: int, now: i64)
    requires
        db.nfts.len() <= usize::MAX,
        holds_in_time(callers, now),
        0 <= k <= callers.len(),
    ensures
        ({
            let store = store_after(db, callers, k, now);
            &&& store.nfts.len() == db.nfts.len()
            &&& forall|i: int|
                0 <= i < db.nfts.len() ==> (#[trigger] store.nfts[i]).nft_lite.id
                    == db.nfts[i].nft_lite.id
            &&& forall|i: int|
                0 <= i < db.nfts.len() && (#[trigger] store.nfts[i]).available(now)
                    ==> store.nfts[i] == db.nfts[i]
            &&& forall|a: int, j: int|
                0 <= a < k && 0 <= j < claimed_by(db, callers, a, now).len() ==> {
                    let t = #[trigger] claimed_by(db, callers, a, now)[j];
                    &&& t < db.nfts.len()
                    &&& db.nfts[t as int].available(now)
                    &&& !store.nfts[t as int].available(now)
                    &&& store.nfts[t as int] == db.nfts[t as int].claimed(
                        callers[a].wallet,
                        callers[a].reserved_until,
                        false,
                    )
                }
        }),
    decreases k,
{
    if k > 0 {
        lemma_callers(db, callers, k - 1, now);
        let before = store_after(db, callers, k - 1, now);
        let c = callers[k - 1];
        lemma_one_caller(before, c, now);
        let store = store_after(db, callers, k, now);
        let targets = claimed_by(db, callers, k - 1, now);
        assert forall|i: int| 0 <= i < db.nfts.len() implies (#[trigger] store.nfts[i]).nft_lite.id
            == db.nfts[i].nft_lite.id by {
            if targets.contains(i as usize) {
                let w = choose|w: int| 0 <= w < targets.len() && targets[w] == i as usize;
                assert(store.nfts[targets[w] as int].nft_lite.id == before.nfts[i].nft_lite.id);
            }
        }
        assert forall|i: int|
            0 <= i < db.nfts.len() && (#[trigger] store.nfts[i]).available(now) implies store.nfts[i]
            == db.nfts[i] by {
            if targets.contains(i as usize) {
                let w = choose|w: int| 0 <= w < targets.len() && targets[w] == i as usize;
                assert(!store.nfts[targets[w] as int].available(now));
            }
        }
        assert forall|a: int, j: int|
            0 <= a < k && 0 <= j < claimed_by(db, callers, a, now).len() implies {
            let t = #[trigger] claimed_by(db, callers, a, now)[j];
            &&& t < db.nfts.len()
            &&& db.nfts[t as int].available(now)
            &&& !store.nfts[t as int].available(now)
            &&& store.nfts[t as int] == db.nfts[t as int].claimed(
                callers[a].wallet,
                callers[a].reserved_until,
                false,
            )
        } by {
            let t = claimed_by(db, callers, a, now)[j];
            if a < k - 1 {
                assert(!before.nfts[t as int].available(now));
                if targets.contains(t) {
                    let w = choose|w: int| 0 <= w < targets.len() && targets[w] == t;
                    assert(before.nfts[targets[w] as int].available(now));
                }
            } else {
                assert(t == targets[j]);
                assert(before.nfts[t as int].available(now));
            }
        }
    }
}

/// An item is claimed at most once, however many callers come at once and
/// ask for holds that do not end before `now`: whatever the order in which
/// the store takes them, two callers never claim the same position, and in
/// a store that meets its invariant never get the same identifier. The
/// item that a caller gets was available in the first store, and in the
/// last one it is reserved to that caller.
pub proof fn law_callers_get_distinct_items(
    db: NFTDatabaseView,
    callers: Seq<Caller>,
    now: i64,
    a: int,
    b: int,
)
    requires
        db.nfts.len() <= usize::MAX,
        holds_in_time(callers, now),
        0 <= a < b < callers.len(),
        claimed_by(db, callers, a, now).len() > 0,
        claimed_by(db, callers, b, now).len() > 0,
    ensures
        ({
            let ta = claimed_by(db, callers, a, now)[0];
            let tb = claimed_by(db, callers, b, now)[0];
            let last = store_after(db, callers, callers.len() as int, now);
            &&& ta != tb
            &&& ta < db.nfts.len() && tb < db.nfts.len()
            &&& db.nfts[ta as int].available(now) && db.nfts[tb as int].available(now)
            &&& last.nfts[ta as int].reserved_to_wallet_address == Some(callers[a].wallet)
            &&& last.nfts[tb as int].reserved_to_wallet_address == Some(callers[b].wallet)
            &&& last.nfts[ta as int].nft_lite.reserved && last.nfts[tb as int].nft_lite.reserved
            &&& db.wf() ==> db.nfts[ta as int].nft_lite.id != db.nfts[tb as int].nft_lite.id
        }),
{
    let ta = claimed_by(db, callers, a, now)[0];
    let tb = claimed_by(db, callers, b, now)[0];
    lemma_callers(db, callers, callers.len() as int, now);
    lemma_callers(db, callers, b, now);
    let store = store_after(db, callers, b, now);
    lemma_one_caller(store, callers[b], now);
    assert(!store.nfts[ta as int].available(now));
    assert(store.nfts[tb as int].available(now));
    if db.wf() {
        if ta < tb {
            assert(db.nfts[ta as int].nft_lite.id != db.nfts[tb as int].nft_lite.id);
        } else {
            assert(db.nfts[tb as int].nft_lite.id != db.nfts[ta as int].nft_lite.id);
        }
    }
}

/// What a caller is answered agrees with what it claims: the caller at
/// place `k` is answered with an item exactly where it claims a position,
/// and the identifier that it is told is that of the item at the position,
/// as the first store has it.
pub proof fn law_caller_is_told_its_item(
    db: NFTDatabaseView,
    callers: Seq<Caller>,
    k: int,
    now: i64,
)
    requires
        db.nfts.len() <= usize::MAX,
        0 <= k < callers.len(),
    ensures
        ({
            let c = callers[k];
            let out = reservation(
                store_after(db, callers, k, now),
                c.seed,
                c.wallet,
                c.reserved_until,
                now,
            ).1;
            let targets = claimed_by(db, callers, k, now);
            &&& out is Claimed <==> targets.len() == 1
            &&& targets.len() <= 1
            &&& out matches AllocationView::Claimed { claims, .. } ==> claims.len() == 1
                && claims[0].nft_id == db.nfts[targets[0] as int].nft_lite.id
        }),
{
    lemma_callers_keep_items(db, callers, k, now);
    lemma_one_caller(store_after(db, callers, k, now), callers[k], now);
}


/// Tells whether an item is available at time `now`.
pub open spec fn available_pred(now: i64) -> spec_fn(NftFullView) -> bool {
    |n: NftFullView| n.available(now)
}

/// How many items are available at time `now`.
pub open spec fn available_count(nfts: Seq<NftFullView>, now: i64) -> nat {
    nfts.filter(available_pred(now)).len()
}

/// The store has one tier, which is open to every wallet and draws any
/// item, and no allowances.
pub open spec fn one_open_tier(db: NFTDatabaseView, now: i64) -> bool {
    &&& db.wallet_whitelist.len() == 0
    &&& db.stages.len() == 1
    &&& db.stages[0].is_default
    &&& db.stages[0].is_open(now)
    &&& db.stages[0].attribute_type is None
}

/// Replacing an entry that passes a filter by one that does not takes one
/// entry from the filter.
pub proof fn lemma_filter_len_drop<A>(s: Seq<A>, f: spec_fn(A) -> bool, t: int, y: A)
    requires
        0 <= t < s.len(),
        f(s[t]),
        !f(y),
    ensures
        s.update(t, y).filter(f).len() == s.filter(f).len() - 1,
    decreases s.len(),
{
    reveal(Seq::filter);
    let u = s.update(t, y);
    if t == s.len() - 1 {
        assert(u.drop_last() =~= s.drop_last());
    } else {
        assert(u.drop_last() =~= s.drop_last().update(t, y));
        assert(u.last() == s.last());
        lemma_filter_len_drop(s.drop_last(), f, t, y);
    }
}

/// A filter keeps an entry exactly where some entry passes it.
pub proof fn lemma_filter_empty<A>(s: Seq<A>, f: spec_fn(A) -> bool)
    ensures
        s.filter(f).len() == 0 <==> forall|i: int| 0 <= i < s.len() ==> !f(#[trigger] s[i]),
    decreases s.len(),
{
    reveal(Seq::filter);
    if s.len() > 0 {
        let rest = s.drop_last();
        lemma_filter_empty(rest, f);
        assert(s.last() == s[s.len() - 1]);
        if s.filter(f).len() == 0 {
            assert forall|i: int| 0 <= i < s.len() implies !f(#[trigger] s[i]) by {
                if i < rest.len() {
                    assert(rest[i] == s[i]);
                }
            }
        } else if forall|i: int| 0 <= i < s.len() ==> !f(#[trigger] s[i]) {
            assert forall|i: int| 0 <= i < rest.len() implies !f(#[trigger] rest[i]) by {
                assert(rest[i] == s[i]);
            }
        }
    }
}

/// In a store with one open tier, a caller whose hold does not end before
/// `now` gets an item exactly where one is available. That takes one from
/// the available items. Where none is available the caller is told that
/// there is no inventory, and the store is unchanged.
pub proof fn lemma_caller_at_one_tier(db: NFTDatabaseView, c: Caller, now: i64)
    requires
        db.nfts.len() <= usize::MAX,
        one_open_tier(db, now),
        c.reserved_until >= now,
    ensures
        ({
            let (after, out) = reservation(db, c.seed, c.wallet, c.reserved_until, now);
            let stages = open_stages(db, c.wallet, now);
            let targets = claimed_positions(db, c.seed, stages, 1, now);
            &&& one_open_tier(after, now)
            &&& stages.len() == 1
            &&& available_count(db.nfts, now) > 0 ==> out is Claimed && targets.len() == 1
                && available_count(after.nfts, now) == available_count(db.nfts, now) - 1
            &&& available_count(db.nfts, now) == 0 ==> out is NoInventory && targets.len() == 0
                && after == db
        }),
{
    let tier = db.stages[0];
    let f = personal_pred(db.wallet_whitelist, c.wallet, now);
    let g = default_pred(now);
    assert(db.stages.filter(f) =~= Seq::<StageView>::empty() && db.stages.filter(g) =~= seq![tier])
        by {
        reveal_with_fuel(Seq::filter, 3);
        assert(db.stages.drop_last() =~= Seq::<StageView>::empty());
        assert(!f(tier));
        assert(g(tier));
    }
    let stages = open_stages(db, c.wallet, now);
    assert(stages =~= seq![tier]);
    let order = selection_order_spec(c.seed, db.nfts.len());
    let a = available_pred(now);
    lemma_one_caller(db, c, now);
    lemma_filter_empty(db.nfts, a);
    lemma_deciding_stage(db.nfts, order, stages, now, 1, 0);
    let (after, out) = reservation(db, c.seed, c.wallet, c.reserved_until, now);
    let targets = claimed_positions(db, c.seed, stages, 1, now);
    if available_count(db.nfts, now) > 0 {
        let i = choose|i: int| 0 <= i < db.nfts.len() && a(#[trigger] db.nfts[i]);
        law_claims_when_available(
            db,
            c.seed,
            c.wallet,
            stages,
            1,
            c.reserved_until,
            false,
            now,
            0,
            i as usize,
        );
        let t = targets[0];
        let item = db.nfts[t as int].claimed(c.wallet, c.reserved_until, false);
        assert forall|j: int| 0 <= j < db.nfts.len() implies after.nfts[j] == db.nfts.update(
            t as int,
            item,
        )[j] by {
            let ju = j as usize;
            if targets.contains(ju) {
                let w = choose|w: int| 0 <= w < targets.len() && targets[w] == ju;
                assert(w == 0);
            }
        }
        assert(after.nfts =~= db.nfts.update(t as int, item));
        lemma_filter_len_drop(db.nfts, a, t as int, item);
    } else {
        lemma_candidates_are_eligible(db.nfts, order, tier.predicate(), now);
        assert(targets.len() == 0) by {
            if targets.len() > 0 {
                assert(a(db.nfts[targets[0] as int]));
            }
        }
        assert(after.nfts =~= db.nfts);
    }
}

/// With one open tier and callers whose holds do not end before `now`, as
/// many callers get an item as there are items available, and no more: in
/// the order in which the store takes them, a caller gets an item exactly
/// where fewer callers came before it than items were available. Every
/// other caller is told that there is no inventory.
pub proof fn law_as_many_served_as_available(
    db: NFTDatabaseView,
    callers: Seq<Caller>,
    now: i64,
    k: int,
)
    requires
        db.nfts.len() <= usize::MAX,
        one_open_tier(db, now),
        holds_in_time(callers, now),
        0 <= k < callers.len(),
    ensures
        ({
            let c = callers[k];
            let out = reservation(
                store_after(db, callers, k, now),
                c.seed,
                c.wallet,
                c.reserved_until,
                now,
            ).1;
            let available = available_count(db.nfts, now);
            &&& k < available ==> out is Claimed
            &&& k >= available ==> out is NoInventory
        }),
{
    lemma_served(db, callers, now, k);
    lemma_callers(db, callers, k, now);
    lemma_caller_at_one_tier(store_after(db, callers, k, now), callers[k], now);
}

/// After the first `k` callers at one open tier, the items still available
/// are those that were available less one for each caller, down to none.
pub proof fn lemma_served(db: NFTDatabaseView, callers: Seq<Caller>, now: i64, k: int)
    requires
        db.nfts.len() <= usize::MAX,
        one_open_tier(db, now),
        holds_in_time(callers, now),
        0 <= k <= callers.len(),
    ensures
        ({
            let store = store_after(db, callers, k, now);
            let available = available_count(db.nfts, now);
            &&& one_open_tier(store, now)
            &&& store.nfts.len() == db.nfts.len()
            &&& available_count(store.nfts, now) == if k < available {
                available - k
            } else {
                0
            }
        }),
    decreases k,
{
    if k > 0 {
        lemma_served(db, callers, now, k - 1);
        lemma_callers(db, callers, k - 1, now);
        lemma_caller_at_one_tier(store_after(db, callers, k - 1, now), callers[k - 1], now);
        lemma_callers(db, callers, k, now);
    }
}


/// Every item that the claimant was told of lies at a position of the
/// store whose item is no longer available, under the identifier that the
/// first store has there.
pub open spec fn all_taken(
    db: NFTDatabaseView,
    store: NFTDatabaseView,
    claimed: Seq<MintReservationView>,
    now: i64,
) -> bool {
    forall|j: int|
        0 <= j < claimed.len() ==> exists|t: int|
            0 <= t < db.nfts.len() && db.nfts[t].nft_lite.id == (#[trigger] claimed[j]).nft_id
                && !store.nfts[t].available(now)
}

/// What holds of a mint run whose hold does not end before `now`, after
/// its first `k` allowances: the store has
/// the items of the first store at their positions and under their
/// identifiers; an item that is still available is as it was; at most one
/// item was claimed for each allowance; the claimed items are no longer
/// available; and no two of them share an identifier.
pub proof fn lemma_mint_run(
    db: NFTDatabaseView,
    stage: StageView,
    rows: Seq<OpenStageWalletView>,
    k: int,
    reserved_until: i64,
    now: i64,
)
    requires
        db.wf(),
        db.nfts.len() <= usize::MAX,
        reserved_until >= now,
        0 <= k <= rows.len(),
    ensures
        ({
            let (store, done) = mint_run(db, stage, rows, k, reserved_until, now);
            &&& store.nfts.len() == db.nfts.len()
            &&& forall|i: int|
                0 <= i < db.nfts.len() ==> (#[trigger] store.nfts[i]).nft_lite.id
                    == db.nfts[i].nft_lite.id
            &&& forall|i: int|
                0 <= i < db.nfts.len() && (#[trigger] store.nfts[i]).available(now)
                    ==> db.nfts[i].available(now)
            &&& done matches Some(claimed) ==> {
                &&& claimed.len() <= k
                &&& all_taken(db, store, claimed, now)
                &&& forall|a: int, b: int|
                    0 <= a < b < claimed.len() ==> (#[trigger] claimed[a]).nft_id != (
                    #[trigger] claimed[b]).nft_id
            }
        }),
    decreases k,
{
    if k > 0 {
        lemma_mint_run(db, stage, rows, k - 1, reserved_until, now);
        let (mid, done) = mint_run(db, stage, rows, k - 1, reserved_until, now);
        let row = rows[k - 1];
        let (store, after_done) = mint_run(db, stage, rows, k, reserved_until, now);
        if let Some(claimed) = done {
            if row.remaining() > 0 {
                let seed = wallet_seed_spec(row.wallet_address);
                reveal(mint_run_draw);
                lemma_allocation_items(
                    mid,
                    seed,
                    row.wallet_address,
                    seq![stage],
                    1,
                    reserved_until,
                    true,
                    now,
                );
                let targets = claimed_positions(mid, seed, seq![stage], 1, now);
                assert forall|i: int| 0 <= i < db.nfts.len() implies (
                #[trigger] store.nfts[i]).nft_lite.id == db.nfts[i].nft_lite.id && (
                store.nfts[i].available(now) ==> mid.nfts[i] == store.nfts[i]) && (
                !mid.nfts[i].available(now) ==> !store.nfts[i].available(now)) by {
                    let iu = i as usize;
                    if targets.contains(iu) {
                        let w = choose|w: int| 0 <= w < targets.len() && targets[w] == iu;
                        assert(mid.nfts[targets[w] as int].available(now));
                    }
                }
                if let Some(all) = after_done {
                    if targets.len() > 0 {
                        let t = targets[0];
                        assert(targets.contains(t));
                        assert(mid.nfts[t as int].available(now));
                        assert(!store.nfts[t as int].available(now));
                        let fresh = all[claimed.len() as int];
                        assert(fresh.nft_id == db.nfts[t as int].nft_lite.id);
                        assert forall|j: int| 0 <= j < all.len() implies exists|p: int|
                            0 <= p < db.nfts.len() && db.nfts[p].nft_lite.id == (
                            #[trigger] all[j]).nft_id && !store.nfts[p].available(now) by {
                            if j < claimed.len() {
                                assert(all[j] == claimed[j]);
                                let p = choose|p: int|
                                    0 <= p < db.nfts.len() && db.nfts[p].nft_lite.id
                                        == claimed[j].nft_id && !mid.nfts[p].available(now);
                                assert(!store.nfts[p].available(now));
                            } else {
                                assert(!store.nfts[t as int].available(now));
                            }
                        }
                        assert forall|a: int, b: int| 0 <= a < b < all.len() implies (
                        #[trigger] all[a]).nft_id != (#[trigger] all[b]).nft_id by {
                            if b < claimed.len() {
                                assert(all[a] == claimed[a] && all[b] == claimed[b]);
                            } else {
                                assert(all[a] == claimed[a]);
                                let p = choose|p: int|
                                    0 <= p < db.nfts.len() && db.nfts[p].nft_lite.id
                                        == claimed[a].nft_id && !mid.nfts[p].available(now);
                                if p < t {
                                    assert(db.nfts[p].nft_lite.id != db.nfts[t as int].nft_lite.id);
                                } else if t < p {
                                    assert(db.nfts[t as int].nft_lite.id != db.nfts[p].nft_lite.id);
                                }
                            }
                        }
                    } else {
                        assert(all == claimed);
                        assert forall|j: int| 0 <= j < all.len() implies exists|p: int|
                            0 <= p < db.nfts.len() && db.nfts[p].nft_lite.id == (
                            #[trigger] all[j]).nft_id && !store.nfts[p].available(now) by {
                            let p = choose|p: int|
                                0 <= p < db.nfts.len() && db.nfts[p].nft_lite.id == claimed[j].nft_id
                                    && !mid.nfts[p].available(now);
                            assert(!store.nfts[p].available(now));
                        }
                    }
                }
            }
        }
    }
}

/// A mint run whose hold does not end before `now` gives no item twice
/// and at most one item for each allowance: of the items claimed in the
/// run of a tier over a list of allowances, no two share an identifier,
/// and there are no more of them than allowances.
pub proof fn law_mint_run_gives_distinct_items(
    db: NFTDatabaseView,
    stage: StageView,
    rows: Seq<OpenStageWalletView>,
    reserved_until: i64,
    now: i64,
    a: int,
    b: int,
)
    requires
        db.wf(),
        db.nfts.len() <= usize::MAX,
        reserved_until >= now,
        mint_run(db, stage, rows, rows.len() as int, reserved_until, now).1 is Some,
        0 <= a < b < mint_run(db, stage, rows, rows.len() as int, reserved_until, now).1->Some_0.len(),
    ensures
        ({
            let claimed = mint_run(db, stage, rows, rows.len() as int, reserved_until, now).1->Some_0;
            &&& claimed.len() <= rows.len()
            &&& claimed[a].nft_id != claimed[b].nft_id
        }),
{
    lemma_mint_run(db, stage, rows, rows.len() as int, reserved_until, now);
}

} // verus!
