//! The engine over the store: the quota of a wallet, the tiers open to it,
//! the claim of an item through those tiers, and the tally of draws.

use vstd::prelude::*;
use vstd::string::*;
use crate::allocation::{
    claim, claim_all, claim_targets, lemma_targets_are_eligible, reservation_views, reservations_of,
};
use crate::models::{NftFull, NftFullView, Stage, StageView, WalletStageAllocationView};
use crate::requests::{
    ErrorResponse, Metadata, MintReservation, MintReservationView, NFTTallyStat, OpenStageWallet,
    OpenStageWalletView, Reservation, ReservationView,
};
use crate::selection::{selection_order, selection_order_spec, wallet_seed, wallet_seed_spec};
use crate::text::{clone_opt, opt_text, owned, str_eq, uuid_text, uuid_to_text};
use crate::{stage_views, NFTDatabase, NFTDatabaseView};

verus! {

/// Tells whether an item counts against the quota of `wallet`.
pub open spec fn active_pred(wallet: Seq<char>, now: i64) -> spec_fn(NftFullView) -> bool {
    |n: NftFullView| n.active_for(wallet, now)
}

/// How many items count against the quota of `wallet` at time `now`:
/// those it holds under a running reservation or in process, and those it
/// owns.
pub open spec fn active_count(nfts: Seq<NftFullView>, wallet: Seq<char>, now: i64) -> nat {
    nfts.filter(active_pred(wallet, now)).len()
}

/// How many items count against the quota of the wallet.
pub fn get_reservation_count(conn: &NFTDatabase, wallet_address: &str, now: i64) -> (r: usize)
    ensures
        r == active_count(conn@.nfts, wallet_address@, now),
{
    let ghost views = conn@.nfts;
    let ghost f = active_pred(wallet_address@, now);
    let mut count: usize = 0;
    let mut i: usize = 0;
    proof {
        reveal(Seq::filter);
        assert(views.take(0).filter(f) =~= Seq::<NftFullView>::empty());
    }
    while i < conn.nfts.len()
        invariant
            i <= conn.nfts.len(),
            views == conn@.nfts,
            f == active_pred(wallet_address@, now),
            count == views.take(i as int).filter(f).len(),
            count <= i,
        decreases conn.nfts.len() - i,
    {
        let hit = conn.nfts[i].is_active_for(wallet_address, now);
        proof {
            reveal(Seq::filter);
            assert(views.take(i as int + 1).drop_last() =~= views.take(i as int));
            assert(views.take(i as int + 1).last() == conn.nfts@[i as int]@);
        }
        if hit {
            count = count + 1;
        }
        i = i + 1;
    }
    proof {
        assert(views.take(i as int) =~= views);
    }
    count
}

/// The wallet is at or above its quota.
pub open spec fn quota_exceeded(
    db: NFTDatabaseView,
    wallet: Seq<char>,
    max_active: usize,
    now: i64,
) -> bool {
    active_count(db.nfts, wallet, now) >= max_active
}

/// The text of the refusal of a wallet that is at its quota.
pub open spec fn quota_message() -> Seq<char> {
    "Reservation limit exceeded"@
}

/// Refuses a wallet that holds `max_active` items or more.
pub fn check_quota(
    conn: &NFTDatabase,
    wallet_address: &str,
    max_active: usize,
    now: i64,
) -> (r: Result<(), (u16, ErrorResponse)>)
    ensures
        r is Err <==> quota_exceeded(conn@, wallet_address@, max_active, now),
        r matches Err(e) ==> e.0 == 403 && e.1.is(403, quota_message()),
{
    let count = get_reservation_count(conn, wallet_address, now);
    if count >= max_active {
        Err((403, ErrorResponse::new(403, "Reservation limit exceeded")))
    } else {
        Ok(())
    }
}

/// Some allowance of `wallet` in tier `stage` is not used up.
pub open spec fn has_grant(
    ww: Seq<WalletStageAllocationView>,
    wallet: Seq<char>,
    stage: u128,
) -> bool {
    exists|i: int| 0 <= i < ww.len() && (#[trigger] ww[i]).grants(wallet, stage)
}

/// Tells whether a tier is open and personal to `wallet`.
pub open spec fn personal_pred(
    ww: Seq<WalletStageAllocationView>,
    wallet: Seq<char>,
    now: i64) -> spec_fn(StageView,
) -> bool {
    |s: StageView| s.is_open(now) && has_grant(ww, wallet, s.id)
}

/// Tells whether a tier is open and a fallback for every wallet.
pub open spec fn default_pred(now: i64) -> spec_fn(StageView) -> bool {
    |s: StageView| s.is_open(now) && s.is_default
}

/// The tiers open to `wallet`, in priority order: the open tiers in which
/// it has an allowance that is not used up, in the order of the store; then
/// the open fallback tiers.
pub open spec fn open_stages(db: NFTDatabaseView, wallet: Seq<char>, now: i64) -> Seq<StageView> {
    db.stages.filter(personal_pred(db.wallet_whitelist, wallet, now)) + db.stages.filter(
        default_pred(now),
    )
}

/// Whether some allowance of the wallet in the tier is not used up.
fn wallet_has_grant(conn: &NFTDatabase, wallet: &str, stage: u128) -> (r: bool)
    ensures
        r == has_grant(conn@.wallet_whitelist, wallet@, stage),
{
    let ghost ww = conn@.wallet_whitelist;
    let mut i: usize = 0;
    while i < conn.wallet_whitelist.len()
        invariant
            i <= conn.wallet_whitelist.len(),
            ww == conn@.wallet_whitelist,
            forall|k: int| 0 <= k < i ==> !(#[trigger] ww[k]).grants(wallet@, stage),
        decreases conn.wallet_whitelist.len() - i,
    {
        if conn.wallet_whitelist[i].grants(wallet, stage) {
            proof {
                assert(ww[i as int].grants(wallet@, stage));
            }
            return true;
        }
        i = i + 1;
    }
    false
}

/// The tiers open to the wallet, in priority order.
pub fn get_open_stages_for_wallet(conn: &NFTDatabase, wallet: &str, now: i64) -> (r: Vec<Stage>)
    ensures
        stage_views(r@) == open_stages(conn@, wallet@, now),
{
    let ghost views = conn@.stages;
    let ghost f = personal_pred(conn@.wallet_whitelist, wallet@, now);
    let ghost g = default_pred(now);
    let mut out: Vec<Stage> = Vec::new();
    let mut i: usize = 0;
    proof {
        reveal(Seq::filter);
        assert(views.take(0).filter(f) =~= Seq::<StageView>::empty());
        assert(stage_views(out@) =~= views.take(0).filter(f));
    }
    while i < conn.stages.len()
        invariant
            i <= conn.stages.len(),
            views == conn@.stages,
            f == personal_pred(conn@.wallet_whitelist, wallet@, now),
            stage_views(out@) == views.take(i as int).filter(f),
        decreases conn.stages.len() - i,
    {
        let s = &conn.stages[i];
        let hit = s.is_open(now) && wallet_has_grant(conn, wallet, s.id);
        proof {
            reveal(Seq::filter);
            assert(views.take(i as int + 1).drop_last() =~= views.take(i as int));
            assert(views.take(i as int + 1).last() == s@);
            assert(f(s@) == hit);
        }
        if hit {
            let ghost prior = out@;
            out.push(s.clone());
            proof {
                assert(stage_views(out@) =~= stage_views(prior).push(s@));
            }
        }
        i = i + 1;
    }
    proof {
        assert(views.take(i as int) =~= views);
        assert(views.take(0).filter(g) =~= Seq::<StageView>::empty()) by {
            reveal(Seq::filter);
        }
    }
    let ghost personal = stage_views(out@);
    let mut j: usize = 0;
    while j < conn.stages.len()
        invariant
            j <= conn.stages.len(),
            views == conn@.stages,
            g == default_pred(now),
            personal == views.filter(f),
            stage_views(out@) == personal + views.take(j as int).filter(g),
        decreases conn.stages.len() - j,
    {
        let s = &conn.stages[j];
        let hit = s.is_open(now) && s.is_default;
        proof {
            reveal(Seq::filter);
            assert(views.take(j as int + 1).drop_last() =~= views.take(j as int));
            assert(views.take(j as int + 1).last() == s@);
            assert(g(s@) == hit);
        }
        if hit {
            let ghost prior = out@;
            out.push(s.clone());
            proof {
                assert(stage_views(out@) =~= stage_views(prior).push(s@));
                assert(stage_views(out@) =~= personal + views.take(j as int + 1).filter(g));
            }
        }
        j = j + 1;
    }
    proof {
        assert(views.take(j as int) =~= views);
    }
    out
}


/// The allowance is that of `wallet` in tier `stage`.
pub open spec fn is_row_of(a: WalletStageAllocationView, wallet: Seq<char>, stage: u128) -> bool {
    a.wallet_address == wallet && a.stage == stage
}

/// Tells whether an allowance is that of `wallet` in tier `stage`.
pub open spec fn row_pred(
    wallet: Seq<char>,
    stage: u128) -> spec_fn(WalletStageAllocationView,
) -> bool {
    |a: WalletStageAllocationView| is_row_of(a, wallet, stage)
}

/// How many allowances `wallet` has in tier `stage`.
pub open spec fn rows_of(
    ww: Seq<WalletStageAllocationView>,
    wallet: Seq<char>,
    stage: u128,
) -> nat {
    ww.filter(row_pred(wallet, stage)).len()
}

/// A draw of `amount` items fits the counter of every allowance of
/// `wallet` in tier `stage`.
pub open spec fn can_record(
    ww: Seq<WalletStageAllocationView>,
    wallet: Seq<char>,
    stage: u128,
    amount: int,
) -> bool {
    forall|i: int|
        0 <= i < ww.len() && is_row_of(#[trigger] ww[i], wallet, stage) ==> ww[i].reserved_count
            + amount <= i32::MAX
}

/// The allowances after a draw of `amount` items by `wallet` from tier
/// `stage`: the counter of reserved items grows by `amount` in each
/// allowance of the wallet in the tier. Where that does not fit a counter,
/// nothing changes.
pub open spec fn draw_recorded(
    ww: Seq<WalletStageAllocationView>,
    wallet: Seq<char>,
    stage: u128,
    amount: nat,
) -> Seq<WalletStageAllocationView> {
    if can_record(ww, wallet, stage, amount as int) {
        Seq::new(
            ww.len(),
            |i: int|
                if is_row_of(ww[i], wallet, stage) {
                    WalletStageAllocationView {
                        reserved_count: (ww[i].reserved_count + amount) as i32,
                        ..ww[i]
                    }
                } else {
                    ww[i]
                },
        )
    } else {
        ww
    }
}

/// The text of the failure of a counter that is full.
pub open spec fn out_of_range_message() -> Seq<char> {
    "integer out of range"@
}

/// Records that the wallet drew `amount` items from the tier, and returns
/// the number of allowances that were updated. Fails, and changes nothing,
/// where the draw does not fit a counter.
pub fn increase_stage_reservation(
    conn: &mut NFTDatabase,
    stage_id: u128,
    wallet_address: &str,
    amount: usize,
) -> (r: Result<u64, (u16, ErrorResponse)>)
    ensures
        final(conn)@.nfts == old(conn)@.nfts,
        final(conn)@.stages == old(conn)@.stages,
        final(conn)@.wallet_whitelist == draw_recorded(
            old(conn)@.wallet_whitelist,
            wallet_address@,
            stage_id,
            amount as nat,
        ),
        old(conn)@.wf() ==> final(conn)@.wf(),
        r is Ok <==> can_record(old(conn)@.wallet_whitelist, wallet_address@, stage_id, amount as int),
        r matches Ok(n) ==> n == rows_of(old(conn)@.wallet_whitelist, wallet_address@, stage_id),
        r matches Err(e) ==> e.0 == 500 && e.1.is(500, out_of_range_message()),
{
    let ghost ww = conn@.wallet_whitelist;
    let ghost f = row_pred(wallet_address@, stage_id);
    let n: usize = conn.wallet_whitelist.len();
    let mut rows: u64 = 0;
    let mut i: usize = 0;
    proof {
        reveal(Seq::filter);
        assert(ww.take(0).filter(f) =~= Seq::<WalletStageAllocationView>::empty());
    }
    while i < n
        invariant
            i <= n,
            n == conn.wallet_whitelist.len(),
            ww == conn@.wallet_whitelist,
            f == row_pred(wallet_address@, stage_id),
            rows == ww.take(i as int).filter(f).len(),
            rows <= i,
            forall|k: int|
                0 <= k < i && is_row_of(#[trigger] ww[k], wallet_address@, stage_id)
                    ==> ww[k].reserved_count + amount <= i32::MAX,
        decreases n - i,
    {
        let row = &conn.wallet_whitelist[i];
        let hit = str_eq(row.wallet_address.as_str(), wallet_address) && row.stage == stage_id;
        proof {
            reveal(Seq::filter);
            assert(ww.take(i as int + 1).drop_last() =~= ww.take(i as int));
            assert(ww.take(i as int + 1).last() == row@);
            assert(f(row@) == hit);
        }
        if hit {
            if (row.reserved_count as i128) + (amount as i128) > (i32::MAX as i128) {
                proof {
                    assert(is_row_of(ww[i as int], wallet_address@, stage_id));
                }
                return Err((500, ErrorResponse::new(500, "integer out of range")));
            }
            rows = rows + 1;
        }
        i = i + 1;
    }
    proof {
        assert(ww.take(i as int) =~= ww);
    }
    let mut j: usize = 0;
    while j < n
        invariant
            j <= n,
            n == conn.wallet_whitelist.len(),
            ww.len() == n,
            conn.nfts == old(conn).nfts,
            conn.stages == old(conn).stages,
            can_record(ww, wallet_address@, stage_id, amount as int),
            forall|k: int| j <= k < n ==> (#[trigger] conn.wallet_whitelist@[k])@ == ww[k],
            forall|k: int|
                0 <= k < j ==> (#[trigger] conn.wallet_whitelist@[k])@ == draw_recorded(
                    ww,
                    wallet_address@,
                    stage_id,
                    amount as nat,
                )[k],
        decreases n - j,
    {
        let row = &mut conn.wallet_whitelist[j];
        if str_eq(row.wallet_address.as_str(), wallet_address) && row.stage == stage_id {
            proof {
                assert(is_row_of(ww[j as int], wallet_address@, stage_id));
            }
            row.reserved_count = ((row.reserved_count as i128) + (amount as i128)) as i32;
        }
        j = j + 1;
    }
    proof {
        assert(conn@.wallet_whitelist =~= draw_recorded(
            ww,
            wallet_address@,
            stage_id,
            amount as nat,
        ));
        if old(conn)@.wf() {
            lemma_draw_recorded_wf(old(conn)@, wallet_address@, stage_id, amount as nat);
        }
    }
    Ok(rows)
}

/// How an attempt to claim items ended.
pub enum AllocationView {
    /// the tier at position `stage` of the list gave these items
    Claimed { stage: int, claims: Seq<MintReservationView> },
    /// no tier of the list had an item to give
    NoInventory,
    /// the tier at position `stage` names a trait without a value
    Misconfigured { stage: int },
    /// no tier is open to the wallet
    NoStagesOpen,
    /// the wallet is at its quota
    QuotaExceeded,
}

/// A claim of `count` items through tier `s` takes at least one item.
pub open spec fn stage_yields(
    nfts: Seq<NftFullView>,
    order: Seq<usize>,
    s: StageView,
    now: i64,
    count: nat,
) -> bool {
    claim_targets(nfts, order, s.predicate(), now, count).len() > 0
}

/// The position, at or after `from`, of the first tier that decides the
/// attempt: one that is misconfigured or that yields an item. The length
/// of the list where there is none.
pub open spec fn deciding_stage(
    nfts: Seq<NftFullView>,
    order: Seq<usize>,
    stages: Seq<StageView>,
    now: i64,
    count: nat,
    from: int,
) -> int
    decreases stages.len() - from,
{
    if from < 0 || from >= stages.len() {
        stages.len() as int
    } else if stages[from].misconfigured() || stage_yields(nfts, order, stages[from], now, count) {
        from
    } else {
        deciding_stage(nfts, order, stages, now, count, from + 1)
    }
}

/// The deciding tier lies at or after `from`; it is misconfigured or yields
/// an item; and every tier between `from` and it is well configured and
/// yields nothing.
pub proof fn lemma_deciding_stage(
    nfts: Seq<NftFullView>,
    order: Seq<usize>,
    stages: Seq<StageView>,
    now: i64,
    count: nat,
    from: int,
)
    requires
        0 <= from <= stages.len(),
    ensures
        ({
            let k = deciding_stage(nfts, order, stages, now, count, from);
            &&& from <= k <= stages.len()
            &&& k < stages.len() ==> stages[k].misconfigured() || stage_yields(
                nfts,
                order,
                stages[k],
                now,
                count,
            )
            &&& forall|j: int|
                from <= j < k ==> !(#[trigger] stages[j]).misconfigured() && !stage_yields(
                    nfts,
                    order,
                    stages[j],
                    now,
                    count,
                )
        }),
    decreases stages.len() - from,
{
    if from < stages.len() && !(stages[from].misconfigured() || stage_yields(
        nfts,
        order,
        stages[from],
        now,
        count,
    )) {
        lemma_deciding_stage(nfts, order, stages, now, count, from + 1);
    }
}

/// The store after, and the outcome of, an attempt of `wallet` to claim
/// `count` items through `stages`, walking the items in the order that
/// `seed` fixes. The tiers are tried in their order. The first that yields
/// an item gives up to `count` items, which are marked as reserved to the
/// wallet until `reserved_until`, and the draw is recorded in the wallet's
/// allowance for that tier. A misconfigured tier ends the attempt; so does
/// the end of the list. In both cases the store is unchanged.
pub open spec fn allocation(
    db: NFTDatabaseView,
    seed: i32,
    wallet: Seq<char>,
    stages: Seq<StageView>,
    count: nat,
    reserved_until: i64,
    in_mint_run: bool,
    now: i64,
) -> (NFTDatabaseView, AllocationView) {
    let order = selection_order_spec(seed, db.nfts.len());
    let k = deciding_stage(db.nfts, order, stages, now, count, 0);
    if k >= stages.len() {
        (db, AllocationView::NoInventory)
    } else if stages[k].misconfigured() {
        (db, AllocationView::Misconfigured { stage: k })
    } else {
        let targets = claim_targets(db.nfts, order, stages[k].predicate(), now, count);
        (
            NFTDatabaseView {
                nfts: claim_all(db.nfts, targets, wallet, reserved_until, in_mint_run),
                stages: db.stages,
                wallet_whitelist: draw_recorded(
                    db.wallet_whitelist,
                    wallet,
                    stages[k].id,
                    targets.len(),
                ),
            },
            AllocationView::Claimed { stage: k, claims: reservations_of(db.nfts, targets, wallet) },
        )
    }
}

/// The positions of the items that the attempt claims: those that the
/// deciding tier yields, and none where no tier yields an item.
pub open spec fn claimed_positions(
    db: NFTDatabaseView,
    seed: i32,
    stages: Seq<StageView>,
    count: nat,
    now: i64,
) -> Seq<usize> {
    let order = selection_order_spec(seed, db.nfts.len());
    let k = deciding_stage(db.nfts, order, stages, now, count, 0);
    if k >= stages.len() || stages[k].misconfigured() {
        Seq::empty()
    } else {
        claim_targets(db.nfts, order, stages[k].predicate(), now, count)
    }
}

/// Recording a draw keeps the invariant of the store.
pub proof fn lemma_draw_recorded_wf(db: NFTDatabaseView, wallet: Seq<char>, stage: u128, amount: nat)
    requires
        db.wf(),
    ensures
        (NFTDatabaseView {
            wallet_whitelist: draw_recorded(db.wallet_whitelist, wallet, stage, amount),
            ..db
        }).wf(),
{
    let ww = draw_recorded(db.wallet_whitelist, wallet, stage, amount);
    assert forall|i: int, j: int| 0 <= i < j < ww.len() implies !((#[trigger] ww[i]).wallet_address
        == (#[trigger] ww[j]).wallet_address && ww[i].stage == ww[j].stage) by {
        assert(!(db.wallet_whitelist[i].wallet_address == db.wallet_whitelist[j].wallet_address
            && db.wallet_whitelist[i].stage == db.wallet_whitelist[j].stage));
    }
}

/// An attempt to claim items keeps the invariant of the store.
pub proof fn lemma_allocation_wf(
    db: NFTDatabaseView,
    seed: i32,
    wallet: Seq<char>,
    stages: Seq<StageView>,
    count: nat,
    reserved_until: i64,
    in_mint_run: bool,
    now: i64,
)
    requires
        db.wf(),
        db.nfts.len() <= usize::MAX,
    ensures
        allocation(db, seed, wallet, stages, count, reserved_until, in_mint_run, now).0.wf(),
{
    let order = selection_order_spec(seed, db.nfts.len());
    let k = deciding_stage(db.nfts, order, stages, now, count, 0);
    lemma_deciding_stage(db.nfts, order, stages, now, count, 0);
    if k < stages.len() && !stages[k].misconfigured() {
        let targets = claim_targets(db.nfts, order, stages[k].predicate(), now, count);
        lemma_targets_are_eligible(db.nfts, order, stages[k].predicate(), now, count);
        let nfts = claim_all(db.nfts, targets, wallet, reserved_until, in_mint_run);
        let mid = NFTDatabaseView { nfts, ..db };
        assert forall|i: int| 0 <= i < nfts.len() implies (#[trigger] nfts[i]).wf() by {
            assert(db.nfts[i].wf());
            let iu = i as usize;
            if targets.contains(iu) {
                let w = choose|w: int| 0 <= w < targets.len() && targets[w] == iu;
                assert(!db.nfts[targets[w] as int].nft_lite.assigned);
            }
        }
        assert forall|i: int, j: int| 0 <= i < j < nfts.len() implies (#[trigger] nfts[i]).nft_lite.id
            != (#[trigger] nfts[j]).nft_lite.id by {
            assert(db.nfts[i].nft_lite.id != db.nfts[j].nft_lite.id);
        }
        assert(mid.wf());
        lemma_draw_recorded_wf(mid, wallet, stages[k].id, targets.len());
    }
}

/// The text of the failure of an attempt that found no item.
pub open spec fn no_inventory_message() -> Seq<char> {
    "No NFTs available for reservation at this time"@
}

/// The text of the failure of an attempt of a wallet to which no tier is
/// open.
pub open spec fn no_stages_message() -> Seq<char> {
    "No stages are open for your wallet at this time"@
}

/// The text of the failure of an attempt that met a misconfigured tier.
pub open spec fn misconfigured_message(code: Seq<char>) -> Seq<char> {
    "Stage: "@ + code + " is misconfigured"@
}

/// The status and the body that report a failed attempt.
pub open spec fn failure_is(
    e: (u16, ErrorResponse),
    out: AllocationView,
    stages: Seq<StageView>,
) -> bool {
    match out {
        AllocationView::Claimed { .. } => false,
        AllocationView::NoInventory => e.0 == 444 && e.1.is(444, no_inventory_message()),
        AllocationView::Misconfigured { stage } => e.0 == 500 && e.1.is(
            500,
            misconfigured_message(stages[stage].code),
        ),
        AllocationView::NoStagesOpen => e.0 == 444 && e.1.is(444, no_stages_message()),
        AllocationView::QuotaExceeded => e.0 == 403 && e.1.is(403, quota_message()),
    }
}

/// The result reports the outcome `out`.
pub open spec fn allocation_result_is(
    r: Result<Vec<MintReservation>, (u16, ErrorResponse)>,
    out: AllocationView,
    stages: Seq<StageView>,
) -> bool {
    match r {
        Ok(v) => out matches AllocationView::Claimed { claims, .. } && reservation_views(v@)
            == claims,
        Err(e) => failure_is(e, out, stages),
    }
}

/// The failure that reports a misconfigured tier.
fn misconfigured(stage: &Stage) -> (e: (u16, ErrorResponse))
    ensures
        e.0 == 500,
        e.1.is(500, misconfigured_message(stage@.code)),
{
    let mut message = String::from_str("Stage: ");
    message.append(stage.code.as_str());
    message.append(" is misconfigured");
    (500, ErrorResponse { code: 500, message })
}

/// Claims up to `count` items for the wallet through the given tiers,
/// walking the items in the order that `seed` fixes.
pub fn allocate_with_seed(
    conn: &mut NFTDatabase,
    seed: i32,
    wallet_address: &str,
    stages: &Vec<Stage>,
    count: usize,
    reserved_until: i64,
    is_mint_batch: bool,
    now: i64,
) -> (r: Result<Vec<MintReservation>, (u16, ErrorResponse)>)
    ensures
        ({
            let (db, out) = allocation(
                old(conn)@,
                seed,
                wallet_address@,
                stage_views(stages@),
                count as nat,
                reserved_until,
                is_mint_batch,
                now,
            );
            final(conn)@ == db && allocation_result_is(r, out, stage_views(stages@))
        }),
        old(conn)@.wf() ==> final(conn)@.wf(),
{
    let ghost before = conn@;
    let ghost tiers = stage_views(stages@);
    let order = selection_order(seed, conn.nfts.len());
    let mut k: usize = 0;
    while k < stages.len()
        invariant
            k <= stages.len(),
            tiers == stage_views(stages@),
            conn@ == before,
            before == old(conn)@,
            before.nfts.len() <= usize::MAX,
            order@ == selection_order_spec(seed, before.nfts.len()),
            deciding_stage(before.nfts, order@, tiers, now, count as nat, 0) == deciding_stage(
                before.nfts,
                order@,
                tiers,
                now,
                count as nat,
                k as int,
            ),
        decreases stages.len() - k,
    {
        let stage = &stages[k];
        proof {
            assert(tiers[k as int] == stage@);
        }
        match stage.predicate() {
            None => {
                return Err(misconfigured(stage));
            },
            Some(p) => {
                let claims = claim(
                    &mut conn.nfts,
                    &order,
                    &p,
                    wallet_address,
                    reserved_until,
                    is_mint_batch,
                    now,
                    count,
                );
                let ghost targets = claim_targets(before.nfts, order@, p@, now, count as nat);
                proof {
                    assert(reservation_views(claims@).len() == claims@.len());
                    assert(reservations_of(before.nfts, targets, wallet_address@).len()
                        == targets.len());
                }
                if claims.len() > 0 {
                    let _ = increase_stage_reservation(
                        conn,
                        stage.id,
                        wallet_address,
                        claims.len(),
                    );
                    proof {
                        assert(conn@.stages == before.stages);
                        if before.wf() {
                            lemma_allocation_wf(
                                before,
                                seed,
                                wallet_address@,
                                tiers,
                                count as nat,
                                reserved_until,
                                is_mint_batch,
                                now,
                            );
                        }
                    }
                    return Ok(claims);
                }
                proof {
                    assert(targets.len() == 0);
                    assert(claim_all(
                        before.nfts,
                        targets,
                        wallet_address@,
                        reserved_until,
                        is_mint_batch,
                    ) =~= before.nfts);
                    assert(conn@.stages == before.stages);
                    assert(conn@.wallet_whitelist == before.wallet_whitelist);
                }
            },
        }
        k = k + 1;
    }
    Err((444, ErrorResponse::new(444, "No NFTs available for reservation at this time")))
}

/// Claims up to `count` items for the wallet through the given tiers. The
/// items are walked in the order that the wallet's seed fixes, so that a
/// wallet sees the same order on every attempt.
pub fn allocate(
    conn: &mut NFTDatabase,
    wallet_address: &str,
    stages: &Vec<Stage>,
    count: usize,
    reserved_until: i64,
    is_mint_batch: bool,
    now: i64,
) -> (r: Result<Vec<MintReservation>, (u16, ErrorResponse)>)
    ensures
        ({
            let (db, out) = allocation(
                old(conn)@,
                wallet_seed_spec(wallet_address@),
                wallet_address@,
                stage_views(stages@),
                count as nat,
                reserved_until,
                is_mint_batch,
                now,
            );
            final(conn)@ == db && allocation_result_is(r, out, stage_views(stages@))
        }),
        old(conn)@.wf() ==> final(conn)@.wf(),
{
    let seed = wallet_seed(wallet_address);
    allocate_with_seed(
        conn,
        seed,
        wallet_address,
        stages,
        count,
        reserved_until,
        is_mint_batch,
        now,
    )
}


/// The store after, and the outcome of, an attempt of `wallet` to reserve
/// one item: a claim of one item through the tiers open to the wallet, in
/// their priority order. Where no tier is open the attempt ends at once.
pub open spec fn reservation(
    db: NFTDatabaseView,
    seed: i32,
    wallet: Seq<char>,
    reserved_until: i64,
    now: i64,
) -> (NFTDatabaseView, AllocationView) {
    let stages = open_stages(db, wallet, now);
    if stages.len() == 0 {
        (db, AllocationView::NoStagesOpen)
    } else {
        allocation(db, seed, wallet, stages, 1, reserved_until, false, now)
    }
}

/// The store after, and the outcome of, an attempt of `wallet` to reserve
/// one item under a quota of `max_reservations` items: a wallet at its
/// quota is refused and the store is unchanged.
pub open spec fn guarded_reservation(
    db: NFTDatabaseView,
    seed: i32,
    wallet: Seq<char>,
    reserved_until: i64,
    max_reservations: usize,
    now: i64,
) -> (NFTDatabaseView, AllocationView) {
    if quota_exceeded(db, wallet, max_reservations, now) {
        (db, AllocationView::QuotaExceeded)
    } else {
        reservation(db, seed, wallet, reserved_until, now)
    }
}

/// The result reports the outcome `out` of an attempt to reserve one item.
pub open spec fn reservation_result_is(
    r: Result<(u128, Metadata), (u16, ErrorResponse)>,
    out: AllocationView,
    stages: Seq<StageView>,
) -> bool {
    match r {
        Ok(pair) => out matches AllocationView::Claimed { claims, .. } && claims.len() == 1
            && pair.0 == claims[0].nft_id && pair.1@ == claims[0].meta_data,
        Err(e) => failure_is(e, out, stages),
    }
}

/// Reserves one item for the wallet through the tiers open to it, walking
/// the items in the order that `seed` fixes, and returns the identifier and
/// the metadata of the item.
pub fn reserve_with_seed(
    conn: &mut NFTDatabase,
    seed: i32,
    wallet_address: &str,
    reserved_until: i64,
    now: i64,
) -> (r: Result<(u128, Metadata), (u16, ErrorResponse)>)
    ensures
        ({
            let (db, out) = reservation(old(conn)@, seed, wallet_address@, reserved_until, now);
            final(conn)@ == db && reservation_result_is(
                r,
                out,
                open_stages(old(conn)@, wallet_address@, now),
            )
        }),
        old(conn)@.wf() ==> final(conn)@.wf(),
{
    let stages = get_open_stages_for_wallet(conn, wallet_address, now);
    proof {
        assert(stage_views(stages@).len() == stages@.len());
    }
    if stages.len() == 0 {
        return Err(
            (444, ErrorResponse::new(444, "No stages are open for your wallet at this time")),
        );
    }
    let ghost before = conn@;
    let ghost tiers = stage_views(stages@);
    let ghost order = selection_order_spec(seed, before.nfts.len());
    match allocate_with_seed(conn, seed, wallet_address, &stages, 1, reserved_until, false, now) {
        Ok(mut claims) => {
            proof {
                let k = deciding_stage(before.nfts, order, tiers, now, 1, 0);
                lemma_deciding_stage(before.nfts, order, tiers, now, 1, 0);
                lemma_targets_are_eligible(before.nfts, order, tiers[k].predicate(), now, 1);
                assert(reservation_views(claims@).len() == claims@.len());
                assert(reservation_views(claims@)[0] == claims@[0]@);
            }
            let c = claims.remove(0);
            Ok((c.nft_id, c.meta_data))
        },
        Err(e) => Err(e),
    }
}

/// Reserves one item for the wallet through the tiers open to it, and
/// returns the identifier and the metadata of the item.
pub fn get_and_reserve_available_nft(
    conn: &mut NFTDatabase,
    wallet_address: &str,
    reserved_until: i64,
    now: i64,
) -> (r: Result<(u128, Metadata), (u16, ErrorResponse)>)
    ensures
        ({
            let (db, out) = reservation(
                old(conn)@,
                wallet_seed_spec(wallet_address@),
                wallet_address@,
                reserved_until,
                now,
            );
            final(conn)@ == db && reservation_result_is(
                r,
                out,
                open_stages(old(conn)@, wallet_address@, now),
            )
        }),
        old(conn)@.wf() ==> final(conn)@.wf(),
{
    let seed = wallet_seed(wallet_address);
    reserve_with_seed(conn, seed, wallet_address, reserved_until, now)
}

/// The status and the result report the outcome `out` of an attempt to
/// reserve one item: status 201 with the item, or the status of the
/// failure with its body.
pub open spec fn reservation_response_is(
    r: (u16, Result<(u128, Metadata), ErrorResponse>),
    out: AllocationView,
    stages: Seq<StageView>,
) -> bool {
    match r.1 {
        Ok(pair) => {
            &&& r.0 == 201
            &&& out matches AllocationView::Claimed { claims, .. } && claims.len() == 1
                && pair.0 == claims[0].nft_id && pair.1@ == claims[0].meta_data
        },
        Err(body) => failure_is((r.0, body), out, stages),
    }
}

/// Reserves one item for the wallet, unless the wallet counts
/// `max_reservations` active items or more. A wallet at its quota is
/// refused with status 403 and nothing is claimed.
pub fn do_reservation(
    c: &mut NFTDatabase,
    wallet_address: &str,
    reserved_until: i64,
    max_reservations: usize,
    now: i64,
) -> (r: (u16, Result<(u128, Metadata), ErrorResponse>))
    ensures
        ({
            let (db, out) = guarded_reservation(
                old(c)@,
                wallet_seed_spec(wallet_address@),
                wallet_address@,
                reserved_until,
                max_reservations,
                now,
            );
            final(c)@ == db && reservation_response_is(
                r,
                out,
                open_stages(old(c)@, wallet_address@, now),
            )
        }),
        old(c)@.wf() ==> final(c)@.wf(),
{
    match check_quota(c, wallet_address, max_reservations, now) {
        Err(e) => (e.0, Err(e.1)),
        Ok(()) => match get_and_reserve_available_nft(c, wallet_address, reserved_until, now) {
            Ok(pair) => (201, Ok(pair)),
            Err(e) => (e.0, Err(e.1)),
        },
    }
}


/// What a wallet is told of one of its holds. Where the item is reserved
/// to another wallet, and counts for this one only as its property, the
/// reservation is not shown.
pub open spec fn reservation_shown(n: NftFullView, wallet: Seq<char>) -> ReservationView {
    let own = n.reserved_to_wallet_address == Some(wallet);
    ReservationView {
        wallet_address: wallet,
        nft_id: n.nft_lite.id,
        reserved: own && n.nft_lite.reserved,
        reserved_until: if own {
            n.nft_lite.reserved_until
        } else {
            None
        },
        assigned: n.nft_lite.assigned,
        assigned_on: n.assigned_on,
        has_submit_error: n.nft_lite.has_submit_error,
        in_process: n.nft_lite.in_process,
        tx_hash: n.nft_lite.txhash,
        tx_error: n.tx_error,
        tx_retry_count: n.tx_retry_count,
        token_id: n.token_id,
    }
}

/// The holds of a wallet at time `now`: one entry for each item that
/// counts against its quota, in the order of the store.
pub open spec fn reservations_for(
    nfts: Seq<NftFullView>,
    wallet: Seq<char>,
    now: i64,
) -> Seq<ReservationView> {
    nfts.filter(active_pred(wallet, now)).map_values(|n: NftFullView| reservation_shown(n, wallet))
}

/// The views of a list of holds, in order.
pub open spec fn holds_views(v: Seq<Reservation>) -> Seq<ReservationView> {
    Seq::new(v.len(), |i: int| v[i]@)
}

/// The holds of the wallet at time `now`.
pub fn get_reservations_for_wallet(conn: &NFTDatabase, wallet_address: &str, now: i64) -> (r: (
    u16,
    Result<Vec<Reservation>, ErrorResponse>,
))
    ensures
        r.0 == 200,
        r.1 matches Ok(v) && holds_views(v@) == reservations_for(conn@.nfts, wallet_address@, now),
{
    let ghost views = conn@.nfts;
    let ghost f = active_pred(wallet_address@, now);
    let ghost m = |n: NftFullView| reservation_shown(n, wallet_address@);
    let mut out: Vec<Reservation> = Vec::new();
    let mut i: usize = 0;
    proof {
        reveal(Seq::filter);
        assert(views.take(0).filter(f) =~= Seq::<NftFullView>::empty());
        assert(holds_views(out@) =~= views.take(0).filter(f).map_values(m));
    }
    while i < conn.nfts.len()
        invariant
            i <= conn.nfts.len(),
            views == conn@.nfts,
            f == active_pred(wallet_address@, now),
            m == (|n: NftFullView| reservation_shown(n, wallet_address@)),
            holds_views(out@) == views.take(i as int).filter(f).map_values(m),
        decreases conn.nfts.len() - i,
    {
        let n = &conn.nfts[i];
        let hit = n.is_active_for(wallet_address, now);
        proof {
            reveal(Seq::filter);
            assert(views.take(i as int + 1).drop_last() =~= views.take(i as int));
            assert(views.take(i as int + 1).last() == n@);
        }
        if hit {
            let own = crate::text::opt_is(&n.reserved_to_wallet_address, wallet_address);
            let ghost prior = out@;
            out.push(
                Reservation {
                    wallet_address: owned(wallet_address),
                    nft_id: n.nft_lite.id,
                    reserved: own && n.nft_lite.reserved,
                    reserved_until: if own {
                        n.nft_lite.reserved_until
                    } else {
                        None
                    },
                    assigned: n.nft_lite.assigned,
                    assigned_on: n.assigned_on,
                    has_submit_error: n.nft_lite.has_submit_error,
                    in_process: n.nft_lite.in_process,
                    tx_hash: clone_opt(&n.nft_lite.txhash),
                    tx_error: clone_opt(&n.tx_error),
                    tx_retry_count: n.tx_retry_count,
                    token_id: clone_opt(&n.token_id),
                },
            );
            proof {
                let kept = views.take(i as int).filter(f);
                assert(holds_views(out@) =~= holds_views(prior).push(m(n@)));
                assert(kept.push(n@).map_values(m) =~= kept.map_values(m).push(m(n@)));
            }
        }
        i = i + 1;
    }
    proof {
        assert(views.take(i as int) =~= views);
    }
    (200, Ok(out))
}

/// The first tier with the code `code`, if there is one.
pub fn get_stage(conn: &NFTDatabase, code: &str) -> (r: Option<Stage>)
    ensures
        r is Some <==> exists|i: int|
            0 <= i < conn@.stages.len() && (#[trigger] conn@.stages[i]).code == code@,
        r matches Some(s) ==> exists|i: int|
            0 <= i < conn@.stages.len() && conn@.stages[i] == s@ && s@.code == code@ && forall|j: int|
                0 <= j < i ==> (#[trigger] conn@.stages[j]).code != code@,
{
    let ghost views = conn@.stages;
    let mut i: usize = 0;
    while i < conn.stages.len()
        invariant
            i <= conn.stages.len(),
            views == conn@.stages,
            forall|j: int| 0 <= j < i ==> (#[trigger] views[j]).code != code@,
        decreases conn.stages.len() - i,
    {
        if str_eq(conn.stages[i].code.as_str(), code) {
            proof {
                assert(views[i as int] == conn.stages@[i as int]@);
            }
            return Some(conn.stages[i].clone());
        }
        i = i + 1;
    }
    None
}

/// The earliest opening among the first `n` tiers that are fallbacks, if
/// any of them is one.
pub open spec fn earliest_default(stages: Seq<StageView>, n: int) -> Option<i64>
    decreases n,
{
    if n <= 0 || n > stages.len() {
        None
    } else {
        let rest = earliest_default(stages, n - 1);
        let s = stages[n - 1];
        if !s.is_default {
            rest
        } else {
            match rest {
                Some(t) if t <= s.stage_open => Some(t),
                _ => Some(s.stage_open),
            }
        }
    }
}

/// The text of the failure to find a fallback tier.
pub open spec fn no_open_stage_message() -> Seq<char> {
    "No open stages are available"@
}

/// When the fallback tier opens: the earliest opening among the fallback
/// tiers. Fails with status 404 where the store has no fallback tier.
pub fn get_open_stage(conn: &NFTDatabase) -> (r: Result<i64, (u16, ErrorResponse)>)
    ensures
        match earliest_default(conn@.stages, conn@.stages.len() as int) {
            Some(t) => r == Ok::<i64, (u16, ErrorResponse)>(t),
            None => (r matches Err(e) && e.0 == 404 && e.1.is(404, no_open_stage_message())),
        },
{
    let ghost views = conn@.stages;
    let mut best: Option<i64> = None;
    let mut i: usize = 0;
    while i < conn.stages.len()
        invariant
            i <= conn.stages.len(),
            views == conn@.stages,
            best == earliest_default(views, i as int),
        decreases conn.stages.len() - i,
    {
        let s = &conn.stages[i];
        proof {
            assert(views[i as int] == s@);
        }
        if s.is_default {
            best = match best {
                Some(t) => if t <= s.stage_open {
                    Some(t)
                } else {
                    Some(s.stage_open)
                },
                None => Some(s.stage_open),
            };
        }
        i = i + 1;
    }
    match best {
        Some(t) => Ok(t),
        None => Err((404, ErrorResponse::new(404, "No open stages are available"))),
    }
}

/// A wallet's allowance in a tier, as it is handed out.
pub open spec fn allowance_shown(a: WalletStageAllocationView) -> OpenStageWalletView {
    OpenStageWalletView {
        wallet_address: a.wallet_address,
        stage_id: a.stage,
        allocated: a.allocation_count,
        reserved: a.reserved_count,
        assigned: a.assigned_count,
    }
}

/// Tells whether an allowance is one in tier `stage` that is not used up.
pub open spec fn open_wallet_pred(stage: u128) -> spec_fn(WalletStageAllocationView) -> bool {
    |a: WalletStageAllocationView| a.stage == stage && a.remaining() > 0
}

/// The allowances in tier `stage` that are not used up, in the order of
/// the store.
pub open spec fn open_wallets(
    ww: Seq<WalletStageAllocationView>,
    stage: u128,
) -> Seq<OpenStageWalletView> {
    ww.filter(open_wallet_pred(stage)).map_values(|a: WalletStageAllocationView| allowance_shown(a))
}

/// The views of a list of allowances that are handed out, in order.
pub open spec fn open_wallet_views(v: Seq<OpenStageWallet>) -> Seq<OpenStageWalletView> {
    Seq::new(v.len(), |i: int| v[i]@)
}

/// The allowances in the tier that are not used up.
pub fn get_open_wallets_for_stage(conn: &NFTDatabase, stage_id: u128) -> (r: Vec<OpenStageWallet>)
    ensures
        open_wallet_views(r@) == open_wallets(conn@.wallet_whitelist, stage_id),
{
    let ghost ww = conn@.wallet_whitelist;
    let ghost f = open_wallet_pred(stage_id);
    let ghost m = |a: WalletStageAllocationView| allowance_shown(a);
    let mut out: Vec<OpenStageWallet> = Vec::new();
    let mut i: usize = 0;
    proof {
        reveal(Seq::filter);
        assert(ww.take(0).filter(f) =~= Seq::<WalletStageAllocationView>::empty());
        assert(open_wallet_views(out@) =~= ww.take(0).filter(f).map_values(m));
    }
    while i < conn.wallet_whitelist.len()
        invariant
            i <= conn.wallet_whitelist.len(),
            ww == conn@.wallet_whitelist,
            f == open_wallet_pred(stage_id),
            m == (|a: WalletStageAllocationView| allowance_shown(a)),
            open_wallet_views(out@) == ww.take(i as int).filter(f).map_values(m),
        decreases conn.wallet_whitelist.len() - i,
    {
        let a = &conn.wallet_whitelist[i];
        let hit = a.stage == stage_id && (a.allocation_count as i64) - (a.reserved_count as i64) - (
        a.assigned_count as i64) > 0;
        proof {
            reveal(Seq::filter);
            assert(ww.take(i as int + 1).drop_last() =~= ww.take(i as int));
            assert(ww.take(i as int + 1).last() == a@);
        }
        if hit {
            let ghost prior = out@;
            out.push(
                OpenStageWallet {
                    wallet_address: a.wallet_address.clone(),
                    stage_id: a.stage,
                    allocated: a.allocation_count,
                    reserved: a.reserved_count,
                    assigned: a.assigned_count,
                },
            );
            proof {
                let kept = ww.take(i as int).filter(f);
                assert(open_wallet_views(out@) =~= open_wallet_views(prior).push(m(a@)));
                assert(kept.push(a@).map_values(m) =~= kept.map_values(m).push(m(a@)));
            }
        }
        i = i + 1;
    }
    proof {
        assert(ww.take(i as int) =~= ww);
    }
    out
}

/// The store after, and the outcome of, a draw of up to `amount` items by
/// `wallet` from one tier in a mint run.
#[verifier::opaque]
pub open spec fn mint_run_draw(
    db: NFTDatabaseView,
    seed: i32,
    wallet: Seq<char>,
    stage: StageView,
    amount: nat,
    reserved_until: i64,
    now: i64,
) -> (NFTDatabaseView, AllocationView) {
    allocation(db, seed, wallet, seq![stage], amount, reserved_until, true, now)
}

/// The result reports the outcome `out` of a draw in a mint run: the
/// items, none where the tier has nothing to give, or the failure of a
/// misconfigured tier.
pub open spec fn mint_run_result_is(
    r: Result<Vec<MintReservation>, (u16, ErrorResponse)>,
    out: AllocationView,
    stage: StageView,
) -> bool {
    match out {
        AllocationView::Claimed { claims, .. } => (r matches Ok(v) && reservation_views(v@)
            == claims),
        AllocationView::NoInventory => (r matches Ok(v) && v@.len() == 0),
        _ => (r matches Err(e) && e.0 == 500 && e.1.is(500, misconfigured_message(stage.code))),
    }
}

/// Claims up to `amount` items of the tier for the wallet in a mint run,
/// until `reserved_until`. A tier that has nothing to give yields no item
/// and no failure.
pub fn mint_nft_for_wallet_in_stage(
    conn: &mut NFTDatabase,
    stage: &Stage,
    wallet_address: &str,
    amount: usize,
    reserved_until: i64,
    now: i64,
) -> (r: Result<Vec<MintReservation>, (u16, ErrorResponse)>)
    ensures
        ({
            let (db, out) = mint_run_draw(
                old(conn)@,
                wallet_seed_spec(wallet_address@),
                wallet_address@,
                stage@,
                amount as nat,
                reserved_until,
                now,
            );
            final(conn)@ == db && mint_run_result_is(r, out, stage@)
        }),
        old(conn)@.wf() ==> final(conn)@.wf(),
{
    let mut stages: Vec<Stage> = Vec::new();
    stages.push(stage.clone());
    proof {
        reveal(mint_run_draw);
        assert(stage_views(stages@) =~= seq![stage@]);
        lemma_deciding_stage(
            conn@.nfts,
            selection_order_spec(wallet_seed_spec(wallet_address@), conn@.nfts.len()),
            seq![stage@],
            now,
            amount as nat,
            0,
        );
    }
    match allocate(conn, wallet_address, &stages, amount, reserved_until, true, now) {
        Ok(claims) => Ok(claims),
        Err(e) => {
            if stage.predicate().is_none() {
                Err(e)
            } else {
                Ok(Vec::new())
            }
        },
    }
}

/// The text of the failure to add an item whose identifier is taken.
pub open spec fn duplicate_message() -> Seq<char> {
    "duplicate key value violates unique constraint"@
}

/// The text of the failure to add an item that does not meet its
/// invariant.
pub open spec fn malformed_item_message() -> Seq<char> {
    "an assigned item must name its owner and cannot be reserved"@
}

/// Adds an item to the inventory. Fails with status 500, and changes
/// nothing, where an item has the identifier already or the item does not
/// meet its invariant.
pub fn insert_nft(conn: &mut NFTDatabase, item: NftFull) -> (r: Result<u128, (u16, ErrorResponse)>)
    ensures
        r is Ok <==> !crate::lifecycle::has_id(old(conn)@.nfts, item@.nft_lite.id) && item@.wf(),
        r matches Ok(id) ==> id == item@.nft_lite.id && final(conn)@ == (NFTDatabaseView {
            nfts: old(conn)@.nfts.push(item@),
            ..old(conn)@
        }),
        r matches Err(e) ==> e.0 == 500 && final(conn)@ == old(conn)@ && e.1.is(
            500,
            if crate::lifecycle::has_id(old(conn)@.nfts, item@.nft_lite.id) {
                duplicate_message()
            } else {
                malformed_item_message()
            },
        ),
        old(conn)@.wf() ==> final(conn)@.wf(),
{
    let id = item.nft_lite.id;
    if crate::lifecycle::find_nft(conn, id).is_some() {
        return Err(
            (500, ErrorResponse::new(500, "duplicate key value violates unique constraint")),
        );
    }
    if !item.is_well_formed() {
        return Err(
            (
                500,
                ErrorResponse::new(
                    500,
                    "an assigned item must name its owner and cannot be reserved",
                ),
            ),
        );
    }
    let ghost before = conn@;
    conn.nfts.push(item);
    proof {
        assert(conn@.nfts =~= before.nfts.push(item@));
        if before.wf() {
            assert forall|i: int, j: int| 0 <= i < j < conn@.nfts.len() implies (
            #[trigger] conn@.nfts[i]).nft_lite.id != (#[trigger] conn@.nfts[j]).nft_lite.id by {
                if j < before.nfts.len() {
                    assert(before.nfts[i].nft_lite.id != before.nfts[j].nft_lite.id);
                } else {
                    assert(before.nfts[i].nft_lite.id != id);
                }
            }
            assert forall|i: int| 0 <= i < conn@.nfts.len() implies (#[trigger] conn@.nfts[i]).wf() by {
                if i < before.nfts.len() {
                    assert(before.nfts[i].wf());
                }
            }
        }
    }
    Ok(id)
}


/// A character with the Unicode property `White_Space`.
pub open spec fn is_white_space(c: char) -> bool {
    let v = c as u32;
    ||| 0x09 <= v <= 0x0D
    ||| v == 0x20
    ||| v == 0x85
    ||| v == 0xA0
    ||| v == 0x1680
    ||| 0x2000 <= v <= 0x200A
    ||| v == 0x2028
    ||| v == 0x2029
    ||| v == 0x202F
    ||| v == 0x205F
    ||| v == 0x3000
}

/// The text without the white space at its start.
pub open spec fn trimmed_start(text: Seq<char>) -> Seq<char>
    decreases text.len(),
{
    if text.len() > 0 && is_white_space(text.first()) {
        trimmed_start(text.drop_first())
    } else {
        text
    }
}

/// The text without the white space at its end.
pub open spec fn trimmed_end(text: Seq<char>) -> Seq<char>
    decreases text.len(),
{
    if text.len() > 0 && is_white_space(text.last()) {
        trimmed_end(text.drop_last())
    } else {
        text
    }
}

/// The text without the white space at its two ends.
pub open spec fn trimmed(text: Seq<char>) -> Seq<char> {
    trimmed_end(trimmed_start(text))
}

/// Calls `str::trim` of the standard library and copies the result: the
/// text without leading and trailing white space, where white space is
/// what has the Unicode property `White_Space`.
#[verifier::external_body]
fn trim_text(text: &str) -> (r: String)
    ensures
        r@ == trimmed(text@),
{
    text.trim().to_string()
}

/// A tier as it is listed: with its code trimmed.
pub open spec fn stage_listed(s: StageView) -> StageView {
    StageView { code: trimmed(s.code), ..s }
}

/// All tiers, in the order of the store, with their codes trimmed.
pub fn get_stages(conn: &NFTDatabase) -> (r: Vec<Stage>)
    ensures
        stage_views(r@) == conn@.stages.map_values(|s: StageView| stage_listed(s)),
{
    let ghost views = conn@.stages;
    let ghost m = |s: StageView| stage_listed(s);
    let mut out: Vec<Stage> = Vec::new();
    let mut i: usize = 0;
    while i < conn.stages.len()
        invariant
            i <= conn.stages.len(),
            views == conn@.stages,
            m == (|s: StageView| stage_listed(s)),
            stage_views(out@) == views.take(i as int).map_values(m),
        decreases conn.stages.len() - i,
    {
        let s = &conn.stages[i];
        let ghost prior = out@;
        out.push(
            Stage {
                id: s.id,
                code: trim_text(s.code.as_str()),
                name: s.name.clone(),
                attribute_type: clone_opt(&s.attribute_type),
                attribute_value: clone_opt(&s.attribute_value),
                is_default: s.is_default,
                stage_free: s.stage_free,
                stage_open: s.stage_open,
            },
        );
        proof {
            assert(views[i as int] == s@);
            assert(stage_views(out@) =~= stage_views(prior).push(m(s@)));
            assert(views.take(i as int + 1) =~= views.take(i as int).push(s@));
            assert(views.take(i as int).push(s@).map_values(m) =~= views.take(i as int).map_values(
                m,
            ).push(m(s@)));
        }
        i = i + 1;
    }
    proof {
        assert(views.take(i as int) =~= views);
    }
    out
}

/// The item is one that a tally with this filter counts: any item where
/// there is no filter, else an item that carries the trait and value.
pub open spec fn in_tally(
    n: NftFullView,
    attr_type: Option<Seq<char>>,
    attr_value: Option<Seq<char>>,
) -> bool {
    match (attr_type, attr_value) {
        (Some(t), Some(v)) => n.has_attribute(t, v),
        _ => true,
    }
}

/// Tells whether a tally counts an item as assigned.
pub open spec fn tally_assigned_pred(
    attr_type: Option<Seq<char>>,
    attr_value: Option<Seq<char>>) -> spec_fn(NftFullView,
) -> bool {
    |n: NftFullView| in_tally(n, attr_type, attr_value) && n.nft_lite.assigned
}

/// Tells whether a tally counts an item as reserved.
pub open spec fn tally_reserved_pred(
    attr_type: Option<Seq<char>>,
    attr_value: Option<Seq<char>>) -> spec_fn(NftFullView,
) -> bool {
    |n: NftFullView| in_tally(n, attr_type, attr_value) && n.nft_lite.reserved
}

/// Tells whether a tally counts an item.
pub open spec fn tally_pred(
    attr_type: Option<Seq<char>>,
    attr_value: Option<Seq<char>>) -> spec_fn(NftFullView,
) -> bool {
    |n: NftFullView| in_tally(n, attr_type, attr_value)
}

/// The text of the failure of a tally with a trait and no value.
pub open spec fn missing_value_message() -> Seq<char> {
    "Missing Value"@
}

/// Counts the items that carry the trait and value, or all items where no
/// trait is given: how many are assigned, how many carry the reserved
/// mark, and how many there are. A trait without a value is refused with
/// status 500.
pub fn get_nft_stat(
    conn: &NFTDatabase,
    attr_type: &Option<String>,
    attr_value: &Option<String>,
) -> (r: Result<
    NFTTallyStat,
    (u16, ErrorResponse),
>)
    requires
        conn@.nfts.len() <= i64::MAX,
    ensures
        r is Err <==> attr_type is Some && attr_value is None,
        r matches Err(e) ==> e.0 == 500 && e.1.is(500, missing_value_message()),
        r matches Ok(t) ==> {
            &&& t.assigned == conn@.nfts.filter(
                tally_assigned_pred(opt_text(*attr_type), opt_text(*attr_value)),
            ).len()
            &&& t.reserved == conn@.nfts.filter(
                tally_reserved_pred(opt_text(*attr_type), opt_text(*attr_value)),
            ).len()
            &&& t.count == conn@.nfts.filter(
                tally_pred(opt_text(*attr_type), opt_text(*attr_value)),
            ).len()
        },
{
    if attr_type.is_some() && attr_value.is_none() {
        return Err((500, ErrorResponse::new(500, "Missing Value")));
    }
    let ghost views = conn@.nfts;
    let ghost fa = tally_assigned_pred(opt_text(*attr_type), opt_text(*attr_value));
    let ghost fr = tally_reserved_pred(opt_text(*attr_type), opt_text(*attr_value));
    let ghost fc = tally_pred(opt_text(*attr_type), opt_text(*attr_value));
    let mut assigned: i64 = 0;
    let mut reserved: i64 = 0;
    let mut count: i64 = 0;
    let mut i: usize = 0;
    proof {
        reveal(Seq::filter);
        assert(views.take(0).filter(fa) =~= Seq::<NftFullView>::empty());
        assert(views.take(0).filter(fr) =~= Seq::<NftFullView>::empty());
        assert(views.take(0).filter(fc) =~= Seq::<NftFullView>::empty());
    }
    while i < conn.nfts.len()
        invariant
            i <= conn.nfts.len(),
            conn@.nfts.len() <= i64::MAX,
            views == conn@.nfts,
            fa == tally_assigned_pred(opt_text(*attr_type), opt_text(*attr_value)),
            fr == tally_reserved_pred(opt_text(*attr_type), opt_text(*attr_value)),
            fc == tally_pred(opt_text(*attr_type), opt_text(*attr_value)),
            assigned == views.take(i as int).filter(fa).len(),
            reserved == views.take(i as int).filter(fr).len(),
            count == views.take(i as int).filter(fc).len(),
            0 <= assigned <= i,
            0 <= reserved <= i,
            0 <= count <= i,
        decreases conn.nfts.len() - i,
    {
        let n = &conn.nfts[i];
        let counted = match (attr_type, attr_value) {
            (Some(t), Some(v)) => n.has_attribute(t.as_str(), v.as_str()),
            _ => true,
        };
        proof {
            reveal(Seq::filter);
            assert(views.take(i as int + 1).drop_last() =~= views.take(i as int));
            assert(views.take(i as int + 1).last() == n@);
            assert(counted == in_tally(n@, opt_text(*attr_type), opt_text(*attr_value)));
        }
        if counted {
            count = count + 1;
            if n.nft_lite.assigned {
                assigned = assigned + 1;
            }
            if n.nft_lite.reserved {
                reserved = reserved + 1;
            }
        }
        i = i + 1;
    }
    proof {
        assert(views.take(i as int) =~= views);
    }
    Ok(NFTTallyStat { assigned, reserved, count })
}

/// Tells whether an item has a submission that is not resolved: it is in
/// process under an identifier and not assigned.
pub open spec fn in_flight_pred() -> spec_fn(NftFullView) -> bool {
    |n: NftFullView| n.nft_lite.in_process && !n.nft_lite.assigned && n.nft_lite.txhash is Some
}

/// Tells whether an item of a mint run has a submission that is not
/// resolved and a wallet that it is held for.
pub open spec fn mint_flight_pred() -> spec_fn(NftFullView) -> bool {
    |n: NftFullView|
        n.in_mint_run && n.nft_lite.in_process && !n.nft_lite.assigned && n.nft_lite.txhash
            is Some && n.reserved_to_wallet_address is Some
}

/// Tells whether an item of a mint run is stuck: its submission failed, it
/// is still in process, and a wallet holds it.
pub open spec fn mint_stuck_pred() -> spec_fn(NftFullView) -> bool {
    |n: NftFullView|
        n.in_mint_run && n.nft_lite.in_process && n.nft_lite.has_submit_error
            && !n.nft_lite.assigned && n.reserved_to_wallet_address is Some
}

/// Tells whether an item of a mint run is reserved and nothing was
/// submitted for it yet.
pub open spec fn mint_reserved_pred() -> spec_fn(NftFullView) -> bool {
    |n: NftFullView|
        n.in_mint_run && n.nft_lite.reserved && !n.nft_lite.in_process && !n.nft_lite.assigned
            && n.nft_lite.txhash is None
}

/// Which items a listing takes.
#[derive(Debug, Clone, Copy, PartialEq, Eq, Structural)]
pub enum Listing {
    /// the items with a submission that is not resolved
    InFlight,
    /// the items of a mint run with a submission that is not resolved
    MintFlight,
    /// the items of a mint run whose submission failed
    MintStuck,
    /// the items of a mint run for which nothing was submitted yet
    MintReserved,
}

impl Listing {
    /// Tells whether the listing takes an item.
    pub open spec fn pred(self) -> spec_fn(NftFullView) -> bool {
        match self {
            Listing::InFlight => in_flight_pred(),
            Listing::MintFlight => mint_flight_pred(),
            Listing::MintStuck => mint_stuck_pred(),
            Listing::MintReserved => mint_reserved_pred(),
        }
    }

    /// Whether the listing takes the item.
    pub fn takes(&self, n: &NftFull) -> (b: bool)
        ensures
            b == (self.pred())(n@),
    {
        let open = !n.nft_lite.assigned;
        match self {
            Listing::InFlight => n.nft_lite.in_process && open && n.nft_lite.txhash.is_some(),
            Listing::MintFlight => n.in_mint_run && n.nft_lite.in_process && open
                && n.nft_lite.txhash.is_some() && n.reserved_to_wallet_address.is_some(),
            Listing::MintStuck => n.in_mint_run && n.nft_lite.in_process
                && n.nft_lite.has_submit_error && open && n.reserved_to_wallet_address.is_some(),
            Listing::MintReserved => n.in_mint_run && n.nft_lite.reserved
                && !n.nft_lite.in_process && open && n.nft_lite.txhash.is_none(),
        }
    }
}

/// The first `limit` entries of a list, or all of them where there are
/// fewer.
pub open spec fn first_of<A>(all: Seq<A>, limit: usize) -> Seq<A> {
    if limit < all.len() {
        all.take(limit as int)
    } else {
        all
    }
}

/// What was kept of the first `i` entries of `s` is the first `limit`
/// entries of what is kept of all of `s`, where the walk ended at the end
/// of `s` or with `limit` entries kept.
proof fn lemma_first_of_filter<A>(s: Seq<A>, f: spec_fn(A) -> bool, i: int, limit: usize)
    requires
        0 <= i <= s.len(),
        s.take(i).filter(f).len() <= limit,
        i == s.len() || s.take(i).filter(f).len() == limit,
    ensures
        first_of(s.filter(f), limit) == s.take(i).filter(f),
{
    let head = s.take(i);
    let tail = s.skip(i);
    assert(s =~= head + tail);
    Seq::filter_distributes_over_add(head, tail, f);
    let kept = head.filter(f);
    let rest = tail.filter(f);
    if i == s.len() {
        assert(tail =~= Seq::<A>::empty());
        reveal(Seq::filter);
        assert(rest =~= Seq::<A>::empty());
        assert(s.filter(f) =~= kept);
    } else if (limit as nat) < s.filter(f).len() {
        assert(s.filter(f).take(limit as int) =~= kept);
    } else {
        assert(rest.len() == 0);
        assert(s.filter(f) =~= kept);
    }
}

/// Taking the first entries commutes with mapping them.
proof fn lemma_first_of_map<A, B>(all: Seq<A>, m: spec_fn(A) -> B, limit: usize)
    ensures
        first_of(all, limit).map_values(m) == first_of(all.map_values(m), limit),
{
    if (limit as nat) < all.len() {
        assert(all.take(limit as int).map_values(m) =~= all.map_values(m).take(limit as int));
    }
}

/// The views of a list of items that are borrowed, in order.
pub open spec fn listed_views(v: Seq<&NftFull>) -> Seq<NftFullView> {
    Seq::new(v.len(), |i: int| v[i]@)
}

/// The first `limit` items that the listing takes, in the order of the
/// store.
pub fn listed<'a>(conn: &'a NFTDatabase, listing: Listing, limit: usize) -> (r: Vec<&'a NftFull>)
    ensures
        listed_views(r@) == first_of(conn@.nfts.filter(listing.pred()), limit),
        forall|k: int| 0 <= k < r@.len() ==> (listing.pred())(#[trigger] r@[k]@),
{
    let ghost views = conn@.nfts;
    let ghost f = listing.pred();
    let mut out: Vec<&'a NftFull> = Vec::new();
    let mut i: usize = 0;
    proof {
        reveal(Seq::filter);
        assert(views.take(0).filter(f) =~= Seq::<NftFullView>::empty());
        assert(listed_views(out@) =~= views.take(0).filter(f));
    }
    while i < conn.nfts.len() && out.len() < limit
        invariant
            i <= conn.nfts.len(),
            views == conn@.nfts,
            f == listing.pred(),
            listed_views(out@) == views.take(i as int).filter(f),
            out@.len() == views.take(i as int).filter(f).len(),
            out@.len() <= limit,
            forall|k: int| 0 <= k < out@.len() ==> f(#[trigger] out@[k]@),
        decreases conn.nfts.len() - i,
    {
        let n = &conn.nfts[i];
        proof {
            reveal(Seq::filter);
            assert(views.take(i as int + 1).drop_last() =~= views.take(i as int));
            assert(views.take(i as int + 1).last() == n@);
        }
        if listing.takes(n) {
            let ghost prior = out@;
            out.push(n);
            proof {
                assert(listed_views(out@) =~= listed_views(prior).push(n@));
            }
        }
        i = i + 1;
    }
    proof {
        lemma_first_of_filter(views, f, i as int, limit);
    }
    out
}

/// The identifiers of the submissions that are not resolved, in the order
/// of the store.
pub open spec fn in_flight(nfts: Seq<NftFullView>) -> Seq<Seq<char>> {
    nfts.filter(in_flight_pred()).map_values(|n: NftFullView| n.nft_lite.txhash->Some_0)
}

/// The views of a list of strings, in order.
pub open spec fn text_views(v: Seq<String>) -> Seq<Seq<char>> {
    Seq::new(v.len(), |i: int| v[i]@)
}

/// The identifiers of the submissions that are not resolved, `limit` of
/// them at most: the first ones in the order of the store.
pub fn reservations_in_process(conn: &NFTDatabase, limit: usize) -> (r: Vec<String>)
    ensures
        text_views(r@) == first_of(in_flight(conn@.nfts), limit),
{
    let picked = listed(conn, Listing::InFlight, limit);
    let ghost m = |n: NftFullView| n.nft_lite.txhash->Some_0;
    let mut out: Vec<String> = Vec::new();
    let mut k: usize = 0;
    while k < picked.len()
        invariant
            k <= picked.len(),
            out@.len() == k,
            forall|j: int| 0 <= j < picked@.len() ==> in_flight_pred()(#[trigger] picked@[j]@),
            forall|j: int| 0 <= j < k ==> (#[trigger] out@[j])@ == picked@[j]@.nft_lite.txhash->Some_0,
        decreases picked.len() - k,
    {
        let n = picked[k];
        proof {
            assert(in_flight_pred()(picked@[k as int]@));
        }
        if let Some(tx) = &n.nft_lite.txhash {
            out.push(tx.clone());
        }
        k = k + 1;
    }
    proof {
        assert(text_views(out@) =~= listed_views(picked@).map_values(m));
        lemma_first_of_map(conn@.nfts.filter(in_flight_pred()), m, limit);
    }
    out
}

/// The wallet and the identifier of the submission of each item of a mint
/// run whose submission is not resolved, in the order of the store.
pub open spec fn mint_flights(nfts: Seq<NftFullView>) -> Seq<(Seq<char>, Seq<char>)> {
    nfts.filter(mint_flight_pred()).map_values(
        |n: NftFullView| (n.reserved_to_wallet_address->Some_0, n.nft_lite.txhash->Some_0),
    )
}

/// The views of a list of pairs of strings, in order.
pub open spec fn pair_views(v: Seq<(String, String)>) -> Seq<(Seq<char>, Seq<char>)> {
    Seq::new(v.len(), |i: int| (v[i].0@, v[i].1@))
}

/// The wallet and the identifier of the submission of the items of a mint
/// run that wait for their outcome, `limit` of them at most.
pub fn reservations_in_mint_process(conn: &NFTDatabase, limit: usize) -> (r: Vec<(String, String)>)
    ensures
        pair_views(r@) == first_of(mint_flights(conn@.nfts), limit),
{
    let picked = listed(conn, Listing::MintFlight, limit);
    let ghost m = |n: NftFullView| (n.reserved_to_wallet_address->Some_0, n.nft_lite.txhash->Some_0);
    let mut out: Vec<(String, String)> = Vec::new();
    let mut k: usize = 0;
    while k < picked.len()
        invariant
            k <= picked.len(),
            out@.len() == k,
            forall|j: int| 0 <= j < picked@.len() ==> mint_flight_pred()(#[trigger] picked@[j]@),
            forall|j: int|
                0 <= j < k ==> (#[trigger] out@[j]).0@
                    == picked@[j]@.reserved_to_wallet_address->Some_0 && out@[j].1@
                    == picked@[j]@.nft_lite.txhash->Some_0,
        decreases picked.len() - k,
    {
        let n = picked[k];
        proof {
            assert(mint_flight_pred()(picked@[k as int]@));
        }
        if let (Some(wallet), Some(tx)) = (&n.reserved_to_wallet_address, &n.nft_lite.txhash) {
            out.push((wallet.clone(), tx.clone()));
        }
        k = k + 1;
    }
    proof {
        assert(pair_views(out@) =~= listed_views(picked@).map_values(m));
        lemma_first_of_map(conn@.nfts.filter(mint_flight_pred()), m, limit);
    }
    out
}

/// What is needed to mint a stuck item again.
pub open spec fn mint_again(n: NftFullView) -> MintReservationView {
    MintReservationView {
        wallet_address: n.reserved_to_wallet_address->Some_0,
        nft_id: n.nft_lite.id,
        meta_data: n.meta_data,
    }
}

/// The stuck items of a mint run, in the order of the store.
pub open spec fn mint_stuck(nfts: Seq<NftFullView>) -> Seq<MintReservationView> {
    nfts.filter(mint_stuck_pred()).map_values(|n: NftFullView| mint_again(n))
}

/// The items of a mint run whose submission failed, with what is needed to
/// mint them again, `limit` of them at most.
pub fn reservations_stuck_in_mint_process(
    conn: &NFTDatabase,
    limit: usize,
) -> (r: Vec<MintReservation>)
    ensures
        reservation_views(r@) == first_of(mint_stuck(conn@.nfts), limit),
{
    let picked = listed(conn, Listing::MintStuck, limit);
    let ghost m = |n: NftFullView| mint_again(n);
    let mut out: Vec<MintReservation> = Vec::new();
    let mut k: usize = 0;
    while k < picked.len()
        invariant
            k <= picked.len(),
            out@.len() == k,
            forall|j: int| 0 <= j < picked@.len() ==> mint_stuck_pred()(#[trigger] picked@[j]@),
            forall|j: int| 0 <= j < k ==> (#[trigger] out@[j])@ == mint_again(picked@[j]@),
        decreases picked.len() - k,
    {
        let n = picked[k];
        proof {
            assert(mint_stuck_pred()(picked@[k as int]@));
        }
        if let Some(wallet) = &n.reserved_to_wallet_address {
            out.push(
                MintReservation {
                    wallet_address: wallet.clone(),
                    nft_id: n.nft_lite.id,
                    meta_data: n.meta_data.clone(),
                },
            );
        }
        k = k + 1;
    }
    proof {
        assert(reservation_views(out@) =~= listed_views(picked@).map_values(m));
        lemma_first_of_map(conn@.nfts.filter(mint_stuck_pred()), m, limit);
    }
    out
}

/// The identifiers, as text, of the items of a mint run that are reserved
/// and for which nothing was submitted yet, in the order of the store.
pub open spec fn mint_reserved(nfts: Seq<NftFullView>) -> Seq<Seq<char>> {
    nfts.filter(mint_reserved_pred()).map_values(|n: NftFullView| uuid_text(n.nft_lite.id))
}

/// The identifiers of the items that a mint run has reserved and for
/// which nothing was submitted yet, `limit` of them at most.
pub fn reservations_in_mint_reserved(conn: &NFTDatabase, limit: usize) -> (r: Vec<String>)
    ensures
        text_views(r@) == first_of(mint_reserved(conn@.nfts), limit),
{
    let picked = listed(conn, Listing::MintReserved, limit);
    let ghost m = |n: NftFullView| uuid_text(n.nft_lite.id);
    let mut out: Vec<String> = Vec::new();
    let mut k: usize = 0;
    while k < picked.len()
        invariant
            k <= picked.len(),
            out@.len() == k,
            forall|j: int| 0 <= j < k ==> (#[trigger] out@[j])@ == uuid_text(picked@[j]@.nft_lite.id),
        decreases picked.len() - k,
    {
        out.push(uuid_to_text(picked[k].nft_lite.id));
        k = k + 1;
    }
    proof {
        assert(text_views(out@) =~= listed_views(picked@).map_values(m));
        lemma_first_of_map(conn@.nfts.filter(mint_reserved_pred()), m, limit);
    }
    out
}

} // verus!
