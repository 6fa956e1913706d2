//! The lifecycle of a claimed item: from its reservation through the
//! submission of a transaction to its assignment or a submit error.

use vstd::prelude::*;
use crate::models::{NFTView, NftFull, NftFullView};
use crate::requests::ErrorResponse;
use crate::text::{opt_is, opt_text, owned, str_eq};
use crate::{nft_views, NFTDatabase, NFTDatabaseView};

verus! {

/// `i` is the one position at which `f` holds.
pub open spec fn is_only_match(
    nfts: Seq<NftFullView>,
    f: spec_fn(NftFullView) -> bool, i: int,
) -> bool {
    &&& 0 <= i < nfts.len()
    &&& f(nfts[i])
    &&& forall|j: int| 0 <= j < nfts.len() && j != i ==> !f(#[trigger] nfts[j])
}

/// `f` holds at exactly one position.
pub open spec fn has_only_match(nfts: Seq<NftFullView>, f: spec_fn(NftFullView) -> bool) -> bool {
    exists|i: int| is_only_match(nfts, f, i)
}

/// The one position at which `f` holds.
pub open spec fn only_match(nfts: Seq<NftFullView>, f: spec_fn(NftFullView) -> bool) -> int {
    choose|i: int| is_only_match(nfts, f, i)
}

/// Where `f` holds at exactly one position, that position is `i`.
pub proof fn lemma_only_match(nfts: Seq<NftFullView>, f: spec_fn(NftFullView) -> bool, i: int)
    requires
        is_only_match(nfts, f, i),
    ensures
        has_only_match(nfts, f),
        only_match(nfts, f) == i,
{
    let j = only_match(nfts, f);
    assert(is_only_match(nfts, f, j));
    if j != i {
        assert(!f(nfts[j]));
    }
}

/// Tells whether an item has the identifier `id`.
pub open spec fn id_pred(id: u128) -> spec_fn(NftFullView) -> bool {
    |n: NftFullView| n.nft_lite.id == id
}

/// Tells whether an item was submitted under the identifier `tx`.
pub open spec fn tx_pred(tx: Seq<char>) -> spec_fn(NftFullView) -> bool {
    |n: NftFullView| n.nft_lite.txhash == Some(tx)
}

/// Tells whether an item is reserved to `wallet` and has the name
/// `token_id`.
pub open spec fn owner_pred(
    wallet: Seq<char>,
    token_id: Seq<char>) -> spec_fn(NftFullView,
) -> bool {
    |n: NftFullView| n.reserved_to_wallet_address == Some(wallet) && n.nft_lite.name == token_id
}

impl NftFullView {
    /// The item after a transaction with the identifier `tx` was submitted
    /// for it: it is in process under that identifier. A submit error of
    /// an earlier attempt is no longer outstanding; its text stays.
    pub open spec fn submitted_hash(self, tx: Seq<char>) -> NftFullView {
        NftFullView {
            nft_lite: NFTView {
                txhash: Some(tx),
                in_process: true,
                has_submit_error: false,
                ..self.nft_lite
            },
            ..self
        }
    }

    /// The item after a signed transaction was handed in for it: it is in
    /// process and keeps the payload. A submit error of an earlier attempt
    /// is no longer outstanding; its text stays.
    pub open spec fn submitted_payload(self, signed_tx: Seq<char>) -> NftFullView {
        NftFullView {
            nft_lite: NFTView { in_process: true, has_submit_error: false, ..self.nft_lite },
            signed_packet: Some(signed_tx),
            ..self
        }
    }

    /// The item after its assignment to `owner`: assigned, no longer
    /// reserved or in process, and free of any submit error.
    pub open spec fn assigned_to(
        self,
        owner: Seq<char>,
        assigned_on: Option<i64>,
        token_id: Option<Seq<char>>,
    ) -> NftFullView {
        NftFullView {
            nft_lite: NFTView {
                assigned: true,
                reserved: false,
                in_process: false,
                has_submit_error: false,
                ..self.nft_lite
            },
            tx_error: None,
            assigned_to_wallet_address: Some(owner),
            assigned_on,
            token_id,
            ..self
        }
    }

    /// The item after its submission failed with `error`: it carries the
    /// error and has one more retry on its count. It stays reserved and in
    /// process, so that the holder can submit again.
    pub open spec fn submit_failed(self, error: Option<Seq<char>>) -> NftFullView {
        NftFullView {
            nft_lite: NFTView { has_submit_error: true, ..self.nft_lite },
            tx_error: error,
            tx_retry_count: (self.tx_retry_count + 1) as i32,
            ..self
        }
    }
}

/// What singles out an item for a transition.
pub enum Probe<'a> {
    /// the item was submitted under this identifier
    Tx(&'a str),
    /// the item is reserved to this wallet and has this name
    Owner(&'a str, &'a str),
}

impl<'a> Probe<'a> {
    /// Tells whether the probe picks an item.
    pub open spec fn pred(self) -> spec_fn(NftFullView) -> bool {
        match self {
            Probe::Tx(tx) => tx_pred(tx@),
            Probe::Owner(wallet, token_id) => owner_pred(wallet@, token_id@),
        }
    }

    /// Whether the probe picks the item.
    pub fn picks(&self, n: &NftFull) -> (b: bool)
        ensures
            b == (self.pred())(n@),
    {
        match self {
            Probe::Tx(tx) => opt_is(&n.nft_lite.txhash, tx),
            Probe::Owner(wallet, token_id) => opt_is(&n.reserved_to_wallet_address, wallet)
                && str_eq(n.nft_lite.name.as_str(), token_id),
        }
    }
}

/// The position of the one item that the probe picks, if there is exactly
/// one.
pub fn find_only(nfts: &Vec<NftFull>, probe: &Probe) -> (r: Option<usize>)
    ensures
        r is Some <==> has_only_match(nft_views(nfts@), probe.pred()),
        r matches Some(i) ==> is_only_match(nft_views(nfts@), probe.pred(), i as int),
{
    let ghost views = nft_views(nfts@);
    let ghost g = probe.pred();
    let mut found: Option<usize> = None;
    let mut i: usize = 0;
    while i < nfts.len()
        invariant
            i <= nfts.len(),
            views == nft_views(nfts@),
            g == probe.pred(),
            found is None ==> forall|j: int| 0 <= j < i ==> !g(#[trigger] views[j]),
            found matches Some(p) ==> p < i && g(views[p as int]) && forall|j: int|
                0 <= j < i && j != p ==> !g(#[trigger] views[j]),
        decreases nfts.len() - i,
    {
        let hit = probe.picks(&nfts[i]);
        proof {
            assert(views[i as int] == nfts@[i as int]@);
        }
        if hit {
            match found {
                Some(p) => {
                    proof {
                        assert forall|k: int| !is_only_match(views, g, k) by {
                            if is_only_match(views, g, k) {
                                if k != p {
                                    assert(!g(views[p as int]));
                                } else {
                                    assert(!g(views[i as int]));
                                }
                            }
                        }
                    }
                    return None;
                },
                None => {
                    found = Some(i);
                },
            }
        }
        i = i + 1;
    }
    proof {
        match found {
            Some(p) => {
                assert(is_only_match(views, g, p as int));
            },
            None => {
                assert forall|k: int| !is_only_match(views, g, k) by {}
            },
        }
    }
    found
}

/// How the report of a transaction's outcome, or the naming of an owner,
/// was taken.
#[derive(Debug, PartialEq, Eq, Clone, Copy, Structural)]
pub enum TxOutcome {
    /// the item is now assigned
    Assigned,
    /// the item now carries the submit error
    SubmitErrorRecorded,
    /// the item was assigned before; nothing changed
    AlreadyProcessed,
    /// not exactly one item matched; nothing changed
    NotFound,
    /// a success was reported without an owner; nothing changed
    OwnerMissing,
    /// the count of retries is at its limit; nothing changed
    RetryCountFull,
}

/// The store with the item at position `i` replaced.
pub open spec fn with_item(db: NFTDatabaseView, i: int, item: NftFullView) -> NFTDatabaseView {
    NFTDatabaseView { nfts: db.nfts.update(i, item), ..db }
}

/// The store after, and the outcome of, the report that the transaction
/// `tx` succeeded or failed. The report must match exactly one item by its
/// submission identifier. An item that is assigned already is left as it
/// is. A success assigns the item to the reported owner, with the time of
/// confirmation and the token identifier; a failure records the error on
/// the item and counts one more retry.
pub open spec fn tx_result_applied(
    db: NFTDatabaseView,
    wallet: Option<Seq<char>>,
    tx: Seq<char>,
    success: bool,
    assigned_on: Option<i64>,
    error: Option<Seq<char>>,
    token_id: Option<Seq<char>>,
) -> (NFTDatabaseView, TxOutcome) {
    let f = tx_pred(tx);
    if !has_only_match(db.nfts, f) {
        (db, TxOutcome::NotFound)
    } else {
        let i = only_match(db.nfts, f);
        let item = db.nfts[i];
        if item.nft_lite.assigned {
            (db, TxOutcome::AlreadyProcessed)
        } else if success {
            match wallet {
                None => (db, TxOutcome::OwnerMissing),
                Some(w) => (
                    with_item(db, i, item.assigned_to(w, assigned_on, token_id)),
                    TxOutcome::Assigned,
                ),
            }
        } else if item.tx_retry_count == i32::MAX {
            (db, TxOutcome::RetryCountFull)
        } else {
            (with_item(db, i, item.submit_failed(error)), TxOutcome::SubmitErrorRecorded)
        }
    }
}

/// The store after, and the outcome of, naming `wallet` as the owner of
/// the token `token_id` at time `now`. Exactly one item must be reserved to
/// the wallet under that name. An item that is assigned already is left as
/// it is; otherwise it becomes assigned to the wallet.
pub open spec fn owner_assigned(
    db: NFTDatabaseView,
    wallet: Seq<char>,
    token_id: Seq<char>,
    now: i64,
) -> (NFTDatabaseView, TxOutcome) {
    let f = owner_pred(wallet, token_id);
    if !has_only_match(db.nfts, f) {
        (db, TxOutcome::NotFound)
    } else {
        let i = only_match(db.nfts, f);
        let item = db.nfts[i];
        if item.nft_lite.assigned {
            (db, TxOutcome::AlreadyProcessed)
        } else {
            (
                with_item(db, i, item.assigned_to(wallet, Some(now), Some(token_id))),
                TxOutcome::Assigned,
            )
        }
    }
}

/// Replacing an item by one with the same identifier that meets the item
/// invariant keeps the invariant of the store.
pub proof fn lemma_with_item_wf(db: NFTDatabaseView, i: int, item: NftFullView)
    requires
        db.wf(),
        0 <= i < db.nfts.len(),
        item.wf(),
        item.nft_lite.id == db.nfts[i].nft_lite.id,
    ensures
        with_item(db, i, item).wf(),
{
    let d = with_item(db, i, item);
    assert forall|a: int, b: int| 0 <= a < b < d.nfts.len() implies (#[trigger] d.nfts[a]).nft_lite.id
        != (#[trigger] d.nfts[b]).nft_lite.id by {
        assert(db.nfts[a].nft_lite.id != db.nfts[b].nft_lite.id);
    }
    assert forall|a: int| 0 <= a < d.nfts.len() implies (#[trigger] d.nfts[a]).wf() by {
        if a != i {
            assert(db.nfts[a].wf());
        }
    }
}

/// Taking the report of a transaction's outcome keeps the invariant of the
/// store.
pub proof fn lemma_tx_result_wf(
    db: NFTDatabaseView,
    wallet: Option<Seq<char>>,
    tx: Seq<char>,
    success: bool,
    assigned_on: Option<i64>,
    error: Option<Seq<char>>,
    token_id: Option<Seq<char>>,
)
    requires
        db.wf(),
    ensures
        tx_result_applied(db, wallet, tx, success, assigned_on, error, token_id).0.wf(),
{
    let f = tx_pred(tx);
    if has_only_match(db.nfts, f) {
        let i = only_match(db.nfts, f);
        let item = db.nfts[i];
        assert(item.wf());
        if !item.nft_lite.assigned {
            if success {
                if let Some(w) = wallet {
                    lemma_with_item_wf(db, i, item.assigned_to(w, assigned_on, token_id));
                }
            } else if item.tx_retry_count != i32::MAX {
                lemma_with_item_wf(db, i, item.submit_failed(error));
            }
        }
    }
}

/// Naming the owner of a token keeps the invariant of the store.
pub proof fn lemma_owner_assigned_wf(
    db: NFTDatabaseView,
    wallet: Seq<char>,
    token_id: Seq<char>,
    now: i64,
)
    requires
        db.wf(),
    ensures
        owner_assigned(db, wallet, token_id, now).0.wf(),
{
    let f = owner_pred(wallet, token_id);
    if has_only_match(db.nfts, f) {
        let i = only_match(db.nfts, f);
        let item = db.nfts[i];
        if !item.nft_lite.assigned {
            lemma_with_item_wf(db, i, item.assigned_to(wallet, Some(now), Some(token_id)));
        }
    }
}

/// Marks the item at position `i` as assigned to `owner`.
fn mark_assigned(
    conn: &mut NFTDatabase,
    i: usize,
    owner: &str,
    assigned_on: Option<i64>,
    token_id: Option<String>,
)
    requires
        i < old(conn).nfts.len(),
    ensures
        final(conn)@ == with_item(
            old(conn)@,
            i as int,
            old(conn)@.nfts[i as int].assigned_to(owner@, assigned_on, opt_text(token_id)),
        ),
{
    let ghost before = conn@;
    let ghost prior = conn.nfts@;
    let item = &mut conn.nfts[i];
    item.nft_lite.assigned = true;
    item.nft_lite.reserved = false;
    item.nft_lite.in_process = false;
    item.nft_lite.has_submit_error = false;
    item.tx_error = None;
    item.assigned_to_wallet_address = Some(owned(owner));
    item.assigned_on = assigned_on;
    item.token_id = token_id;
    proof {
        assert(before.nfts[i as int] == prior[i as int]@);
        assert(conn@.nfts =~= before.nfts.update(
            i as int,
            before.nfts[i as int].assigned_to(owner@, assigned_on, opt_text(token_id)),
        ));
    }
}

/// Takes the report that the transaction `tx` succeeded or failed.
pub fn nft_assign_tx_result(
    conn: &mut NFTDatabase,
    wallet_address: Option<String>,
    tx: String,
    success: bool,
    assigned_on: Option<i64>,
    error: Option<String>,
    token_id: Option<String>,
) -> (r: TxOutcome)
    ensures
        (final(conn)@, r) == tx_result_applied(
            old(conn)@,
            opt_text(wallet_address),
            tx@,
            success,
            assigned_on,
            opt_text(error),
            opt_text(token_id),
        ),
        old(conn)@.wf() ==> final(conn)@.wf(),
{
    let ghost before = conn@;
    let ghost g = tx_pred(tx@);
    proof {
        if before.wf() {
            lemma_tx_result_wf(
                before,
                opt_text(wallet_address),
                tx@,
                success,
                assigned_on,
                opt_text(error),
                opt_text(token_id),
            );
        }
    }
    let found = find_only(&conn.nfts, &Probe::Tx(tx.as_str()));
    match found {
        None => TxOutcome::NotFound,
        Some(i) => {
            proof {
                lemma_only_match(before.nfts, g, i as int);
                assert(before.nfts[i as int] == conn.nfts@[i as int]@);
            }
            if conn.nfts[i].nft_lite.assigned {
                TxOutcome::AlreadyProcessed
            } else if success {
                match wallet_address {
                    None => TxOutcome::OwnerMissing,
                    Some(w) => {
                        mark_assigned(conn, i, w.as_str(), assigned_on, token_id);
                        TxOutcome::Assigned
                    },
                }
            } else if conn.nfts[i].tx_retry_count == i32::MAX {
                TxOutcome::RetryCountFull
            } else {
                let ghost prior = conn.nfts@;
                let item = &mut conn.nfts[i];
                item.nft_lite.has_submit_error = true;
                item.tx_error = error;
                item.tx_retry_count = item.tx_retry_count + 1;
                proof {
                    assert(conn@.nfts =~= before.nfts.update(
                        i as int,
                        before.nfts[i as int].submit_failed(opt_text(error)),
                    ));
                }
                TxOutcome::SubmitErrorRecorded
            }
        },
    }
}

/// Names the wallet as the owner of the token, at time `now`.
pub fn nft_assign_owner(
    conn: &mut NFTDatabase,
    wallet_address: String,
    token_id: String,
    now: i64,
) -> (r: TxOutcome)
    ensures
        (final(conn)@, r) == owner_assigned(old(conn)@, wallet_address@, token_id@, now),
        old(conn)@.wf() ==> final(conn)@.wf(),
{
    let ghost before = conn@;
    let ghost g = owner_pred(wallet_address@, token_id@);
    proof {
        if before.wf() {
            lemma_owner_assigned_wf(before, wallet_address@, token_id@, now);
        }
    }
    let found = find_only(
        &conn.nfts,
        &Probe::Owner(wallet_address.as_str(), token_id.as_str()),
    );
    match found {
        None => TxOutcome::NotFound,
        Some(i) => {
            proof {
                lemma_only_match(before.nfts, g, i as int);
                assert(before.nfts[i as int] == conn.nfts@[i as int]@);
            }
            if conn.nfts[i].nft_lite.assigned {
                TxOutcome::AlreadyProcessed
            } else {
                mark_assigned(conn, i, wallet_address.as_str(), Some(now), Some(token_id));
                TxOutcome::Assigned
            }
        },
    }
}


/// How many items have the identifier `id`.
pub open spec fn rows_with_id(nfts: Seq<NftFullView>, id: u128) -> nat {
    nfts.filter(id_pred(id)).len()
}

/// The items after a transaction with the identifier `tx` was submitted
/// for the item `id`.
pub open spec fn hash_recorded(
    nfts: Seq<NftFullView>,
    id: u128,
    tx: Seq<char>,
) -> Seq<NftFullView> {
    Seq::new(
        nfts.len(),
        |i: int|
            if nfts[i].nft_lite.id == id {
                nfts[i].submitted_hash(tx)
            } else {
                nfts[i]
            },
    )
}

/// The items after a signed transaction was handed in for the item `id`.
pub open spec fn payload_recorded(
    nfts: Seq<NftFullView>,
    id: u128,
    signed_tx: Seq<char>,
) -> Seq<NftFullView> {
    Seq::new(
        nfts.len(),
        |i: int|
            if nfts[i].nft_lite.id == id {
                nfts[i].submitted_payload(signed_tx)
            } else {
                nfts[i]
            },
    )
}

/// Recording a submission keeps the invariant of the store.
pub proof fn lemma_submission_wf(db: NFTDatabaseView, id: u128, handle: Seq<char>)
    requires
        db.wf(),
    ensures
        (NFTDatabaseView { nfts: hash_recorded(db.nfts, id, handle), ..db }).wf(),
        (NFTDatabaseView { nfts: payload_recorded(db.nfts, id, handle), ..db }).wf(),
{
    let a = hash_recorded(db.nfts, id, handle);
    let b = payload_recorded(db.nfts, id, handle);
    assert forall|i: int| 0 <= i < a.len() implies (#[trigger] a[i]).wf() by {
        assert(db.nfts[i].wf());
    }
    assert forall|i: int| 0 <= i < b.len() implies (#[trigger] b[i]).wf() by {
        assert(db.nfts[i].wf());
    }
    assert forall|i: int, j: int| 0 <= i < j < a.len() implies (#[trigger] a[i]).nft_lite.id != (
    #[trigger] a[j]).nft_lite.id by {
        assert(db.nfts[i].nft_lite.id != db.nfts[j].nft_lite.id);
    }
    assert forall|i: int, j: int| 0 <= i < j < b.len() implies (#[trigger] b[i]).nft_lite.id != (
    #[trigger] b[j]).nft_lite.id by {
        assert(db.nfts[i].nft_lite.id != db.nfts[j].nft_lite.id);
    }
}

/// Records the identifier of the transaction submitted for the item and
/// puts the item in process. Returns the number of items updated: one where
/// the item exists, none where it does not.
pub fn set_tx_hash_for_nft(conn: &mut NFTDatabase, nft_id: u128, tx_hash: &str) -> (r: u64)
    ensures
        final(conn)@ == (NFTDatabaseView {
            nfts: hash_recorded(old(conn)@.nfts, nft_id, tx_hash@),
            ..old(conn)@
        }),
        r == rows_with_id(old(conn)@.nfts, nft_id),
        old(conn)@.wf() ==> final(conn)@.wf(),
{
    let ghost before = conn@.nfts;
    proof {
        if old(conn)@.wf() {
            lemma_submission_wf(old(conn)@, nft_id, tx_hash@);
        }
    }
    let ghost f = id_pred(nft_id);
    let n: usize = conn.nfts.len();
    let mut rows: u64 = 0;
    let mut j: usize = 0;
    proof {
        reveal(Seq::filter);
        assert(before.take(0).filter(f) =~= Seq::<NftFullView>::empty());
    }
    while j < n
        invariant
            j <= n,
            n == conn.nfts.len(),
            before.len() == n,
            f == id_pred(nft_id),
            conn.stages == old(conn).stages,
            conn.wallet_whitelist == old(conn).wallet_whitelist,
            rows == before.take(j as int).filter(f).len(),
            rows <= j,
            forall|k: int| j <= k < n ==> (#[trigger] conn.nfts@[k])@ == before[k],
            forall|k: int|
                0 <= k < j ==> (#[trigger] conn.nfts@[k])@ == hash_recorded(
                    before,
                    nft_id,
                    tx_hash@,
                )[k],
        decreases n - j,
    {
        proof {
            reveal(Seq::filter);
            assert(before.take(j as int + 1).drop_last() =~= before.take(j as int));
            assert(before.take(j as int + 1).last() == before[j as int]);
            assert(conn.nfts@[j as int]@ == before[j as int]);
        }
        let item = &mut conn.nfts[j];
        if item.nft_lite.id == nft_id {
            item.nft_lite.txhash = Some(owned(tx_hash));
            item.nft_lite.in_process = true;
            item.nft_lite.has_submit_error = false;
            rows = rows + 1;
        }
        j = j + 1;
    }
    proof {
        assert(before.take(j as int) =~= before);
        assert(conn@.nfts =~= hash_recorded(before, nft_id, tx_hash@));
    }
    rows
}

/// Records the signed transaction handed in for the item and puts the item
/// in process. Returns the number of items updated: one where the item
/// exists, none where it does not.
pub fn set_tx_for_nft(conn: &mut NFTDatabase, nft_id: u128, signed_tx: &str) -> (r: u64)
    ensures
        final(conn)@ == (NFTDatabaseView {
            nfts: payload_recorded(old(conn)@.nfts, nft_id, signed_tx@),
            ..old(conn)@
        }),
        r == rows_with_id(old(conn)@.nfts, nft_id),
        old(conn)@.wf() ==> final(conn)@.wf(),
{
    let ghost before = conn@.nfts;
    proof {
        if old(conn)@.wf() {
            lemma_submission_wf(old(conn)@, nft_id, signed_tx@);
        }
    }
    let ghost f = id_pred(nft_id);
    let n: usize = conn.nfts.len();
    let mut rows: u64 = 0;
    let mut j: usize = 0;
    proof {
        reveal(Seq::filter);
        assert(before.take(0).filter(f) =~= Seq::<NftFullView>::empty());
    }
    while j < n
        invariant
            j <= n,
            n == conn.nfts.len(),
            before.len() == n,
            f == id_pred(nft_id),
            conn.stages == old(conn).stages,
            conn.wallet_whitelist == old(conn).wallet_whitelist,
            rows == before.take(j as int).filter(f).len(),
            rows <= j,
            forall|k: int| j <= k < n ==> (#[trigger] conn.nfts@[k])@ == before[k],
            forall|k: int|
                0 <= k < j ==> (#[trigger] conn.nfts@[k])@ == payload_recorded(
                    before,
                    nft_id,
                    signed_tx@,
                )[k],
        decreases n - j,
    {
        proof {
            reveal(Seq::filter);
            assert(before.take(j as int + 1).drop_last() =~= before.take(j as int));
            assert(before.take(j as int + 1).last() == before[j as int]);
            assert(conn.nfts@[j as int]@ == before[j as int]);
        }
        let item = &mut conn.nfts[j];
        if item.nft_lite.id == nft_id {
            item.signed_packet = Some(owned(signed_tx));
            item.nft_lite.in_process = true;
            item.nft_lite.has_submit_error = false;
            rows = rows + 1;
        }
        j = j + 1;
    }
    proof {
        assert(before.take(j as int) =~= before);
        assert(conn@.nfts =~= payload_recorded(before, nft_id, signed_tx@));
    }
    rows
}

/// `i` is the first position that holds an item with the identifier `id`.
pub open spec fn is_first_with_id(nfts: Seq<NftFullView>, id: u128, i: int) -> bool {
    &&& 0 <= i < nfts.len()
    &&& nfts[i].nft_lite.id == id
    &&& forall|j: int| 0 <= j < i ==> (#[trigger] nfts[j]).nft_lite.id != id
}

/// Some item has the identifier `id`.
pub open spec fn has_id(nfts: Seq<NftFullView>, id: u128) -> bool {
    exists|i: int| 0 <= i < nfts.len() && (#[trigger] nfts[i]).nft_lite.id == id
}

/// The text of the failure to find an item.
pub open spec fn nft_not_found_message() -> Seq<char> {
    "NFT not found"@
}

/// The position of the first item with the identifier, if there is one.
pub fn find_nft(conn: &NFTDatabase, nft_id: u128) -> (r: Option<usize>)
    ensures
        r is Some <==> has_id(conn@.nfts, nft_id),
        r matches Some(i) ==> is_first_with_id(conn@.nfts, nft_id, i as int),
{
    let ghost views = conn@.nfts;
    let mut i: usize = 0;
    while i < conn.nfts.len()
        invariant
            i <= conn.nfts.len(),
            views == conn@.nfts,
            forall|j: int| 0 <= j < i ==> (#[trigger] views[j]).nft_lite.id != nft_id,
        decreases conn.nfts.len() - i,
    {
        if conn.nfts[i].nft_lite.id == nft_id {
            proof {
                assert(views[i as int].nft_lite.id == nft_id);
            }
            return Some(i);
        }
        i = i + 1;
    }
    None
}

/// A copy of the item with the identifier. Fails with status 404 where
/// there is none.
pub fn get_nft(conn: &NFTDatabase, nft_id: u128) -> (r: Result<NftFull, (u16, ErrorResponse)>)
    ensures
        r is Ok <==> has_id(conn@.nfts, nft_id),
        r matches Ok(n) ==> exists|i: int|
            is_first_with_id(conn@.nfts, nft_id, i) && n@ == conn@.nfts[i],
        r matches Err(e) ==> e.0 == 404 && e.1.is(404, nft_not_found_message()),
{
    match find_nft(conn, nft_id) {
        Some(i) => {
            proof {
                assert(conn@.nfts[i as int] == conn.nfts@[i as int]@);
            }
            Ok(conn.nfts[i].clone())
        },
        None => Err((404, ErrorResponse::new(404, "NFT not found"))),
    }
}

} // verus!
