//! Reservation and allocation of unique tokens from a fixed inventory:
//! whitelist tiers, per-wallet quotas, the atomic claim of an item, and the
//! lifecycle of a claimed item up to its assignment on the chain.

use vstd::prelude::*;

pub mod allocation;
pub mod auth;
pub mod catchers;
pub mod db;
pub mod handlers;
pub mod laws;
pub mod lifecycle;
pub mod models;
pub mod requests;
pub mod selection;
pub mod text;

use crate::models::{NftFull, NftFullView, Stage, StageView, WalletStageAllocation, WalletStageAllocationView};
use crate::text::{owned, str_eq};
use terra_rust_api::PrivateKey;

verus! {

/// The three relations of the store: items, tiers, and what each wallet
/// may draw from each tier.
#[derive(Debug, PartialEq, Eq)]
pub struct NFTDatabase {
    pub nfts: Vec<NftFull>,
    pub stages: Vec<Stage>,
    pub wallet_whitelist: Vec<WalletStageAllocation>,
}

/// What a `NFTDatabase` holds, with its texts as sequences of characters.
pub struct NFTDatabaseView {
    pub nfts: Seq<NftFullView>,
    pub stages: Seq<StageView>,
    pub wallet_whitelist: Seq<WalletStageAllocationView>,
}

/// The views of a list of items, in order.
pub open spec fn nft_views(v: Seq<NftFull>) -> Seq<NftFullView> {
    Seq::new(v.len(), |i: int| v[i]@)
}

/// The views of a list of tiers, in order.
pub open spec fn stage_views(v: Seq<Stage>) -> Seq<StageView> {
    Seq::new(v.len(), |i: int| v[i]@)
}

/// The views of a list of allowances, in order.
pub open spec fn allocation_views(v: Seq<WalletStageAllocation>) -> Seq<WalletStageAllocationView> {
    Seq::new(v.len(), |i: int| v[i]@)
}

impl View for NFTDatabase {
    type V = NFTDatabaseView;

    open spec fn view(&self) -> NFTDatabaseView {
        NFTDatabaseView {
            nfts: nft_views(self.nfts@),
            stages: stage_views(self.stages@),
            wallet_whitelist: allocation_views(self.wallet_whitelist@),
        }
    }
}

impl Clone for NFTDatabase {
    fn clone(&self) -> (r: NFTDatabase)
        ensures
            r@ == self@,
    {
        let mut nfts: Vec<NftFull> = Vec::new();
        let mut i: usize = 0;
        while i < self.nfts.len()
            invariant
                i <= self.nfts.len(),
                nfts@.len() == i,
                forall|k: int| 0 <= k < i ==> (#[trigger] nfts@[k])@ == self.nfts@[k]@,
            decreases self.nfts.len() - i,
        {
            nfts.push(self.nfts[i].clone());
            i = i + 1;
        }
        let mut stages: Vec<Stage> = Vec::new();
        let mut j: usize = 0;
        while j < self.stages.len()
            invariant
                j <= self.stages.len(),
                stages@.len() == j,
                forall|k: int| 0 <= k < j ==> (#[trigger] stages@[k]) == self.stages@[k],
            decreases self.stages.len() - j,
        {
            stages.push(self.stages[j].clone());
            j = j + 1;
        }
        let mut wallet_whitelist: Vec<WalletStageAllocation> = Vec::new();
        let mut l: usize = 0;
        while l < self.wallet_whitelist.len()
            invariant
                l <= self.wallet_whitelist.len(),
                wallet_whitelist@.len() == l,
                forall|k: int|
                    0 <= k < l ==> (#[trigger] wallet_whitelist@[k]) == self.wallet_whitelist@[k],
            decreases self.wallet_whitelist.len() - l,
        {
            wallet_whitelist.push(self.wallet_whitelist[l].clone());
            l = l + 1;
        }
        let r = NFTDatabase { nfts, stages, wallet_whitelist };
        proof {
            assert(r@.nfts =~= self@.nfts);
            assert(r@.stages =~= self@.stages);
            assert(r@.wallet_whitelist =~= self@.wallet_whitelist);
        }
        r
    }
}

impl NFTDatabaseView {
    /// The invariant of the store: every item meets its own invariant, and
    /// no identifier of an item, no identifier of a tier and no pair of
    /// wallet and tier occurs twice.
    pub open spec fn wf(self) -> bool {
        &&& forall|i: int| 0 <= i < self.nfts.len() ==> (#[trigger] self.nfts[i]).wf()
        &&& forall|i: int, j: int|
            0 <= i < j < self.nfts.len() ==> (#[trigger] self.nfts[i]).nft_lite.id
                != (#[trigger] self.nfts[j]).nft_lite.id
        &&& forall|i: int, j: int|
            0 <= i < j < self.stages.len() ==> (#[trigger] self.stages[i]).id
                != (#[trigger] self.stages[j]).id
        &&& forall|i: int, j: int|
            0 <= i < j < self.wallet_whitelist.len() ==> !((
            #[trigger] self.wallet_whitelist[i]).wallet_address
                == (#[trigger] self.wallet_whitelist[j]).wallet_address
                && self.wallet_whitelist[i].stage == self.wallet_whitelist[j].stage)
    }
}

impl NFTDatabase {
    /// A store without items, tiers or allowances.
    pub fn new() -> (r: NFTDatabase)
        ensures
            r@.nfts.len() == 0,
            r@.stages.len() == 0,
            r@.wallet_whitelist.len() == 0,
            r@.wf(),
    {
        NFTDatabase { nfts: Vec::new(), stages: Vec::new(), wallet_whitelist: Vec::new() }
    }

    /// Whether every item meets its invariant and no item shares its
    /// identifier with an earlier one.
    fn items_well_formed(&self) -> (r: bool)
        ensures
            r == ((forall|i: int| 0 <= i < self@.nfts.len() ==> (#[trigger] self@.nfts[i]).wf())
                && (forall|i: int, j: int|
                0 <= i < j < self@.nfts.len() ==> (#[trigger] self@.nfts[i]).nft_lite.id != (
                #[trigger] self@.nfts[j]).nft_lite.id)),
    {
        let ghost views = self@.nfts;
        let mut j: usize = 0;
        while j < self.nfts.len()
            invariant
                j <= self.nfts.len(),
                views == self@.nfts,
                forall|b: int| 0 <= b < j ==> (#[trigger] views[b]).wf(),
                forall|a: int, b: int|
                    0 <= a < b < j ==> (#[trigger] views[a]).nft_lite.id != (
                    #[trigger] views[b]).nft_lite.id,
            decreases self.nfts.len() - j,
        {
            proof {
                assert(views[j as int] == self.nfts@[j as int]@);
            }
            if !self.nfts[j].is_well_formed() {
                return false;
            }
            let mut i: usize = 0;
            while i < j
                invariant
                    i <= j < self.nfts.len(),
                    views == self@.nfts,
                    forall|a: int|
                        0 <= a < i ==> (#[trigger] views[a]).nft_lite.id
                            != views[j as int].nft_lite.id,
                decreases j - i,
            {
                proof {
                    assert(views[i as int] == self.nfts@[i as int]@);
                    assert(views[j as int] == self.nfts@[j as int]@);
                }
                if self.nfts[i].nft_lite.id == self.nfts[j].nft_lite.id {
                    return false;
                }
                i = i + 1;
            }
            j = j + 1;
        }
        true
    }

    /// Whether no tier shares its identifier with an earlier one.
    fn stages_well_formed(&self) -> (r: bool)
        ensures
            r == (forall|i: int, j: int|
                0 <= i < j < self@.stages.len() ==> (#[trigger] self@.stages[i]).id != (
                #[trigger] self@.stages[j]).id),
    {
        let ghost views = self@.stages;
        let mut j: usize = 0;
        while j < self.stages.len()
            invariant
                j <= self.stages.len(),
                views == self@.stages,
                forall|a: int, b: int|
                    0 <= a < b < j ==> (#[trigger] views[a]).id != (#[trigger] views[b]).id,
            decreases self.stages.len() - j,
        {
            let mut i: usize = 0;
            while i < j
                invariant
                    i <= j < self.stages.len(),
                    views == self@.stages,
                    forall|a: int| 0 <= a < i ==> (#[trigger] views[a]).id != views[j as int].id,
                decreases j - i,
            {
                proof {
                    assert(views[i as int] == self.stages@[i as int]@);
                    assert(views[j as int] == self.stages@[j as int]@);
                }
                if self.stages[i].id == self.stages[j].id {
                    return false;
                }
                i = i + 1;
            }
            j = j + 1;
        }
        true
    }

    /// Whether no allowance shares its wallet and tier with an earlier one.
    fn whitelist_well_formed(&self) -> (r: bool)
        ensures
            r == (forall|i: int, j: int|
                0 <= i < j < self@.wallet_whitelist.len() ==> !((
                #[trigger] self@.wallet_whitelist[i]).wallet_address == (
                #[trigger] self@.wallet_whitelist[j]).wallet_address
                    && self@.wallet_whitelist[i].stage == self@.wallet_whitelist[j].stage)),
    {
        let ghost views = self@.wallet_whitelist;
        let mut j: usize = 0;
        while j < self.wallet_whitelist.len()
            invariant
                j <= self.wallet_whitelist.len(),
                views == self@.wallet_whitelist,
                forall|a: int, b: int|
                    0 <= a < b < j ==> !((#[trigger] views[a]).wallet_address == (
                    #[trigger] views[b]).wallet_address && views[a].stage == views[b].stage),
            decreases self.wallet_whitelist.len() - j,
        {
            let mut i: usize = 0;
            while i < j
                invariant
                    i <= j < self.wallet_whitelist.len(),
                    views == self@.wallet_whitelist,
                    forall|a: int|
                        0 <= a < i ==> !((#[trigger] views[a]).wallet_address
                            == views[j as int].wallet_address && views[a].stage
                            == views[j as int].stage),
                decreases j - i,
            {
                proof {
                    assert(views[i as int] == self.wallet_whitelist@[i as int]@);
                    assert(views[j as int] == self.wallet_whitelist@[j as int]@);
                }
                if self.wallet_whitelist[i].stage == self.wallet_whitelist[j].stage && str_eq(
                    self.wallet_whitelist[i].wallet_address.as_str(),
                    self.wallet_whitelist[j].wallet_address.as_str(),
                ) {
                    return false;
                }
                i = i + 1;
            }
            j = j + 1;
        }
        true
    }

    /// Whether the store meets its invariant.
    pub fn is_well_formed(&self) -> (r: bool)
        ensures
            r == self@.wf(),
    {
        self.items_well_formed() && self.stages_well_formed() && self.whitelist_well_formed()
    }
}


/// What the service is configured with.
pub struct ReservationState {
    /// the key that signs the metadata handed to a wallet
    pub signing_key: PrivateKey,
    /// the public key, in base64, that the signatures of requests are
    /// checked against
    pub verification_key: String,
    /// how many active items a wallet may hold
    pub max_reservations: usize,
    /// how far ahead a reservation may reach, in microseconds
    pub max_reservation_duration: i64,
    /// whether a failed signature check is let through
    pub debug_mode: bool,
    pub chain: String,
    pub lcd: String,
    pub fcd: String,
    pub nft_contract: String,
}

/// The origins that may call the service from a browser.
#[derive(Debug, PartialEq, Eq)]
pub struct CORS {
    pub allowed_origins: String,
}

/// The names and values of the headers that allow calls across origins.
pub open spec fn cors_headers(allowed_origins: Seq<char>) -> Seq<(Seq<char>, Seq<char>)> {
    seq![
        ("Access-Control-Allow-Origin"@, allowed_origins),
        ("Access-Control-Allow-Methods"@, "POST, GET, PATCH, OPTIONS"@),
        (
            "Access-Control-Allow-Headers"@,
            "DNT,User-Agent,X-Requested-With,If-Modified-Since,Cache-Control,Content-Type,Range,X-Reservation-Signature"@,
        ),
        ("Access-Control-Allow-Credentials"@, "true"@),
    ]
}

/// The views of a list of headers, in order.
pub open spec fn header_views(v: Seq<(String, String)>) -> Seq<(Seq<char>, Seq<char>)> {
    Seq::new(v.len(), |i: int| (v[i].0@, v[i].1@))
}

impl CORS {
    /// The headers to set on every response.
    pub fn headers(&self) -> (r: Vec<(String, String)>)
        ensures
            header_views(r@) == cors_headers(self.allowed_origins@),
    {
        let mut out: Vec<(String, String)> = Vec::new();
        out.push((owned("Access-Control-Allow-Origin"), self.allowed_origins.clone()));
        out.push((owned("Access-Control-Allow-Methods"), owned("POST, GET, PATCH, OPTIONS")));
        out.push(
            (
                owned("Access-Control-Allow-Headers"),
                owned(
                    "DNT,User-Agent,X-Requested-With,If-Modified-Since,Cache-Control,Content-Type,Range,X-Reservation-Signature",
                ),
            ),
        );
        out.push((owned("Access-Control-Allow-Credentials"), owned("true")));
        proof {
            assert(header_views(out@) =~= cors_headers(self.allowed_origins@));
        }
        out
    }
}

} // verus!
