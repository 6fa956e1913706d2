//! The persisted records (items, tiers, per-wallet tier allowances) and
//! what the engine reads from them.
//!
//! Timestamps are microseconds since the Unix epoch (UTC); identifiers are
//! the 128-bit value of a UUID.

use vstd::prelude::*;
use crate::requests::{Metadata, MetadataView};
use crate::text::{clone_opt, opt_is, opt_text, str_eq};

verus! {

/// The mutable core of an item.
#[derive(Debug, PartialEq, Eq)]
pub struct NFT {
    pub id: u128,
    pub name: String,
    pub assigned: bool,
    pub reserved: bool,
    pub has_submit_error: bool,
    pub reserved_until: Option<i64>,
    pub in_process: bool,
    pub txhash: Option<String>,
}

/// What a `NFT` holds, with its texts as sequences of characters.
pub struct NFTView {
    pub id: u128,
    pub name: Seq<char>,
    pub assigned: bool,
    pub reserved: bool,
    pub has_submit_error: bool,
    pub reserved_until: Option<i64>,
    pub in_process: bool,
    pub txhash: Option<Seq<char>>,
}

impl View for NFT {
    type V = NFTView;

    open spec fn view(&self) -> NFTView {
        NFTView {
            id: self.id,
            name: self.name@,
            assigned: self.assigned,
            reserved: self.reserved,
            has_submit_error: self.has_submit_error,
            reserved_until: self.reserved_until,
            in_process: self.in_process,
            txhash: opt_text(self.txhash),
        }
    }
}

impl NFTView {
    /// The holder can still act on the reservation at time `now`: the item
    /// is reserved, and its deadline has not passed or a submit error is
    /// outstanding. An item under retry stays with its holder whatever the
    /// deadline.
    pub open spec fn reservation_valid(self, now: i64) -> bool {
        self.reserved && (self.has_submit_error || (self.reserved_until matches Some(t) && t
            >= now))
    }
}

impl Clone for NFT {
    fn clone(&self) -> (r: NFT)
        ensures
            r == *self,
    {
        NFT {
            id: self.id,
            name: self.name.clone(),
            assigned: self.assigned,
            reserved: self.reserved,
            has_submit_error: self.has_submit_error,
            reserved_until: self.reserved_until,
            in_process: self.in_process,
            txhash: clone_opt(&self.txhash),
        }
    }
}

/// An item of the inventory: its mutable core, its immutable payload and
/// the record of its reservation and minting.
#[derive(Debug, PartialEq, Eq)]
pub struct NftFull {
    pub nft_lite: NFT,
    pub meta_data: Metadata,
    pub svg: String,
    pub ipfs_image: String,
    pub ipfs_meta: String,
    pub image_data: Option<String>,
    pub external_url: Option<String>,
    pub description: Option<String>,
    pub background_color: Option<String>,
    pub animation_url: Option<String>,
    pub youtube_url: Option<String>,
    pub assigned_on: Option<i64>,
    pub assigned_to_wallet_address: Option<String>,
    pub reserved_to_wallet_address: Option<String>,
    pub signed_packet: Option<String>,
    pub in_mint_run: bool,
    pub tx_error: Option<String>,
    pub tx_retry_count: i32,
    pub token_id: Option<String>,
}

/// What a `NftFull` holds, with its texts as sequences of characters.
pub struct NftFullView {
    pub nft_lite: NFTView,
    pub meta_data: MetadataView,
    pub svg: Seq<char>,
    pub ipfs_image: Seq<char>,
    pub ipfs_meta: Seq<char>,
    pub image_data: Option<Seq<char>>,
    pub external_url: Option<Seq<char>>,
    pub description: Option<Seq<char>>,
    pub background_color: Option<Seq<char>>,
    pub animation_url: Option<Seq<char>>,
    pub youtube_url: Option<Seq<char>>,
    pub assigned_on: Option<i64>,
    pub assigned_to_wallet_address: Option<Seq<char>>,
    pub reserved_to_wallet_address: Option<Seq<char>>,
    pub signed_packet: Option<Seq<char>>,
    pub in_mint_run: bool,
    pub tx_error: Option<Seq<char>>,
    pub tx_retry_count: i32,
    pub token_id: Option<Seq<char>>,
}

impl View for NftFull {
    type V = NftFullView;

    open spec fn view(&self) -> NftFullView {
        NftFullView {
            nft_lite: self.nft_lite@,
            meta_data: self.meta_data@,
            svg: self.svg@,
            ipfs_image: self.ipfs_image@,
            ipfs_meta: self.ipfs_meta@,
            image_data: opt_text(self.image_data),
            external_url: opt_text(self.external_url),
            description: opt_text(self.description),
            background_color: opt_text(self.background_color),
            animation_url: opt_text(self.animation_url),
            youtube_url: opt_text(self.youtube_url),
            assigned_on: self.assigned_on,
            assigned_to_wallet_address: opt_text(self.assigned_to_wallet_address),
            reserved_to_wallet_address: opt_text(self.reserved_to_wallet_address),
            signed_packet: opt_text(self.signed_packet),
            in_mint_run: self.in_mint_run,
            tx_error: opt_text(self.tx_error),
            tx_retry_count: self.tx_retry_count,
            token_id: opt_text(self.token_id),
        }
    }
}

impl Clone for NftFull {
    fn clone(&self) -> (r: NftFull)
        ensures
            r@ == self@,
    {
        NftFull {
            nft_lite: self.nft_lite.clone(),
            meta_data: self.meta_data.clone(),
            svg: self.svg.clone(),
            ipfs_image: self.ipfs_image.clone(),
            ipfs_meta: self.ipfs_meta.clone(),
            image_data: clone_opt(&self.image_data),
            external_url: clone_opt(&self.external_url),
            description: clone_opt(&self.description),
            background_color: clone_opt(&self.background_color),
            animation_url: clone_opt(&self.animation_url),
            youtube_url: clone_opt(&self.youtube_url),
            assigned_on: self.assigned_on,
            assigned_to_wallet_address: clone_opt(&self.assigned_to_wallet_address),
            reserved_to_wallet_address: clone_opt(&self.reserved_to_wallet_address),
            signed_packet: clone_opt(&self.signed_packet),
            in_mint_run: self.in_mint_run,
            tx_error: clone_opt(&self.tx_error),
            tx_retry_count: self.tx_retry_count,
            token_id: clone_opt(&self.token_id),
        }
    }
}

/// Where an item stands in the mint lifecycle.
#[derive(Debug, PartialEq, Eq, Clone, Copy, Structural)]
pub enum MintState {
    Available,
    Reserved,
    InProcess,
    SubmitError,
    Assigned,
}

/// Which items a tier may draw.
pub enum StagePredicateView {
    /// any item
    Unrestricted,
    /// items whose attribute list holds this trait and value
    AttributeFilter { trait_type: Seq<char>, value: Seq<char> },
    /// items with exactly this name
    ExactName { name: Seq<char> },
}

/// Which items a tier may draw.
#[derive(Debug, PartialEq, Eq)]
pub enum StagePredicate {
    /// any item
    Unrestricted,
    /// items whose attribute list holds this trait and value
    AttributeFilter { trait_type: String, value: String },
    /// items with exactly this name
    ExactName { name: String },
}

impl View for StagePredicate {
    type V = StagePredicateView;

    open spec fn view(&self) -> StagePredicateView {
        match *self {
            StagePredicate::Unrestricted => StagePredicateView::Unrestricted,
            StagePredicate::AttributeFilter { trait_type, value } => StagePredicateView::AttributeFilter {
                trait_type: trait_type@,
                value: value@,
            },
            StagePredicate::ExactName { name } => StagePredicateView::ExactName { name: name@ },
        }
    }
}

impl NftFullView {
    /// The invariant of an item: an assigned item is no longer reserved and
    /// names its owner.
    pub open spec fn wf(self) -> bool {
        self.nft_lite.assigned ==> !self.nft_lite.reserved
            && self.assigned_to_wallet_address is Some
    }

    /// The hold on this item has a deadline and it has passed.
    pub open spec fn reservation_expired(self, now: i64) -> bool {
        self.nft_lite.reserved_until matches Some(t) && t < now
    }

    /// The hold on this item has a deadline that has not been reached.
    pub open spec fn reservation_running(self, now: i64) -> bool {
        self.nft_lite.reserved_until matches Some(t) && t > now
    }

    /// The item can be claimed: it is not assigned, not in process, not
    /// reserved (or the reservation has expired), and has no outstanding
    /// submit error.
    pub open spec fn available(self, now: i64) -> bool {
        &&& !self.nft_lite.assigned
        &&& !self.nft_lite.in_process
        &&& (!self.nft_lite.reserved || self.reservation_expired(now))
        &&& !self.nft_lite.has_submit_error
    }

    /// The attribute list holds an entry with this trait and value.
    pub open spec fn has_attribute(self, trait_type: Seq<char>, value: Seq<char>) -> bool {
        self.meta_data.attributes matches Some(a) && exists|i: int|
            0 <= i < a.len() && (#[trigger] a[i]).trait_type == trait_type && a[i].value == value
    }

    /// The tier's predicate admits this item.
    pub open spec fn admitted_by(self, p: StagePredicateView) -> bool {
        match p {
            StagePredicateView::Unrestricted => true,
            StagePredicateView::AttributeFilter { trait_type, value } => self.has_attribute(
                trait_type,
                value,
            ),
            StagePredicateView::ExactName { name } => self.nft_lite.name == name,
        }
    }

    /// The item can be claimed through a tier with predicate `p`.
    pub open spec fn eligible(self, p: StagePredicateView, now: i64) -> bool {
        self.available(now) && self.admitted_by(p)
    }

    /// The item counts against the quota of `wallet`: the wallet holds a
    /// running reservation on it or has it in process, or owns it.
    pub open spec fn active_for(self, wallet: Seq<char>, now: i64) -> bool {
        ||| self.reserved_to_wallet_address == Some(wallet) && ((self.nft_lite.reserved
            && self.reservation_running(now)) || self.nft_lite.in_process)
        ||| self.assigned_to_wallet_address == Some(wallet)
    }

    /// The state of the item at time `now`. A reservation falls back to
    /// `Available` once its deadline has passed; this is read off the
    /// deadline and is no stored transition.
    pub open spec fn state(self, now: i64) -> MintState {
        if self.nft_lite.assigned {
            MintState::Assigned
        } else if self.nft_lite.has_submit_error {
            MintState::SubmitError
        } else if self.nft_lite.in_process {
            MintState::InProcess
        } else if self.nft_lite.reserved && !self.reservation_expired(now) {
            MintState::Reserved
        } else {
            MintState::Available
        }
    }

    /// The item after `wallet` has claimed it until `reserved_until`.
    pub open spec fn claimed(
        self,
        wallet: Seq<char>,
        reserved_until: i64,
        in_mint_run: bool,
    ) -> NftFullView {
        NftFullView {
            nft_lite: NFTView {
                reserved: true,
                reserved_until: Some(reserved_until),
                ..self.nft_lite
            },
            reserved_to_wallet_address: Some(wallet),
            in_mint_run,
            ..self
        }
    }
}

impl NftFull {
    /// Whether the item can be claimed at time `now`.
    pub fn is_available(&self, now: i64) -> (r: bool)
        ensures
            r == self@.available(now),
    {
        let expired = match self.nft_lite.reserved_until {
            Some(t) => t < now,
            None => false,
        };
        !self.nft_lite.assigned && !self.nft_lite.in_process && (!self.nft_lite.reserved
            || expired) && !self.nft_lite.has_submit_error
    }

    /// Whether the attribute list holds an entry with this trait and value.
    pub fn has_attribute(&self, trait_type: &str, value: &str) -> (r: bool)
        ensures
            r == self@.has_attribute(trait_type@, value@),
    {
        match &self.meta_data.attributes {
            None => false,
            Some(list) => {
                let ghost a = self@.meta_data.attributes->Some_0;
                let mut i: usize = 0;
                while i < list.len()
                    invariant
                        i <= list.len(),
                        a.len() == list.len(),
                        self@.meta_data.attributes == Some(a),
                        forall|k: int| 0 <= k < list.len() ==> a[k] == list@[k]@,
                        forall|k: int|
                            0 <= k < i ==> !((#[trigger] a[k]).trait_type == trait_type@ && a[k].value
                                == value@),
                    decreases list.len() - i,
                {
                    if str_eq(list[i].trait_type.as_str(), trait_type) && str_eq(
                        list[i].value.as_str(),
                        value,
                    ) {
                        proof {
                            assert(a[i as int].trait_type == trait_type@ && a[i as int].value == value@);
                        }
                        return true;
                    }
                    i = i + 1;
                }
                false
            },
        }
    }

    /// Whether the tier's predicate admits the item.
    pub fn is_admitted_by(&self, p: &StagePredicate) -> (r: bool)
        ensures
            r == self@.admitted_by(p@),
    {
        match p {
            StagePredicate::Unrestricted => true,
            StagePredicate::AttributeFilter { trait_type, value } => self.has_attribute(
                trait_type.as_str(),
                value.as_str(),
            ),
            StagePredicate::ExactName { name } => str_eq(self.nft_lite.name.as_str(), name.as_str()),
        }
    }

    /// Whether the item can be claimed through a tier with predicate `p`.
    pub fn is_eligible(&self, p: &StagePredicate, now: i64) -> (r: bool)
        ensures
            r == self@.eligible(p@, now),
    {
        self.is_available(now) && self.is_admitted_by(p)
    }

    /// Whether the item counts against the quota of `wallet`.
    pub fn is_active_for(&self, wallet: &str, now: i64) -> (r: bool)
        ensures
            r == self@.active_for(wallet@, now),
    {
        let running = match self.nft_lite.reserved_until {
            Some(t) => t > now,
            None => false,
        };
        (opt_is(&self.reserved_to_wallet_address, wallet) && ((self.nft_lite.reserved && running)
            || self.nft_lite.in_process)) || opt_is(&self.assigned_to_wallet_address, wallet)
    }

    /// The state of the item at time `now`.
    pub fn state(&self, now: i64) -> (r: MintState)
        ensures
            r == self@.state(now),
    {
        let expired = match self.nft_lite.reserved_until {
            Some(t) => t < now,
            None => false,
        };
        if self.nft_lite.assigned {
            MintState::Assigned
        } else if self.nft_lite.has_submit_error {
            MintState::SubmitError
        } else if self.nft_lite.in_process {
            MintState::InProcess
        } else if self.nft_lite.reserved && !expired {
            MintState::Reserved
        } else {
            MintState::Available
        }
    }

    /// Whether the item meets its invariant.
    pub fn is_well_formed(&self) -> (r: bool)
        ensures
            r == self@.wf(),
    {
        !self.nft_lite.assigned || (!self.nft_lite.reserved
            && self.assigned_to_wallet_address.is_some())
    }
}

/// A whitelist tier.
#[derive(Debug, PartialEq, Eq)]
pub struct Stage {
    pub id: u128,
    pub code: String,
    pub name: String,
    pub attribute_type: Option<String>,
    pub attribute_value: Option<String>,
    pub is_default: bool,
    pub stage_free: bool,
    pub stage_open: i64,
}

/// What a `Stage` holds, with its texts as sequences of characters.
pub struct StageView {
    pub id: u128,
    pub code: Seq<char>,
    pub name: Seq<char>,
    pub attribute_type: Option<Seq<char>>,
    pub attribute_value: Option<Seq<char>>,
    pub is_default: bool,
    pub stage_free: bool,
    pub stage_open: i64,
}

impl View for Stage {
    type V = StageView;

    open spec fn view(&self) -> StageView {
        StageView {
            id: self.id,
            code: self.code@,
            name: self.name@,
            attribute_type: opt_text(self.attribute_type),
            attribute_value: opt_text(self.attribute_value),
            is_default: self.is_default,
            stage_free: self.stage_free,
            stage_open: self.stage_open,
        }
    }
}

impl Clone for Stage {
    fn clone(&self) -> (r: Stage)
        ensures
            r == *self,
    {
        Stage {
            id: self.id,
            code: self.code.clone(),
            name: self.name.clone(),
            attribute_type: clone_opt(&self.attribute_type),
            attribute_value: clone_opt(&self.attribute_value),
            is_default: self.is_default,
            stage_free: self.stage_free,
            stage_open: self.stage_open,
        }
    }
}

/// The code of the promotional tier that draws items by name.
pub open spec fn promotional_code() -> Seq<char> {
    "bagel"@
}

impl StageView {
    /// The tier has opened.
    pub open spec fn is_open(self, now: i64) -> bool {
        self.stage_open < now
    }

    /// The tier names a trait to filter on but no value for it.
    pub open spec fn misconfigured(self) -> bool {
        self.attribute_type is Some && self.attribute_value is None
    }

    /// Which items the tier may draw. A tier without a trait to filter on
    /// draws any item; one with a trait and a value draws the items that
    /// carry them; the promotional tier draws the items whose name is its
    /// value.
    pub open spec fn predicate(self) -> StagePredicateView {
        match (self.attribute_type, self.attribute_value) {
            (Some(t), Some(v)) => if self.code == promotional_code() {
                StagePredicateView::ExactName { name: v }
            } else {
                StagePredicateView::AttributeFilter { trait_type: t, value: v }
            },
            _ => StagePredicateView::Unrestricted,
        }
    }
}

impl Stage {
    /// Whether the tier has opened at time `now`.
    pub fn is_open(&self, now: i64) -> (r: bool)
        ensures
            r == self@.is_open(now),
    {
        self.stage_open < now
    }

    /// Which items the tier may draw, or `None` for a tier that names a
    /// trait to filter on but no value.
    pub fn predicate(&self) -> (r: Option<StagePredicate>)
        ensures
            r is None <==> self@.misconfigured(),
            r matches Some(p) ==> p@ == self@.predicate(),
    {
        match (&self.attribute_type, &self.attribute_value) {
            (Some(t), Some(v)) => {
                if str_eq(self.code.as_str(), "bagel") {
                    Some(StagePredicate::ExactName { name: v.clone() })
                } else {
                    Some(StagePredicate::AttributeFilter { trait_type: t.clone(), value: v.clone() })
                }
            },
            (Some(_), None) => None,
            (None, _) => Some(StagePredicate::Unrestricted),
        }
    }
}

/// What one wallet may draw from one tier, and what it has drawn.
#[derive(Debug, PartialEq, Eq)]
pub struct WalletStageAllocation {
    pub wallet_address: String,
    pub stage: u128,
    pub allocation_count: i32,
    pub reserved_count: i32,
    pub assigned_count: i32,
}

/// What a `WalletStageAllocation` holds, with its texts as sequences of characters.
pub struct WalletStageAllocationView {
    pub wallet_address: Seq<char>,
    pub stage: u128,
    pub allocation_count: i32,
    pub reserved_count: i32,
    pub assigned_count: i32,
}

impl View for WalletStageAllocation {
    type V = WalletStageAllocationView;

    open spec fn view(&self) -> WalletStageAllocationView {
        WalletStageAllocationView {
            wallet_address: self.wallet_address@,
            stage: self.stage,
            allocation_count: self.allocation_count,
            reserved_count: self.reserved_count,
            assigned_count: self.assigned_count,
        }
    }
}

impl Clone for WalletStageAllocation {
    fn clone(&self) -> (r: WalletStageAllocation)
        ensures
            r == *self,
    {
        WalletStageAllocation {
            wallet_address: self.wallet_address.clone(),
            stage: self.stage,
            allocation_count: self.allocation_count,
            reserved_count: self.reserved_count,
            assigned_count: self.assigned_count,
        }
    }
}

impl WalletStageAllocationView {
    /// How many more items the wallet may draw from the tier.
    pub open spec fn remaining(self) -> int {
        self.allocation_count - self.reserved_count - self.assigned_count
    }

    /// The allowance is for `wallet` in tier `stage` and is not used up.
    pub open spec fn grants(self, wallet: Seq<char>, stage: u128) -> bool {
        self.wallet_address == wallet && self.stage == stage && self.remaining() > 0
    }
}

} // verus!

verus! {

impl WalletStageAllocation {
    /// Whether the allowance is for `wallet` in tier `stage` and is not
    /// used up.
    pub fn grants(&self, wallet: &str, stage: u128) -> (r: bool)
        ensures
            r == self@.grants(wallet@, stage),
    {
        str_eq(self.wallet_address.as_str(), wallet) && self.stage == stage && (
        self.allocation_count as i64) - (self.reserved_count as i64) - (self.assigned_count as i64)
            > 0
    }
}

} // verus!
