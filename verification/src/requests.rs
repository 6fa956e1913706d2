//! Request and response records exchanged with callers, and their views.
//!
//! Timestamps are microseconds since the Unix epoch (UTC); identifiers are
//! the 128-bit value of a UUID.

use vstd::prelude::*;
use crate::text::{clone_opt, opt_text, owned};

verus! {

/// A new item to add to the inventory.
#[derive(Debug, PartialEq, Eq)]
pub struct NewNFTRequest {
    pub name: String,
    pub meta: String,
    pub svg: String,
    pub ipfs_image: String,
    pub ipfs_meta: String,
    pub image_data: Option<String>,
    pub external_url: Option<String>,
    pub description: Option<String>,
    pub background_color: Option<String>,
    pub animation_url: Option<String>,
    pub youtube_url: Option<String>,
}

/// The identifier given to a new item.
#[derive(Debug, PartialEq, Eq)]
pub struct NewNFTResponse {
    pub nft_id: u128,
}

/// Whether a name may be given to an item.
#[derive(Debug, PartialEq, Eq)]
pub struct NameNFTResponse {
    pub allowed: bool,
    pub message: Option<String>,
}

/// How many items are in each state of the mint lifecycle.
#[derive(Debug, PartialEq, Eq, Clone, Copy)]
pub struct NFTTallyResponse {
    pub assigned: i64,
    pub reserved: i64,
    pub in_process: i64,
    pub available: i64,
}

/// Counts over the items that a tier can draw from.
#[derive(Debug, PartialEq, Eq, Clone, Copy)]
pub struct NFTTallyStat {
    pub assigned: i64,
    pub reserved: i64,
    pub count: i64,
}

/// The tally of one tier.
#[derive(Debug, PartialEq, Eq)]
pub struct NFTStageTallyStat {
    pub stage_id: u128,
    pub stage_code: String,
    pub stage_name: String,
    pub wallet_count: i64,
    pub stats: NFTTallyStat,
}

/// What a `NFTStageTallyStat` holds, with its texts as sequences of characters.
pub struct NFTStageTallyStatView {
    pub stage_id: u128,
    pub stage_code: Seq<char>,
    pub stage_name: Seq<char>,
    pub wallet_count: i64,
    pub stats: NFTTallyStat,
}

impl View for NFTStageTallyStat {
    type V = NFTStageTallyStatView;

    open spec fn view(&self) -> NFTStageTallyStatView {
        NFTStageTallyStatView {
            stage_id: self.stage_id,
            stage_code: self.stage_code@,
            stage_name: self.stage_name@,
            wallet_count: self.wallet_count,
            stats: self.stats,
        }
    }
}

/// One hold of a wallet on an item, as reported to the wallet.
#[derive(Debug, PartialEq, Eq)]
pub struct Reservation {
    pub wallet_address: String,
    pub nft_id: u128,
    pub reserved: bool,
    pub reserved_until: Option<i64>,
    pub assigned: bool,
    pub assigned_on: Option<i64>,
    pub has_submit_error: bool,
    pub in_process: bool,
    pub tx_hash: Option<String>,
    pub tx_error: Option<String>,
    pub tx_retry_count: i32,
    pub token_id: Option<String>,
}

/// What a `Reservation` holds, with its texts as sequences of characters.
pub struct ReservationView {
    pub wallet_address: Seq<char>,
    pub nft_id: u128,
    pub reserved: bool,
    pub reserved_until: Option<i64>,
    pub assigned: bool,
    pub assigned_on: Option<i64>,
    pub has_submit_error: bool,
    pub in_process: bool,
    pub tx_hash: Option<Seq<char>>,
    pub tx_error: Option<Seq<char>>,
    pub tx_retry_count: i32,
    pub token_id: Option<Seq<char>>,
}

impl View for Reservation {
    type V = ReservationView;

    open spec fn view(&self) -> ReservationView {
        ReservationView {
            wallet_address: self.wallet_address@,
            nft_id: self.nft_id,
            reserved: self.reserved,
            reserved_until: self.reserved_until,
            assigned: self.assigned,
            assigned_on: self.assigned_on,
            has_submit_error: self.has_submit_error,
            in_process: self.in_process,
            tx_hash: opt_text(self.tx_hash),
            tx_error: opt_text(self.tx_error),
            tx_retry_count: self.tx_retry_count,
            token_id: opt_text(self.token_id),
        }
    }
}

/// Request to reserve one item.
#[derive(Debug, PartialEq, Eq)]
pub struct NewReservationRequest {
    /// wallet requesting the reservation
    pub wallet_address: String,
    /// until when to hold the reservation
    pub reserved_until: i64,
}

/// A reserved item with its signed metadata.
#[derive(Debug, PartialEq, Eq)]
pub struct NewReservationResponse {
    pub nft_id: u128,
    pub metadata_response: MetadataResponse,
}

/// Status code and message of a failed request.
#[derive(Debug, PartialEq, Eq)]
pub struct ErrorResponse {
    pub code: u16,
    pub message: String,
}

impl ErrorResponse {
    /// Whether this response carries `code` and the text `message`.
    pub open spec fn is(&self, code: u16, message: Seq<char>) -> bool {
        self.code == code && self.message@ == message
    }

    pub fn new(code: u16, message: &str) -> (r: ErrorResponse)
        ensures
            r.is(code, message@),
    {
        ErrorResponse { code, message: owned(message) }
    }
}

/// One typed attribute of an item.
#[derive(Debug, PartialEq, Eq)]
pub struct Trait {
    pub display_type: Option<String>,
    pub trait_type: String,
    pub value: String,
}

/// What a `Trait` holds, with its texts as sequences of characters.
pub struct TraitView {
    pub display_type: Option<Seq<char>>,
    pub trait_type: Seq<char>,
    pub value: Seq<char>,
}

impl View for Trait {
    type V = TraitView;

    open spec fn view(&self) -> TraitView {
        TraitView {
            display_type: opt_text(self.display_type),
            trait_type: self.trait_type@,
            value: self.value@,
        }
    }
}

impl Clone for Trait {
    fn clone(&self) -> (r: Trait)
        ensures
            r == *self,
    {
        Trait {
            display_type: clone_opt(&self.display_type),
            trait_type: self.trait_type.clone(),
            value: self.value.clone(),
        }
    }
}

/// The views of a list of attributes, in order.
pub open spec fn traits_view(v: Seq<Trait>) -> Seq<TraitView> {
    Seq::new(v.len(), |i: int| v[i]@)
}

/// The view of an optional list of attributes.
pub open spec fn opt_traits_view(o: Option<Vec<Trait>>) -> Option<Seq<TraitView>> {
    match o {
        Some(v) => Some(traits_view(v@)),
        None => None,
    }
}

/// The metadata of an item: fixed optional fields and a typed attribute list.
#[derive(Debug, PartialEq, Eq)]
pub struct Metadata {
    pub token_uri: String,
    pub image: Option<String>,
    pub image_data: Option<String>,
    pub external_url: Option<String>,
    pub description: Option<String>,
    pub name: Option<String>,
    pub attributes: Option<Vec<Trait>>,
    pub background_color: Option<String>,
    pub animation_url: Option<String>,
    pub youtube_url: Option<String>,
}

/// What a `Metadata` holds, with its texts as sequences of characters.
pub struct MetadataView {
    pub token_uri: Seq<char>,
    pub image: Option<Seq<char>>,
    pub image_data: Option<Seq<char>>,
    pub external_url: Option<Seq<char>>,
    pub description: Option<Seq<char>>,
    pub name: Option<Seq<char>>,
    pub attributes: Option<Seq<TraitView>>,
    pub background_color: Option<Seq<char>>,
    pub animation_url: Option<Seq<char>>,
    pub youtube_url: Option<Seq<char>>,
}

impl View for Metadata {
    type V = MetadataView;

    open spec fn view(&self) -> MetadataView {
        MetadataView {
            token_uri: self.token_uri@,
            image: opt_text(self.image),
            image_data: opt_text(self.image_data),
            external_url: opt_text(self.external_url),
            description: opt_text(self.description),
            name: opt_text(self.name),
            attributes: opt_traits_view(self.attributes),
            background_color: opt_text(self.background_color),
            animation_url: opt_text(self.animation_url),
            youtube_url: opt_text(self.youtube_url),
        }
    }
}

/// A copy of a list of attributes.
pub fn clone_traits(v: &Vec<Trait>) -> (r: Vec<Trait>)
    ensures
        r@ == v@,
{
    let mut out: Vec<Trait> = Vec::new();
    let mut i: usize = 0;
    while i < v.len()
        invariant
            i <= v.len(),
            out@ == v@.take(i as int),
        decreases v.len() - i,
    {
        out.push(v[i].clone());
        proof {
            assert(v@.take(i as int + 1) =~= v@.take(i as int).push(v@[i as int]));
        }
        i = i + 1;
    }
    proof {
        assert(v@.take(v.len() as int) =~= v@);
    }
    out
}

impl Clone for Metadata {
    fn clone(&self) -> (r: Metadata)
        ensures
            r@ == self@,
    {
        let attributes = match &self.attributes {
            Some(v) => Some(clone_traits(v)),
            None => None,
        };
        Metadata {
            token_uri: self.token_uri.clone(),
            image: clone_opt(&self.image),
            image_data: clone_opt(&self.image_data),
            external_url: clone_opt(&self.external_url),
            description: clone_opt(&self.description),
            name: clone_opt(&self.name),
            attributes,
            background_color: clone_opt(&self.background_color),
            animation_url: clone_opt(&self.animation_url),
            youtube_url: clone_opt(&self.youtube_url),
        }
    }
}

/// The serialized metadata of an item and the signature over it.
#[derive(Debug, PartialEq, Eq)]
pub struct MetadataResponse {
    pub attributes: String,
    pub signature: String,
}

/// Records the hash of the transaction that assigns an item.
#[derive(Debug, PartialEq, Eq)]
pub struct AssignHashRequest {
    /// wallet holding the reservation
    pub wallet_address: String,
    pub nft_id: u128,
    /// hash of the submitted transaction
    pub tx_hash: String,
}

/// Records the signed transaction that assigns an item.
#[derive(Debug, PartialEq, Eq)]
pub struct AssignSignedTxRequest {
    /// wallet holding the reservation
    pub wallet_address: String,
    pub nft_id: u128,
    /// the signed transaction
    pub signed_tx: String,
}

/// The outcome of a submitted transaction, as found on the chain.
#[derive(Debug, PartialEq, Eq)]
pub struct ReservationTxResultRequest {
    /// hash of the transaction
    pub tx: String,
    pub wallet_address: Option<String>,
    pub assigned_on: Option<i64>,
    pub token_id: Option<String>,
    pub success: bool,
    pub error: Option<String>,
}

/// A wallet's allowance in one tier, with what it has drawn so far.
#[derive(Debug, PartialEq, Eq)]
pub struct OpenStageWallet {
    pub wallet_address: String,
    pub stage_id: u128,
    pub allocated: i32,
    pub reserved: i32,
    pub assigned: i32,
}

/// What a `OpenStageWallet` holds, with its texts as sequences of characters.
pub struct OpenStageWalletView {
    pub wallet_address: Seq<char>,
    pub stage_id: u128,
    pub allocated: i32,
    pub reserved: i32,
    pub assigned: i32,
}

impl View for OpenStageWallet {
    type V = OpenStageWalletView;

    open spec fn view(&self) -> OpenStageWalletView {
        OpenStageWalletView {
            wallet_address: self.wallet_address@,
            stage_id: self.stage_id,
            allocated: self.allocated,
            reserved: self.reserved,
            assigned: self.assigned,
        }
    }
}

impl OpenStageWalletView {
    /// How many more items the wallet may draw from the tier.
    pub open spec fn remaining(self) -> int {
        self.allocated - self.assigned - self.reserved
    }
}

/// An item claimed for a wallet, with what is needed to mint it.
#[derive(Debug, PartialEq, Eq)]
pub struct MintReservation {
    /// wallet holding the reservation
    pub wallet_address: String,
    pub nft_id: u128,
    pub meta_data: Metadata,
}

/// What a `MintReservation` holds, with its texts as sequences of characters.
pub struct MintReservationView {
    pub wallet_address: Seq<char>,
    pub nft_id: u128,
    pub meta_data: MetadataView,
}

impl View for MintReservation {
    type V = MintReservationView;

    open spec fn view(&self) -> MintReservationView {
        MintReservationView {
            wallet_address: self.wallet_address@,
            nft_id: self.nft_id,
            meta_data: self.meta_data@,
        }
    }
}

/// Names the owner of a minted token directly.
#[derive(Debug, PartialEq, Eq)]
pub struct AssignOwner {
    pub token_id: String,
    pub wallet_address: String,
}

} // verus!
