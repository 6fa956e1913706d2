//! Requests on the inventory: its tallies, the public face of an item,
//! and the addition of an item.

use vstd::prelude::*;
use crate::auth::SignatureB64;
use crate::db::{
    get_nft_stat, get_stages, insert_nft, stage_listed, tally_assigned_pred, tally_pred,
    tally_reserved_pred, duplicate_message,
};
use crate::handlers::{
    is_signed, refuse, refused_signature, refused_with, require_signature, route, route_views, Method, Refusal,
    RouteInfo, RouteInfoView,
};
use crate::lifecycle::{find_nft, has_id, nft_not_found_message};
use crate::handlers::mint::{first_with_id, lemma_first_with_id};
use crate::models::{NFTView, NftFull, NftFullView, StageView, NFT};
use crate::requests::{
    ErrorResponse, Metadata, NFTStageTallyStat, NFTStageTallyStatView, NFTTallyResponse,
    NFTTallyStat, NewNFTRequest, NewNFTResponse,
};
use crate::text::{clone_opt, opt_text, owned};
use crate::{NFTDatabase, NFTDatabaseView, ReservationState};

verus! {

/// Tells whether an item is assigned.
pub open spec fn assigned_pred() -> spec_fn(NftFullView) -> bool {
    |n: NftFullView| n.nft_lite.assigned
}

/// Tells whether an item is held under a running reservation and neither
/// assigned nor in process.
pub open spec fn held_pred(now: i64) -> spec_fn(NftFullView) -> bool {
    |n: NftFullView|
        n.nft_lite.reserved && n.reservation_running(now) && !n.nft_lite.assigned
            && !n.nft_lite.in_process
}

/// Tells whether an item is in process.
pub open spec fn in_process_pred() -> spec_fn(NftFullView) -> bool {
    |n: NftFullView| n.nft_lite.in_process
}

/// Tells whether an item is free: neither assigned nor in process, and
/// not reserved or reserved until a time that has been reached.
pub open spec fn free_pred(now: i64) -> spec_fn(NftFullView) -> bool {
    |n: NftFullView|
        !n.nft_lite.assigned && !n.nft_lite.in_process && (!n.nft_lite.reserved || (
        n.nft_lite.reserved_until matches Some(t) && t <= now))
}

/// How many items are assigned, held, in process and free at time `now`.
pub fn index(conn: &NFTDatabase, now: i64) -> (r: (u16, Result<NFTTallyResponse, ErrorResponse>))
    requires
        conn@.nfts.len() <= i64::MAX,
    ensures
        r.0 == 200,
        r.1 matches Ok(t) && {
            &&& t.assigned == conn@.nfts.filter(assigned_pred()).len()
            &&& t.reserved == conn@.nfts.filter(held_pred(now)).len()
            &&& t.in_process == conn@.nfts.filter(in_process_pred()).len()
            &&& t.available == conn@.nfts.filter(free_pred(now)).len()
        },
{
    let ghost views = conn@.nfts;
    let ghost fa = assigned_pred();
    let ghost fh = held_pred(now);
    let ghost fp = in_process_pred();
    let ghost ff = free_pred(now);
    let mut assigned: i64 = 0;
    let mut reserved: i64 = 0;
    let mut in_process: i64 = 0;
    let mut available: i64 = 0;
    let mut i: usize = 0;
    proof {
        reveal(Seq::filter);
        assert(views.take(0).filter(fa) =~= Seq::<NftFullView>::empty());
        assert(views.take(0).filter(fh) =~= Seq::<NftFullView>::empty());
        assert(views.take(0).filter(fp) =~= Seq::<NftFullView>::empty());
        assert(views.take(0).filter(ff) =~= Seq::<NftFullView>::empty());
    }
    while i < conn.nfts.len()
        invariant
            i <= conn.nfts.len(),
            conn@.nfts.len() <= i64::MAX,
            views == conn@.nfts,
            fa == assigned_pred(),
            fh == held_pred(now),
            fp == in_process_pred(),
            ff == free_pred(now),
            assigned == views.take(i as int).filter(fa).len(),
            reserved == views.take(i as int).filter(fh).len(),
            in_process == views.take(i as int).filter(fp).len(),
            available == views.take(i as int).filter(ff).len(),
            0 <= assigned <= i,
            0 <= reserved <= i,
            0 <= in_process <= i,
            0 <= available <= i,
        decreases conn.nfts.len() - i,
    {
        let n = &conn.nfts[i].nft_lite;
        proof {
            reveal(Seq::filter);
            assert(views.take(i as int + 1).drop_last() =~= views.take(i as int));
            assert(views.take(i as int + 1).last() == conn.nfts@[i as int]@);
        }
        let running = match n.reserved_until {
            Some(t) => t > now,
            None => false,
        };
        let over = match n.reserved_until {
            Some(t) => t <= now,
            None => false,
        };
        if n.assigned {
            assigned = assigned + 1;
        }
        if n.reserved && running && !n.assigned && !n.in_process {
            reserved = reserved + 1;
        }
        if n.in_process {
            in_process = in_process + 1;
        }
        if !n.assigned && !n.in_process && (!n.reserved || over) {
            available = available + 1;
        }
        i = i + 1;
    }
    proof {
        assert(views.take(i as int) =~= views);
    }
    (200, Ok(NFTTallyResponse { assigned, reserved, in_process, available }))
}

/// The tally of a tier: the counts over the items that it can draw, or
/// -1 in each place for a tier that names a trait without a value.
pub open spec fn stage_tally(nfts: Seq<NftFullView>, s: StageView) -> NFTTallyStat {
    if s.misconfigured() {
        NFTTallyStat { assigned: -1i64, reserved: -1i64, count: -1i64 }
    } else {
        NFTTallyStat {
            assigned: nfts.filter(tally_assigned_pred(s.attribute_type, s.attribute_value)).len() as i64,
            reserved: nfts.filter(tally_reserved_pred(s.attribute_type, s.attribute_value)).len() as i64,
            count: nfts.filter(tally_pred(s.attribute_type, s.attribute_value)).len() as i64,
        }
    }
}

/// What is reported of a tier: its identifier, code and name, its tally,
/// and -1 for the number of its wallets, which is not counted.
pub open spec fn stage_stat(nfts: Seq<NftFullView>, s: StageView) -> NFTStageTallyStatView {
    NFTStageTallyStatView {
        stage_id: s.id,
        stage_code: stage_listed(s).code,
        stage_name: s.name,
        wallet_count: -1i64,
        stats: stage_tally(nfts, s),
    }
}

/// The views of a list of tier reports, in order.
pub open spec fn stat_views(v: Seq<NFTStageTallyStat>) -> Seq<NFTStageTallyStatView> {
    Seq::new(v.len(), |i: int| v[i]@)
}

/// The tally of every tier, in the order of the store.
pub fn get_stage_stats(conn: &NFTDatabase) -> (r: (
    u16,
    Result<Vec<NFTStageTallyStat>, ErrorResponse>,
))
    requires
        conn@.nfts.len() <= i64::MAX,
    ensures
        r.0 == 200,
        r.1 matches Ok(v) && stat_views(v@) == conn@.stages.map_values(
            |s: StageView| stage_stat(conn@.nfts, s),
        ),
{
    let stages = get_stages(conn);
    let ghost tiers = conn@.stages;
    let ghost nfts = conn@.nfts;
    let ghost m = |s: StageView| stage_stat(nfts, s);
    let mut out: Vec<NFTStageTallyStat> = Vec::new();
    let mut i: usize = 0;
    proof {
        assert(crate::stage_views(stages@).len() == stages@.len());
    }
    while i < stages.len()
        invariant
            i <= stages.len(),
            stages@.len() == tiers.len(),
            tiers == conn@.stages,
            nfts == conn@.nfts,
            nfts.len() <= i64::MAX,
            m == (|s: StageView| stage_stat(nfts, s)),
            crate::stage_views(stages@) == tiers.map_values(|s: StageView| stage_listed(s)),
            stat_views(out@) == tiers.take(i as int).map_values(m),
        decreases stages.len() - i,
    {
        let s = &stages[i];
        proof {
            assert(crate::stage_views(stages@)[i as int] == s@);
            assert(s@ == stage_listed(tiers[i as int]));
        }
        let stats = match get_nft_stat(conn, &s.attribute_type, &s.attribute_value) {
            Ok(t) => t,
            Err(_) => NFTTallyStat { assigned: -1, reserved: -1, count: -1 },
        };
        let ghost prior = out@;
        out.push(
            NFTStageTallyStat {
                stage_id: s.id,
                stage_code: s.code.clone(),
                stage_name: s.name.clone(),
                wallet_count: -1,
                stats,
            },
        );
        proof {
            let t = tiers[i as int];
            nfts.lemma_filter_len(tally_assigned_pred(t.attribute_type, t.attribute_value));
            nfts.lemma_filter_len(tally_reserved_pred(t.attribute_type, t.attribute_value));
            nfts.lemma_filter_len(tally_pred(t.attribute_type, t.attribute_value));
            assert(stats == stage_tally(nfts, t));
            assert(stat_views(out@) =~= stat_views(prior).push(m(t)));
            assert(tiers.take(i as int + 1) =~= tiers.take(i as int).push(t));
            assert(tiers.take(i as int).push(t).map_values(m) =~= tiers.take(i as int).map_values(
                m,
            ).push(m(t)));
        }
        i = i + 1;
    }
    proof {
        assert(tiers.take(i as int) =~= tiers);
    }
    (200, Ok(out))
}

/// The text that stands for an identifier that is not shown.
pub open spec fn hidden() -> Seq<char> {
    "-hidden-"@
}

/// The public face of an item at time `now`. An item that is assigned or
/// in process is shown as stored, with its transaction hidden. Any other
/// item is shown as reserved while its deadline lies ahead, and as free
/// once the deadline has been reached or where it has none.
pub open spec fn nft_shown(n: NFTView, now: i64) -> NFTView {
    if n.assigned || n.in_process {
        NFTView { txhash: Some(hidden()), ..n }
    } else {
        match n.reserved_until {
            Some(t) => if now < t {
                NFTView { reserved: true, reserved_until: Some(t), txhash: None, ..n }
            } else {
                NFTView { reserved: false, reserved_until: None, txhash: None, ..n }
            },
            None => NFTView { reserved: false, reserved_until: None, txhash: Some(hidden()), ..n },
        }
    }
}

/// The public face of the item with the identifier, or status 404 where
/// there is none.
pub fn get_by_id(conn: &NFTDatabase, id: u128, now: i64) -> (r: (u16, Result<NFT, ErrorResponse>))
    ensures
        has_id(conn@.nfts, id) ==> r.0 == 200 && (r.1 matches Ok(n) && n@ == nft_shown(
            conn@.nfts[first_with_id(conn@, id)].nft_lite,
            now,
        )),
        !has_id(conn@.nfts, id) ==> refused_with(
            r,
            Refusal { status: 404, code: 404, message: nft_not_found_message() },
        ),
{
    match find_nft(conn, id) {
        None => refuse(404, 404, "NFT not found"),
        Some(i) => {
            proof {
                lemma_first_with_id(conn@, id, i as int);
                assert(conn@.nfts[i as int] == conn.nfts@[i as int]@);
            }
            let n = &conn.nfts[i].nft_lite;
            let (reserved, reserved_until, txhash) = if n.assigned || n.in_process {
                (n.reserved, n.reserved_until, Some(owned("-hidden-")))
            } else {
                match n.reserved_until {
                    Some(t) => if now < t {
                        (true, Some(t), None)
                    } else {
                        (false, None, None)
                    },
                    None => (false, None, Some(owned("-hidden-"))),
                }
            };
            (
                200,
                Ok(
                    NFT {
                        id: n.id,
                        name: n.name.clone(),
                        assigned: n.assigned,
                        reserved,
                        has_submit_error: n.has_submit_error,
                        reserved_until,
                        in_process: n.in_process,
                        txhash,
                    },
                ),
            )
        },
    }
}

/// A new item as it enters the inventory: free, with the payload of the
/// request and the given metadata.
pub open spec fn new_item(
    id: u128,
    name: Seq<char>,
    svg: Seq<char>,
    ipfs_image: Seq<char>,
    ipfs_meta: Seq<char>,
    image_data: Option<Seq<char>>,
    external_url: Option<Seq<char>>,
    description: Option<Seq<char>>,
    background_color: Option<Seq<char>>,
    animation_url: Option<Seq<char>>,
    youtube_url: Option<Seq<char>>,
    meta: crate::requests::MetadataView,
) -> NftFullView {
    NftFullView {
        nft_lite: NFTView {
            id,
            name,
            assigned: false,
            reserved: false,
            has_submit_error: false,
            reserved_until: None,
            in_process: false,
            txhash: None,
        },
        meta_data: meta,
        svg,
        ipfs_image,
        ipfs_meta,
        image_data,
        external_url,
        description,
        background_color,
        animation_url,
        youtube_url,
        assigned_on: None,
        assigned_to_wallet_address: None,
        reserved_to_wallet_address: None,
        signed_packet: None,
        in_mint_run: false,
        tx_error: None,
        tx_retry_count: 0,
        token_id: None,
    }
}

/// The new item that a request describes.
pub open spec fn requested_item(
    id: u128,
    nft_in: NewNFTRequest,
    meta: crate::requests::MetadataView,
) -> NftFullView {
    new_item(
        id,
        nft_in.name@,
        nft_in.svg@,
        nft_in.ipfs_image@,
        nft_in.ipfs_meta@,
        opt_text(nft_in.image_data),
        opt_text(nft_in.external_url),
        opt_text(nft_in.description),
        opt_text(nft_in.background_color),
        opt_text(nft_in.animation_url),
        opt_text(nft_in.youtube_url),
        meta,
    )
}

/// The store and the response agree with the addition of the requested
/// item under the identifier `id`: the item is appended and the response
/// is status 201 with the identifier, or the identifier is taken, the
/// store is unchanged and the response is status 500.
pub open spec fn item_added(
    before: NFTDatabaseView,
    after: NFTDatabaseView,
    r: (u16, Result<NewNFTResponse, ErrorResponse>),
    item: NftFullView,
) -> bool {
    if has_id(before.nfts, item.nft_lite.id) {
        after == before && refused_with(
            r,
            Refusal { status: 500, code: 500, message: duplicate_message() },
        )
    } else {
        after == (NFTDatabaseView { nfts: before.nfts.push(item), ..before }) && r.0 == 201 && r.1
            == Ok::<NewNFTResponse, ErrorResponse>(NewNFTResponse { nft_id: item.nft_lite.id })
    }
}

/// Adds the requested item to the inventory under the identifier `id`,
/// with the metadata `meta` that the request describes.
pub fn add_nft(conn: &mut NFTDatabase, nft_in: &NewNFTRequest, meta: Metadata, id: u128) -> (r: (
    u16,
    Result<NewNFTResponse, ErrorResponse>,
))
    ensures
        item_added(old(conn)@, final(conn)@, r, requested_item(id, *nft_in, meta@)),
        old(conn)@.wf() ==> final(conn)@.wf(),
{
    let item = NftFull {
        nft_lite: NFT {
            id,
            name: nft_in.name.clone(),
            assigned: false,
            reserved: false,
            has_submit_error: false,
            reserved_until: None,
            in_process: false,
            txhash: None,
        },
        meta_data: meta,
        svg: nft_in.svg.clone(),
        ipfs_image: nft_in.ipfs_image.clone(),
        ipfs_meta: nft_in.ipfs_meta.clone(),
        image_data: clone_opt(&nft_in.image_data),
        external_url: clone_opt(&nft_in.external_url),
        description: clone_opt(&nft_in.description),
        background_color: clone_opt(&nft_in.background_color),
        animation_url: clone_opt(&nft_in.animation_url),
        youtube_url: clone_opt(&nft_in.youtube_url),
        assigned_on: None,
        assigned_to_wallet_address: None,
        reserved_to_wallet_address: None,
        signed_packet: None,
        in_mint_run: false,
        tx_error: None,
        tx_retry_count: 0,
        token_id: None,
    };
    match insert_nft(conn, item) {
        Ok(nft_id) => (201, Ok(NewNFTResponse { nft_id })),
        Err(e) => (e.0, Err(e.1)),
    }
}

/// Takes a request to add an item. The request, whose serialized form is
/// `nft_in_json`, must carry a valid signature, whatever the mode of the
/// service.
pub fn new_nft(
    conn: &mut NFTDatabase,
    signature: &SignatureB64,
    state: &ReservationState,
    nft_in: &NewNFTRequest,
    nft_in_json: &str,
    meta: Metadata,
    id: u128,
) -> (r: (u16, Result<NewNFTResponse, ErrorResponse>))
    ensures
        is_signed(*state, nft_in_json@, *signature) ==> item_added(
            old(conn)@,
            final(conn)@,
            r,
            requested_item(id, *nft_in, meta@),
        ),
        !is_signed(*state, nft_in_json@, *signature) ==> refused_signature(r) && final(conn)@
            == old(conn)@,
        old(conn)@.wf() ==> final(conn)@.wf(),
{
    if let Err(e) = require_signature(state, nft_in_json, signature) {
        return (e.0, Err(e.1));
    }
    add_nft(conn, nft_in, meta, id)
}

/// The routes of the service below `/nft`.
pub open spec fn nft_routes() -> Seq<RouteInfoView> {
    seq![
        RouteInfoView { method: Method::Get, path: "/"@, handler: "index"@ },
        RouteInfoView { method: Method::Get, path: "/<id>"@, handler: "get_by_id"@ },
        RouteInfoView { method: Method::Post, path: "/new"@, handler: "new_nft"@ },
        RouteInfoView { method: Method::Get, path: "/stages"@, handler: "get_stage_stats"@ },
    ]
}

/// The routes of the service below `/nft`.
pub fn get_routes() -> (r: Vec<RouteInfo>)
    ensures
        route_views(r@) == nft_routes(),
{
    let mut out: Vec<RouteInfo> = Vec::new();
    out.push(route(Method::Get, "/", "index"));
    out.push(route(Method::Get, "/<id>", "get_by_id"));
    out.push(route(Method::Post, "/new", "new_nft"));
    out.push(route(Method::Get, "/stages", "get_stage_stats"));
    proof {
        assert(route_views(out@) =~= nft_routes());
    }
    out
}

} // verus!
