//! The steps of a download: finding the release for an episode, fetching it,
//! and filing the result.
//!
//! Databases, indexers and the torrent engine are out of reach here. Each
//! flow is told what came back from the last thing it asked for and answers
//! with the next thing to do.

use vstd::prelude::*;
use vstd::string::StringExecFns;

use crate::api_error;
use crate::api_error::{ApiError, Failure};
use crate::follows;
use crate::follows::EpisodeFileRow;
use crate::grab;
use crate::grab::{
    AvailableEpisodeRow, GrabProfile, LiveRelease, OwnedTorrent, PickedAvailability,
    UpsertAvailableEpisode,
};
use crate::language::{LangSel, Language};
use crate::path;
use crate::ranking;
use crate::search::TorrentSource;
use crate::text;

verus! {

// ---------------------------------------------------------------------------
// Where an episode comes from
// ---------------------------------------------------------------------------

/// What a resolution is waiting for.
#[derive(Debug, Clone, Copy, PartialEq, Eq, Structural)]
pub enum ResolveStage {
    /// The files on disk of the series.
    Owned,
    /// A live search for the episode.
    Live,
    /// The cached offers for the episode, to refresh their seeders.
    Offers,
    /// The refreshed seeders to be stored.
    WriteBack,
    /// The cached packs, to see whether a live search for one is worth it.
    PackCheck,
    /// A live search for the pack.
    PackSweep,
    /// The cached packs, to refresh their seeders.
    PackRefresh,
    /// The refreshed seeders of the packs to be stored.
    PackWriteBack,
    /// The cached packs, to pick one.
    PackPick,
    /// The picked live release to be stored.
    Storing,
    /// The cached offers for the episode, to pick one.
    Fallback,
    Done,
}

/// What came back from the outside.
pub enum ResolveEvent {
    /// The torrents behind the files on disk, and the seasons of the files.
    Owned(Vec<OwnedTorrent>, Vec<i64>),
    Live(Vec<LiveRelease>),
    Offers(Vec<AvailableEpisodeRow>),
    Packs(Vec<AvailableEpisodeRow>),
    Written,
    Stored,
}

/// What to do next.
pub enum ResolveAction {
    ListOwned,
    /// Search the indexers for the episode, or for the season pack.
    Sweep(Option<i64>),
    ListOffers,
    ListPacks,
    WriteSeeders(Vec<(u128, i64)>),
    StoreOffer(UpsertAvailableEpisode),
    TakePack(PickedAvailability),
    TakeSingleton(PickedAvailability),
    /// Nothing can be had.
    NotFound,
    /// The event is not what the resolution waits for.
    OutOfTurn,
}

/// Decides where an episode comes from.
///
/// A live search comes first, and its seeder counts are written back onto the
/// cached offers. Entering a season of which nothing is on disk, a sane
/// season pack is preferred. Then come the live releases, the cached offers,
/// and as a last resort any pack.
pub struct GrabResolver {
    pub normalized_name: String,
    pub season: i64,
    pub episode: i64,
    pub sel: LangSel,
    pub stage: ResolveStage,
    /// The pack under consideration is preferred over single episodes.
    pub pack_first: bool,
    /// Something of the season is on disk.
    pub owns_season: bool,
    pub profile: GrabProfile,
    pub live: Vec<LiveRelease>,
    pub pack_live: Vec<LiveRelease>,
    pub pick: Option<PickedAvailability>,
}

pub open spec fn same_request(a: GrabResolver, b: GrabResolver) -> bool {
    &&& a.normalized_name == b.normalized_name
    &&& a.season == b.season
    &&& a.episode == b.episode
    &&& a.sel == b.sel
}

/// The request and everything that was learnt stay.
pub open spec fn same_memory(a: GrabResolver, b: GrabResolver) -> bool {
    &&& same_request(a, b)
    &&& a.pack_first == b.pack_first
    &&& a.owns_season == b.owns_season
    &&& a.profile == b.profile
    &&& a.live == b.live
}

/// An upper bound on the events to come.
pub open spec fn events_left(r: GrabResolver) -> int {
    match r.stage {
        ResolveStage::Owned => 16,
        ResolveStage::Live => 15,
        ResolveStage::Offers => 14,
        ResolveStage::WriteBack => 13,
        ResolveStage::PackCheck => if r.pack_first {
            12
        } else {
            6
        },
        ResolveStage::PackSweep => if r.pack_first {
            11
        } else {
            5
        },
        ResolveStage::PackRefresh => if r.pack_first {
            10
        } else {
            4
        },
        ResolveStage::PackWriteBack => if r.pack_first {
            9
        } else {
            3
        },
        ResolveStage::PackPick => if r.pack_first {
            8
        } else {
            2
        },
        ResolveStage::Fallback => 7,
        ResolveStage::Storing => 1,
        ResolveStage::Done => 0,
    }
}

/// The turn of the live releases: the best one is stored and taken, else the
/// cached offers are asked for.
pub open spec fn live_turn(old: GrabResolver, new: GrabResolver, a: ResolveAction) -> bool {
    &&& same_request(old, new)
    &&& old.profile == new.profile
    &&& match grab::best_offer(grab::live_offers(old.live@, old.profile), old.sel) {
        Some(o) => {
            &&& new.stage == ResolveStage::Storing
            &&& new.pick is Some
            &&& grab::is_pick_of_live(new.pick->0, o.item)
            &&& a is StoreOffer
            &&& grab::is_record_of(
                a->StoreOffer_0,
                o.item,
                old.normalized_name@,
                old.season,
                old.episode,
            )
        },
        None => new.stage == ResolveStage::Fallback && a is ListOffers,
    }
}

/// What follows when no pack is taken.
pub open spec fn no_pack_turn(old: GrabResolver, new: GrabResolver, a: ResolveAction) -> bool {
    if old.pack_first {
        live_turn(old, new, a)
    } else {
        new.stage == ResolveStage::Done && a is NotFound
    }
}

pub open spec fn best_pack(r: GrabResolver, packs: Seq<AvailableEpisodeRow>) -> Option<
    grab::Offer<AvailableEpisodeRow>,
> {
    grab::best_offer(grab::offers_of(packs, r.profile), r.sel)
}

/// How the resolution answers an event.
pub open spec fn resolves(
    old: GrabResolver,
    event: ResolveEvent,
    new: GrabResolver,
    a: ResolveAction,
) -> bool {
    match (old.stage, event) {
        (ResolveStage::Owned, ResolveEvent::Owned(torrents, seasons)) => {
            &&& same_request(old, new)
            &&& new.owns_season == seasons@.contains(old.season)
            &&& text::opt_view(new.profile.quality) == grab::profile_quality(torrents@)
            &&& text::opt_view(new.profile.codec) == grab::profile_codec(torrents@)
            &&& new.stage == ResolveStage::Live
            &&& a == ResolveAction::Sweep(Some(old.episode))
        },
        (ResolveStage::Live, ResolveEvent::Live(live)) => {
            &&& same_request(old, new)
            &&& new.owns_season == old.owns_season
            &&& new.profile == old.profile
            &&& new.live == live
            &&& new.stage == ResolveStage::Offers
            &&& a is ListOffers
        },
        (ResolveStage::Offers, ResolveEvent::Offers(rows)) => {
            &&& same_memory(old, new)
            &&& new.stage == ResolveStage::WriteBack
            &&& a is WriteSeeders
            &&& a->WriteSeeders_0@ == grab::liveness_updates(rows@, old.live@)
        },
        (ResolveStage::WriteBack, ResolveEvent::Written) => {
            if old.owns_season {
                live_turn(old, new, a)
            } else {
                &&& same_request(old, new)
                &&& new.profile == old.profile
                &&& new.live == old.live
                &&& new.pack_first
                &&& new.stage == ResolveStage::PackCheck
                &&& a is ListPacks
            }
        },
        (ResolveStage::PackCheck, ResolveEvent::Packs(rows)) => {
            match best_pack(old, rows@) {
                None => no_pack_turn(old, new, a),
                Some(_) => {
                    &&& same_memory(old, new)
                    &&& new.stage == ResolveStage::PackSweep
                    &&& a == ResolveAction::Sweep(None)
                },
            }
        },
        (ResolveStage::PackSweep, ResolveEvent::Live(live)) => {
            &&& same_memory(old, new)
            &&& new.pack_live == live
            &&& new.stage == ResolveStage::PackRefresh
            &&& a is ListPacks
        },
        (ResolveStage::PackRefresh, ResolveEvent::Packs(rows)) => {
            &&& same_memory(old, new)
            &&& new.stage == ResolveStage::PackWriteBack
            &&& a is WriteSeeders
            &&& a->WriteSeeders_0@ == grab::liveness_updates(rows@, old.pack_live@)
        },
        (ResolveStage::PackWriteBack, ResolveEvent::Written) => {
            &&& same_memory(old, new)
            &&& new.stage == ResolveStage::PackPick
            &&& a is ListPacks
        },
        (ResolveStage::PackPick, ResolveEvent::Packs(rows)) => {
            match best_pack(old, rows@) {
                Some(o) => if old.pack_first && !ranking::is_sane(grab::candidate_of(o.item)) {
                    no_pack_turn(old, new, a)
                } else {
                    &&& new.stage == ResolveStage::Done
                    &&& a == ResolveAction::TakePack(grab::pick_of(o.item))
                },
                None => no_pack_turn(old, new, a),
            }
        },
        (ResolveStage::Storing, ResolveEvent::Stored) => {
            &&& new.stage == ResolveStage::Done
            &&& match old.pick {
                Some(p) => a == ResolveAction::TakeSingleton(p),
                None => a is NotFound,
            }
        },
        (ResolveStage::Fallback, ResolveEvent::Offers(rows)) => {
            match grab::best_offer(grab::offers_of(rows@, old.profile), old.sel) {
                Some(o) => {
                    &&& new.stage == ResolveStage::Done
                    &&& a == ResolveAction::TakeSingleton(grab::pick_of(o.item))
                },
                None => {
                    &&& same_request(old, new)
                    &&& new.profile == old.profile
                    &&& !new.pack_first
                    &&& new.stage == ResolveStage::PackCheck
                    &&& a is ListPacks
                },
            }
        },
        _ => new == old && a is OutOfTurn,
    }
}

impl GrabResolver {
    /// A fresh resolution, which waits for the files on disk.
    pub fn new(normalized_name: String, season: i64, episode: i64, sel: LangSel) -> (r: GrabResolver)
        ensures
            r.normalized_name == normalized_name,
            r.season == season,
            r.episode == episode,
            r.sel == sel,
            r.stage == ResolveStage::Owned,
    {
        GrabResolver {
            normalized_name,
            season,
            episode,
            sel,
            stage: ResolveStage::Owned,
            pack_first: false,
            owns_season: false,
            profile: GrabProfile { quality: None, codec: None },
            live: Vec::new(),
            pack_live: Vec::new(),
            pick: None,
        }
    }

    fn turn_to_live(&mut self) -> (a: ResolveAction)
        ensures
            live_turn(*old(self), *final(self), a),
    {
        let mut live: Vec<LiveRelease> = Vec::new();
        std::mem::swap(&mut live, &mut self.live);
        let name = self.normalized_name.clone();
        match grab::pick_live_singleton(
            name.as_str(),
            &self.sel,
            &self.profile,
            self.season,
            self.episode,
            live,
        ) {
            Some((pick, record)) => {
                self.pick = Some(pick);
                self.stage = ResolveStage::Storing;
                ResolveAction::StoreOffer(record)
            },
            None => {
                self.stage = ResolveStage::Fallback;
                ResolveAction::ListOffers
            },
        }
    }

    fn turn_without_pack(&mut self) -> (a: ResolveAction)
        ensures
            no_pack_turn(*old(self), *final(self), a),
    {
        if self.pack_first {
            self.turn_to_live()
        } else {
            self.stage = ResolveStage::Done;
            ResolveAction::NotFound
        }
    }

    /// Takes in what came back and says what to do next.
    pub fn step(&mut self, event: ResolveEvent) -> (a: ResolveAction)
        requires
            event matches ResolveEvent::Owned(torrents, _) ==> torrents.len() < u32::MAX,
        ensures
            resolves(*old(self), event, *final(self), a),
            a is OutOfTurn || events_left(*final(self)) < events_left(*old(self)),
    {
        match event {
            ResolveEvent::Owned(torrents, seasons) => {
                if self.stage != ResolveStage::Owned {
                    return ResolveAction::OutOfTurn;
                }
                self.profile = grab::dominant_owned_profile(&torrents);
                let mut owns = false;
                for i in 0..seasons.len()
                    invariant
                        owns <==> exists|j: int| 0 <= j < i && seasons@[j] == self.season,
                {
                    if seasons[i] == self.season {
                        owns = true;
                    }
                }
                self.owns_season = owns;
                self.stage = ResolveStage::Live;
                ResolveAction::Sweep(Some(self.episode))
            },
            ResolveEvent::Live(live) => {
                if self.stage == ResolveStage::Live {
                    self.live = live;
                    self.stage = ResolveStage::Offers;
                    ResolveAction::ListOffers
                } else if self.stage == ResolveStage::PackSweep {
                    self.pack_live = live;
                    self.stage = ResolveStage::PackRefresh;
                    ResolveAction::ListPacks
                } else {
                    ResolveAction::OutOfTurn
                }
            },
            ResolveEvent::Offers(rows) => {
                if self.stage == ResolveStage::Offers {
                    let updates = grab::refresh_offer_liveness(&rows, &self.live);
                    self.stage = ResolveStage::WriteBack;
                    ResolveAction::WriteSeeders(updates)
                } else if self.stage == ResolveStage::Fallback {
                    match grab::best_available(rows, &self.sel, &self.profile) {
                        Some(p) => {
                            self.stage = ResolveStage::Done;
                            ResolveAction::TakeSingleton(p)
                        },
                        None => {
                            self.pack_first = false;
                            self.stage = ResolveStage::PackCheck;
                            ResolveAction::ListPacks
                        },
                    }
                } else {
                    ResolveAction::OutOfTurn
                }
            },
            ResolveEvent::Packs(rows) => {
                if self.stage == ResolveStage::PackCheck {
                    match grab::find_pack_offer(rows, &self.sel, &self.profile) {
                        None => self.turn_without_pack(),
                        Some(_) => {
                            self.stage = ResolveStage::PackSweep;
                            ResolveAction::Sweep(None)
                        },
                    }
                } else if self.stage == ResolveStage::PackRefresh {
                    let updates = grab::refresh_offer_liveness(&rows, &self.pack_live);
                    self.stage = ResolveStage::PackWriteBack;
                    ResolveAction::WriteSeeders(updates)
                } else if self.stage == ResolveStage::PackPick {
                    match grab::find_pack_offer(rows, &self.sel, &self.profile) {
                        Some((p, sane)) => {
                            if self.pack_first && !sane {
                                self.turn_without_pack()
                            } else {
                                self.stage = ResolveStage::Done;
                                ResolveAction::TakePack(p)
                            }
                        },
                        None => self.turn_without_pack(),
                    }
                } else {
                    ResolveAction::OutOfTurn
                }
            },
            ResolveEvent::Written => {
                if self.stage == ResolveStage::WriteBack {
                    if self.owns_season {
                        self.turn_to_live()
                    } else {
                        self.pack_first = true;
                        self.stage = ResolveStage::PackCheck;
                        ResolveAction::ListPacks
                    }
                } else if self.stage == ResolveStage::PackWriteBack {
                    self.stage = ResolveStage::PackPick;
                    ResolveAction::ListPacks
                } else {
                    ResolveAction::OutOfTurn
                }
            },
            ResolveEvent::Stored => {
                if self.stage == ResolveStage::Storing {
                    self.stage = ResolveStage::Done;
                    let mut pick: Option<PickedAvailability> = None;
                    std::mem::swap(&mut pick, &mut self.pick);
                    match pick {
                        Some(p) => ResolveAction::TakeSingleton(p),
                        None => ResolveAction::NotFound,
                    }
                } else {
                    ResolveAction::OutOfTurn
                }
            },
        }
    }
}

/// While single episodes have not been looked at, only a sane pack is taken.
pub proof fn preferred_pack_is_sane(
    old: GrabResolver,
    event: ResolveEvent,
    new: GrabResolver,
    a: ResolveAction,
)
    requires
        resolves(old, event, new, a),
        old.pack_first,
        a is TakePack,
    ensures
        event is Packs,
        best_pack(old, event->Packs_0@) matches Some(o) && ranking::is_sane(
            grab::candidate_of(o.item),
        ),
{
}

/// With an exact language, whatever is taken from the cache is in it.
pub proof fn exact_pick_keeps_language(
    old: GrabResolver,
    event: ResolveEvent,
    new: GrabResolver,
    a: ResolveAction,
    l: Language,
)
    requires
        resolves(old, event, new, a),
        old.sel == LangSel::Exact(l),
        a is TakePack || (a is TakeSingleton && event is Offers),
    ensures
        match event {
            ResolveEvent::Packs(rows) => exists|i: int|
                0 <= i < rows@.len() && (#[trigger] rows@[i]).language == l && a
                    == ResolveAction::TakePack(grab::pick_of(rows@[i])),
            ResolveEvent::Offers(rows) => exists|i: int|
                0 <= i < rows@.len() && (#[trigger] rows@[i]).language == l && a
                    == ResolveAction::TakeSingleton(grab::pick_of(rows@[i])),
            _ => false,
        },
{
    let rows = match event {
        ResolveEvent::Packs(rows) => rows@,
        ResolveEvent::Offers(rows) => rows@,
        _ => seq![],
    };
    let offers = grab::offers_of(rows, old.profile);
    grab::picked_is_on_offer(offers, old.sel);
    let o = grab::best_offer(offers, old.sel)->0;
    let i = choose|i: int| 0 <= i < offers.len() && offers[i] == o;
    assert(rows[i].language == l);
}

/// A release that is confirmed to have no seeders is never taken, neither from
/// a live search nor from the cache, where the cache lists none such.
pub proof fn dead_release_is_never_taken(
    old: GrabResolver,
    event: ResolveEvent,
    new: GrabResolver,
    a: ResolveAction,
)
    requires
        resolves(old, event, new, a),
        event matches ResolveEvent::Packs(rows) ==> forall|i: int|
            0 <= i < rows@.len() ==> (#[trigger] rows@[i]).seeders != Some(0i64),
        event matches ResolveEvent::Offers(rows) ==> forall|i: int|
            0 <= i < rows@.len() ==> (#[trigger] rows@[i]).seeders != Some(0i64),
    ensures
        a matches ResolveAction::StoreOffer(u) ==> u.seeders != Some(0i64),
        a matches ResolveAction::TakePack(p) ==> (event matches ResolveEvent::Packs(rows)
            && exists|i: int|
            0 <= i < rows@.len() && (#[trigger] rows@[i]).seeders != Some(0i64) && p
                == grab::pick_of(rows@[i])),
        (a matches ResolveAction::TakeSingleton(p) && event is Offers) ==> exists|i: int|
            0 <= i < event->Offers_0@.len() && (#[trigger] event->Offers_0@[i]).seeders != Some(
                0i64,
            ) && a == ResolveAction::TakeSingleton(grab::pick_of(event->Offers_0@[i])),
{
    grab::dead_release_is_never_picked(old.live@, old.profile, old.sel);
    let rows = match event {
        ResolveEvent::Packs(rows) => rows@,
        ResolveEvent::Offers(rows) => rows@,
        _ => seq![],
    };
    grab::dead_offer_is_never_picked(rows, old.profile, old.sel);
    if let Some(o) = grab::best_offer(grab::offers_of(rows, old.profile), old.sel) {
        let i = choose|i: int| 0 <= i < rows.len() && rows[i] == o.item;
        assert(rows[i].seeders != Some(0i64));
    }
}

// ---------------------------------------------------------------------------
// Fetching a picked release
// ---------------------------------------------------------------------------

/// What a fetch is waiting for.
#[derive(Debug, Clone, Copy, PartialEq, Eq, Structural)]
pub enum IngestStage {
    /// The bytes behind the stored download link.
    Fetching,
    /// The provider's answer for the release.
    Resolving,
    /// A search that refreshes the provider's links.
    Repriming,
    /// The provider's second answer.
    ResolvingAgain,
    /// The torrent engine.
    Adding,
    Done,
}

pub enum IngestEvent {
    Fetched(Vec<u8>),
    FetchFailed,
    Resolved(TorrentSource),
    ResolveFailed(String),
    Searched,
    Added,
    EngineFailed(String),
}

pub enum IngestAction {
    AddMagnet(String),
    AddBytes(Vec<u8>),
    Fetch(String),
    /// Ask the provider for the release.
    Resolve(String),
    /// Search for the release to refresh the provider's links.
    Reprime,
    Fail(ApiError),
    Finished,
    OutOfTurn,
}

/// Fetches a picked release: by its magnet link, by the stored download link,
/// or through its provider.
pub struct IngestFlow {
    pub stage: IngestStage,
    pub indexer_torrent_id: String,
    pub first_error: String,
}

pub open spec fn unregistered_message(provider: Seq<char>) -> Seq<char> {
    "provider `"@ + provider + "` no longer registered"@
}

pub open spec fn reprime_message(second: Seq<char>, first: Seq<char>) -> Seq<char> {
    "resolve after re-prime: "@ + second + " (first attempt: "@ + first + ")"@
}

/// How a fetch answers an event.
pub open spec fn ingests(
    old: IngestFlow,
    event: IngestEvent,
    new: IngestFlow,
    a: IngestAction,
) -> bool {
    &&& new.indexer_torrent_id == old.indexer_torrent_id
    &&& match (old.stage, event) {
        (IngestStage::Fetching, IngestEvent::Fetched(bytes)) => {
            new.stage == IngestStage::Adding && a == IngestAction::AddBytes(bytes)
        },
        (IngestStage::Fetching, IngestEvent::FetchFailed) => {
            new.stage == IngestStage::Resolving && a is Resolve && a->Resolve_0@
                == old.indexer_torrent_id@
        },
        (IngestStage::Resolving, IngestEvent::Resolved(source)) => adds(source, new, a),
        (IngestStage::Resolving, IngestEvent::ResolveFailed(e)) => {
            new.stage == IngestStage::Repriming && a is Reprime && new.first_error == e
        },
        (IngestStage::Repriming, IngestEvent::Searched) => {
            &&& new.stage == IngestStage::ResolvingAgain
            &&& new.first_error == old.first_error
            &&& a is Resolve
            &&& a->Resolve_0@ == old.indexer_torrent_id@
        },
        (IngestStage::ResolvingAgain, IngestEvent::Resolved(source)) => adds(source, new, a),
        (IngestStage::ResolvingAgain, IngestEvent::ResolveFailed(e)) => {
            &&& new.stage == IngestStage::Done
            &&& a is Fail
            &&& a->Fail_0@ == Failure::Internal(reprime_message(e@, old.first_error@))
        },
        (IngestStage::Adding, IngestEvent::Added) => {
            new.stage == IngestStage::Done && a is Finished
        },
        (IngestStage::Adding, IngestEvent::EngineFailed(e)) => {
            &&& new.stage == IngestStage::Done
            &&& a is Fail
            &&& a->Fail_0@ == Failure::Internal("engine: "@ + e@)
        },
        _ => new == old && a is OutOfTurn,
    }
}

/// A resolved release goes to the engine.
pub open spec fn adds(source: TorrentSource, new: IngestFlow, a: IngestAction) -> bool {
    &&& new.stage == IngestStage::Adding
    &&& match source {
        TorrentSource::Magnet(m) => a == IngestAction::AddMagnet(m),
        TorrentSource::TorrentFile(b) => a == IngestAction::AddBytes(b),
    }
}

impl IngestFlow {
    /// Starts to fetch a picked release; `registered` tells whether its
    /// provider is known.
    pub fn start(pick: PickedAvailability, registered: bool) -> (r: (IngestFlow, IngestAction))
        ensures
            r.0.indexer_torrent_id == pick.indexer_torrent_id,
            if pick.magnet@.len() > 0 {
                r.0.stage == IngestStage::Adding && r.1 == IngestAction::AddMagnet(pick.magnet)
            } else if pick.download_url is Some && registered {
                r.0.stage == IngestStage::Fetching && r.1 == IngestAction::Fetch(
                    pick.download_url->0,
                )
            } else if registered {
                &&& r.0.stage == IngestStage::Resolving
                &&& r.1 is Resolve
                &&& r.1->Resolve_0@ == pick.indexer_torrent_id@
            } else {
                &&& r.0.stage == IngestStage::Done
                &&& r.1 is Fail
                &&& r.1->Fail_0@ == Failure::Internal(
                    unregistered_message(pick.indexer_provider@),
                )
            },
    {
        let mut flow = IngestFlow {
            stage: IngestStage::Adding,
            indexer_torrent_id: pick.indexer_torrent_id,
            first_error: String::new(),
        };
        if !text::is_blank(pick.magnet.as_str()) {
            return (flow, IngestAction::AddMagnet(pick.magnet));
        }
        if !registered {
            flow.stage = IngestStage::Done;
            let message = api_error::glued(
                "provider `",
                pick.indexer_provider.as_str(),
                "` no longer registered",
            );
            return (flow, IngestAction::Fail(ApiError::Internal(message)));
        }
        match pick.download_url {
            Some(url) => {
                flow.stage = IngestStage::Fetching;
                (flow, IngestAction::Fetch(url))
            },
            None => {
                flow.stage = IngestStage::Resolving;
                let id = flow.indexer_torrent_id.clone();
                (flow, IngestAction::Resolve(id))
            },
        }
    }

    fn hand_over(&mut self, source: TorrentSource) -> (a: IngestAction)
        ensures
            adds(source, *final(self), a),
            final(self).indexer_torrent_id == old(self).indexer_torrent_id,
    {
        self.stage = IngestStage::Adding;
        match source {
            TorrentSource::Magnet(m) => IngestAction::AddMagnet(m),
            TorrentSource::TorrentFile(b) => IngestAction::AddBytes(b),
        }
    }

    /// Takes in what came back and says what to do next.
    pub fn step(&mut self, event: IngestEvent) -> (a: IngestAction)
        ensures
            ingests(*old(self), event, *final(self), a),
    {
        match event {
            IngestEvent::Fetched(bytes) => {
                if self.stage != IngestStage::Fetching {
                    return IngestAction::OutOfTurn;
                }
                self.stage = IngestStage::Adding;
                IngestAction::AddBytes(bytes)
            },
            IngestEvent::FetchFailed => {
                if self.stage != IngestStage::Fetching {
                    return IngestAction::OutOfTurn;
                }
                self.stage = IngestStage::Resolving;
                IngestAction::Resolve(self.indexer_torrent_id.clone())
            },
            IngestEvent::Resolved(source) => {
                if self.stage != IngestStage::Resolving && self.stage
                    != IngestStage::ResolvingAgain {
                    return IngestAction::OutOfTurn;
                }
                self.hand_over(source)
            },
            IngestEvent::ResolveFailed(e) => {
                if self.stage == IngestStage::Resolving {
                    self.first_error = e;
                    self.stage = IngestStage::Repriming;
                    IngestAction::Reprime
                } else if self.stage == IngestStage::ResolvingAgain {
                    self.stage = IngestStage::Done;
                    let mut m = "resolve after re-prime: ".to_string();
                    m.append(e.as_str());
                    m.append(" (first attempt: ");
                    m.append(self.first_error.as_str());
                    m.append(")");
                    IngestAction::Fail(ApiError::Internal(m))
                } else {
                    IngestAction::OutOfTurn
                }
            },
            IngestEvent::Searched => {
                if self.stage != IngestStage::Repriming {
                    return IngestAction::OutOfTurn;
                }
                self.stage = IngestStage::ResolvingAgain;
                IngestAction::Resolve(self.indexer_torrent_id.clone())
            },
            IngestEvent::Added => {
                if self.stage != IngestStage::Adding {
                    return IngestAction::OutOfTurn;
                }
                self.stage = IngestStage::Done;
                IngestAction::Finished
            },
            IngestEvent::EngineFailed(e) => {
                if self.stage != IngestStage::Adding {
                    return IngestAction::OutOfTurn;
                }
                self.stage = IngestStage::Done;
                let mut m = "engine: ".to_string();
                m.append(e.as_str());
                IngestAction::Fail(ApiError::Internal(m))
            },
        }
    }
}

// ---------------------------------------------------------------------------
// Which file of a torrent
// ---------------------------------------------------------------------------

/// A file of a torrent, with the season and episode that its name tells.
#[derive(Debug, Clone)]
pub struct FileEntry {
    pub index: usize,
    pub path: String,
    pub size_bytes: u64,
    pub season: Option<u32>,
    pub episode: Option<u32>,
}

pub open spec fn is_video_extension(e: Seq<char>) -> bool {
    let x = text::lowered(e);
    x == "mkv"@ || x == "mp4"@ || x == "webm"@ || x == "m4v"@ || x == "avi"@ || x == "mov"@ || x
        == "ts"@ || x == "mts"@ || x == "m2ts"@ || x == "wmv"@
}

pub open spec fn is_video(p: Seq<char>) -> bool {
    path::extension_of(p) matches Some(e) && is_video_extension(e)
}

/// The largest video among the first `n` files; of equals, the last.
pub open spec fn largest_video(files: Seq<FileEntry>, n: int) -> Option<FileEntry>
    decreases n,
{
    if n <= 0 || n > files.len() {
        None
    } else {
        let before = largest_video(files, n - 1);
        let f = files[n - 1];
        if !is_video(f.path@) {
            before
        } else {
            match before {
                Some(b) => if b.size_bytes > f.size_bytes {
                    Some(b)
                } else {
                    Some(f)
                },
                None => Some(f),
            }
        }
    }
}

/// Whether a path leads to a video.
pub fn video_file(p: &str) -> (r: bool)
    ensures
        r == is_video(p@),
{
    match path::extension(p) {
        None => false,
        Some(e) => {
            let x = text::to_ascii_lowercase(e.as_str());
            let s = x.as_str();
            text::same_text(s, "mkv") || text::same_text(s, "mp4") || text::same_text(s, "webm")
                || text::same_text(s, "m4v") || text::same_text(s, "avi") || text::same_text(
                s,
                "mov",
            ) || text::same_text(s, "ts") || text::same_text(s, "mts") || text::same_text(s, "m2ts")
                || text::same_text(s, "wmv")
        },
    }
}

/// A file index as it is stored.
pub open spec fn stored_index(i: usize) -> i64 {
    i as i64
}

fn index_to_store(i: usize) -> (r: i64)
    ensures
        r == stored_index(i),
{
    #[verifier::truncate]
    (i as i64)
}

/// Index of the largest video, the first file when there is none.
pub fn pick_largest_video_file(files: &Vec<FileEntry>) -> (r: i64)
    ensures
        r == match largest_video(files@, files@.len() as int) {
            Some(f) => stored_index(f.index),
            None => 0,
        },
{
    let mut best: Option<usize> = None;
    for i in 0..files.len()
        invariant
            match best {
                Some(k) => k < i && largest_video(files@, i as int) == Some(files@[k as int]),
                None => largest_video(files@, i as int) is None,
            },
    {
        if video_file(files[i].path.as_str()) {
            best = match best {
                Some(k) => {
                    if files[k].size_bytes > files[i].size_bytes {
                        Some(k)
                    } else {
                        Some(i)
                    }
                },
                None => Some(i),
            };
        }
    }
    match best {
        Some(k) => index_to_store(files[k].index),
        None => 0,
    }
}

/// The picked file is a video and no video is larger.
pub proof fn largest_video_is_largest(files: Seq<FileEntry>, n: int, i: int)
    requires
        0 <= i < n <= files.len(),
        is_video(files[i].path@),
    ensures
        largest_video(files, n) matches Some(f) && is_video(f.path@) && f.size_bytes
            >= files[i].size_bytes,
    decreases n,
{
    if i < n - 1 {
        largest_video_is_largest(files, n - 1, i);
    } else {
        lemma_largest_is_video(files, n - 1);
    }
}

proof fn lemma_largest_is_video(files: Seq<FileEntry>, n: int)
    ensures
        largest_video(files, n) matches Some(f) ==> is_video(f.path@),
    decreases n,
{
    if 0 < n <= files.len() {
        lemma_largest_is_video(files, n - 1);
    }
}

pub open spec fn names_episode(f: FileEntry, season: i64, episode: i64) -> bool {
    &&& f.season matches Some(s) && s == season
    &&& f.episode matches Some(e) && e == episode
}

/// The first file, from `from` on, whose name tells the episode.
pub open spec fn named_file(files: Seq<FileEntry>, season: i64, episode: i64, from: int) -> Option<
    FileEntry,
>
    decreases files.len() - from,
{
    if from < 0 || from >= files.len() {
        None
    } else if names_episode(files[from], season, episode) {
        Some(files[from])
    } else {
        named_file(files, season, episode, from + 1)
    }
}

/// Index of the file of a season pack that holds an episode.
pub fn pick_pack_file(files: &Vec<FileEntry>, season: i64, episode: i64) -> (r: Option<i64>)
    ensures
        r == match named_file(files@, season, episode, 0) {
            Some(f) => Some(stored_index(f.index)),
            None => None,
        },
{
    let mut i: usize = 0;
    while i < files.len()
        invariant
            i <= files.len(),
            named_file(files@, season, episode, 0) == named_file(
                files@,
                season,
                episode,
                i as int,
            ),
        decreases files.len() - i,
    {
        let in_season = match files[i].season {
            Some(s) => s as i64 == season,
            None => false,
        };
        let is_episode = match files[i].episode {
            Some(e) => e as i64 == episode,
            None => false,
        };
        if in_season && is_episode {
            return Some(index_to_store(files[i].index));
        }
        i = i + 1;
    }
    None
}

/// The absolute number of an episode: a high number in season one is one.
pub fn absolute_episode(season: i64, episode: i64, threshold: i64) -> (r: Option<i64>)
    ensures
        r == if season == 1 && episode > threshold {
            Some(episode)
        } else {
            None
        },
{
    if season == 1 && episode > threshold {
        Some(episode)
    } else {
        None
    }
}

// ---------------------------------------------------------------------------
// Downloading an episode
// ---------------------------------------------------------------------------

/// The answer to a download request.
#[derive(Debug, Clone)]
pub struct GrabResponse {
    pub infohash: String,
    pub file_idx: i64,
    pub already_grabbed: bool,
}

/// What the torrent engine took in.
pub struct IngestedTorrent {
    pub infohash: String,
    pub name: Option<String>,
    pub total_size_bytes: u64,
    pub files: Vec<FileEntry>,
    pub already_managed: bool,
}

/// A torrent to store.
pub struct NewTorrent {
    pub infohash: String,
    pub name: String,
    pub total_size_bytes: u64,
    pub source_provider: String,
    pub source_external_id: String,
}

/// An episode file to store.
pub struct UpsertEpisodeFile {
    pub collection_id: u128,
    pub season: i64,
    pub episode: i64,
    pub infohash: String,
    pub file_idx: i64,
    pub absolute_episode: Option<i64>,
}

/// What a download is waiting for.
#[derive(Debug, Clone, Copy, PartialEq, Eq, Structural)]
pub enum GrabStage {
    /// The series to be followed.
    Following,
    /// The files on disk of the series.
    Looking,
    /// The resolution of a release.
    Resolving,
    /// The release to be fetched.
    Ingesting,
    /// The torrent to be stored.
    Storing,
    /// The torrent to be assigned to a collection.
    Assigning,
    /// The collection of the torrent.
    Locating,
    /// The episode file to be stored.
    Linking,
    Done,
}

pub enum GrabEvent {
    Followed,
    /// The files on disk of the series, with their languages.
    Files(Vec<(EpisodeFileRow, Language)>),
    ResolvedPack(PickedAvailability),
    ResolvedSingleton(PickedAvailability),
    NothingToTake,
    Ingested(IngestedTorrent),
    Stored,
    Assigned,
    /// The collection that the stored torrent belongs to.
    Collection(Option<u128>),
    Linked,
}

pub enum GrabAction {
    ListFiles,
    Resolve,
    /// Fetch a release; a search for it names the episode, or only the season
    /// for a pack.
    Ingest(PickedAvailability, Option<i64>),
    StoreTorrent(NewTorrent),
    Assign,
    FindCollection,
    LinkEpisode(UpsertEpisodeFile),
    Finish(GrabResponse),
    NotFound,
    OutOfTurn,
}

/// Downloads one episode.
///
/// The series is followed first, so that asking for an episode that is on
/// disk follows it too. A file on disk in the wanted language ends the
/// download; otherwise a release is resolved, fetched and filed.
pub struct GrabFlow {
    pub display_title: String,
    pub season: i64,
    pub episode: i64,
    pub sel: LangSel,
    /// Episode numbers of season one above this are absolute.
    pub absolute_threshold: i64,
    pub stage: GrabStage,
    pub pack: bool,
    pub provider: String,
    pub external_id: String,
    pub infohash: String,
    pub file_idx: i64,
    pub already_managed: bool,
}

/// The name a torrent is stored under: its own, or one made of the request.
pub open spec fn torrent_name(f: GrabFlow, own: Option<String>) -> Seq<char> {
    match own {
        Some(n) => n@,
        None => if f.pack {
            f.display_title@ + " S"@ + text::two_columns(f.season as int) + " pack"@
        } else {
            grab::episode_query(f.display_title@, f.season, Some(f.episode))
        },
    }
}

/// The file of a fetched torrent that holds the episode.
pub open spec fn chosen_file(f: GrabFlow, files: Seq<FileEntry>) -> Option<i64> {
    if f.pack {
        match named_file(files, f.season, f.episode, 0) {
            Some(e) => Some(stored_index(e.index)),
            None => None,
        }
    } else {
        match largest_video(files, files.len() as int) {
            Some(e) => Some(stored_index(e.index)),
            None => Some(0),
        }
    }
}

pub open spec fn same_grab(a: GrabFlow, b: GrabFlow) -> bool {
    &&& a.display_title == b.display_title
    &&& a.season == b.season
    &&& a.episode == b.episode
    &&& a.sel == b.sel
    &&& a.absolute_threshold == b.absolute_threshold
}

pub open spec fn same_torrent(a: GrabFlow, b: GrabFlow) -> bool {
    &&& same_grab(a, b)
    &&& a.infohash == b.infohash
    &&& a.file_idx == b.file_idx
    &&& a.already_managed == b.already_managed
}

pub open spec fn is_answer(a: GrabAction, infohash: Seq<char>, file_idx: i64, already: bool) -> bool {
    &&& a is Finish
    &&& a->Finish_0.infohash@ == infohash
    &&& a->Finish_0.file_idx == file_idx
    &&& a->Finish_0.already_grabbed == already
}

/// How a download answers an event.
pub open spec fn grabs(old: GrabFlow, event: GrabEvent, new: GrabFlow, a: GrabAction) -> bool {
    match (old.stage, event) {
        (GrabStage::Following, GrabEvent::Followed) => {
            same_grab(old, new) && new.stage == GrabStage::Looking && a is ListFiles
        },
        (GrabStage::Looking, GrabEvent::Files(rows)) => {
            match follows::picked_file(rows@, old.season, old.episode, old.sel) {
                Some(f) => {
                    &&& new.stage == GrabStage::Done
                    &&& is_answer(a, f.infohash@, f.file_idx, true)
                },
                None => {
                    same_grab(old, new) && new.stage == GrabStage::Resolving && a is Resolve
                },
            }
        },
        (GrabStage::Resolving, GrabEvent::ResolvedPack(p)) => {
            &&& same_grab(old, new)
            &&& new.pack
            &&& new.provider@ == p.indexer_provider@
            &&& new.external_id@ == p.indexer_torrent_id@
            &&& new.stage == GrabStage::Ingesting
            &&& a == GrabAction::Ingest(p, None)
        },
        (GrabStage::Resolving, GrabEvent::ResolvedSingleton(p)) => {
            &&& same_grab(old, new)
            &&& !new.pack
            &&& new.provider@ == p.indexer_provider@
            &&& new.external_id@ == p.indexer_torrent_id@
            &&& new.stage == GrabStage::Ingesting
            &&& a == GrabAction::Ingest(p, Some(old.episode))
        },
        (GrabStage::Resolving, GrabEvent::NothingToTake) => {
            new.stage == GrabStage::Done && a is NotFound
        },
        (GrabStage::Ingesting, GrabEvent::Ingested(t)) => {
            match chosen_file(old, t.files@) {
                None => new.stage == GrabStage::Done && a is NotFound,
                Some(i) => {
                    &&& same_grab(old, new)
                    &&& new.infohash@ == t.infohash@
                    &&& new.file_idx == i
                    &&& new.already_managed == t.already_managed
                    &&& new.stage == GrabStage::Storing
                    &&& a is StoreTorrent
                    &&& a->StoreTorrent_0.infohash@ == t.infohash@
                    &&& a->StoreTorrent_0.name@ == torrent_name(old, t.name)
                    &&& a->StoreTorrent_0.total_size_bytes == t.total_size_bytes
                    &&& a->StoreTorrent_0.source_provider@ == old.provider@
                    &&& a->StoreTorrent_0.source_external_id@ == old.external_id@
                },
            }
        },
        (GrabStage::Storing, GrabEvent::Stored) => {
            same_torrent(old, new) && new.stage == GrabStage::Assigning && a is Assign
        },
        (GrabStage::Assigning, GrabEvent::Assigned) => {
            same_torrent(old, new) && new.stage == GrabStage::Locating && a is FindCollection
        },
        (GrabStage::Locating, GrabEvent::Collection(Some(id))) => {
            &&& same_torrent(old, new)
            &&& new.stage == GrabStage::Linking
            &&& a is LinkEpisode
            &&& a->LinkEpisode_0.collection_id == id
            &&& a->LinkEpisode_0.season == old.season
            &&& a->LinkEpisode_0.episode == old.episode
            &&& a->LinkEpisode_0.infohash@ == old.infohash@
            &&& a->LinkEpisode_0.file_idx == old.file_idx
            &&& a->LinkEpisode_0.absolute_episode == if old.season == 1 && old.episode
                > old.absolute_threshold {
                Some(old.episode)
            } else {
                None
            }
        },
        (GrabStage::Locating, GrabEvent::Collection(None)) => {
            &&& new.stage == GrabStage::Done
            &&& is_answer(a, old.infohash@, old.file_idx, old.already_managed)
        },
        (GrabStage::Linking, GrabEvent::Linked) => {
            &&& new.stage == GrabStage::Done
            &&& is_answer(a, old.infohash@, old.file_idx, old.already_managed)
        },
        _ => new == old && a is OutOfTurn,
    }
}

impl GrabFlow {
    /// A fresh download, which waits for the series to be followed.
    pub fn new(
        display_title: String,
        season: i64,
        episode: i64,
        sel: LangSel,
        absolute_threshold: i64,
    ) -> (r: GrabFlow)
        ensures
            r.display_title == display_title,
            r.season == season,
            r.episode == episode,
            r.sel == sel,
            r.absolute_threshold == absolute_threshold,
            r.stage == GrabStage::Following,
    {
        GrabFlow {
            display_title,
            season,
            episode,
            sel,
            absolute_threshold,
            stage: GrabStage::Following,
            pack: false,
            provider: String::new(),
            external_id: String::new(),
            infohash: String::new(),
            file_idx: 0,
            already_managed: false,
        }
    }

    fn name_for(&self, own: Option<String>) -> (r: String)
        ensures
            r@ == torrent_name(*self, own),
    {
        match own {
            Some(n) => n,
            None => {
                if self.pack {
                    let mut s = self.display_title.clone();
                    s.append(" S");
                    s.append(text::two_column_i64(self.season).as_str());
                    s.append(" pack");
                    s
                } else {
                    grab::episode_query_text(
                        self.display_title.as_str(),
                        self.season,
                        Some(self.episode),
                    )
                }
            },
        }
    }

    fn finish(&mut self) -> (a: GrabAction)
        ensures
            final(self).stage == GrabStage::Done,
            is_answer(a, old(self).infohash@, old(self).file_idx, old(self).already_managed),
    {
        self.stage = GrabStage::Done;
        GrabAction::Finish(
            GrabResponse {
                infohash: self.infohash.clone(),
                file_idx: self.file_idx,
                already_grabbed: self.already_managed,
            },
        )
    }

    /// Takes in what came back and says what to do next.
    pub fn step(&mut self, event: GrabEvent) -> (a: GrabAction)
        ensures
            grabs(*old(self), event, *final(self), a),
    {
        match event {
            GrabEvent::Followed => {
                if self.stage != GrabStage::Following {
                    return GrabAction::OutOfTurn;
                }
                self.stage = GrabStage::Looking;
                GrabAction::ListFiles
            },
            GrabEvent::Files(rows) => {
                if self.stage != GrabStage::Looking {
                    return GrabAction::OutOfTurn;
                }
                match follows::find_episode_file(rows, self.season, self.episode, &self.sel) {
                    Some(f) => {
                        self.stage = GrabStage::Done;
                        GrabAction::Finish(
                            GrabResponse {
                                infohash: f.infohash,
                                file_idx: f.file_idx,
                                already_grabbed: true,
                            },
                        )
                    },
                    None => {
                        self.stage = GrabStage::Resolving;
                        GrabAction::Resolve
                    },
                }
            },
            GrabEvent::ResolvedPack(p) => {
                if self.stage != GrabStage::Resolving {
                    return GrabAction::OutOfTurn;
                }
                self.pack = true;
                self.provider = p.indexer_provider.clone();
                self.external_id = p.indexer_torrent_id.clone();
                self.stage = GrabStage::Ingesting;
                GrabAction::Ingest(p, None)
            },
            GrabEvent::ResolvedSingleton(p) => {
                if self.stage != GrabStage::Resolving {
                    return GrabAction::OutOfTurn;
                }
                self.pack = false;
                self.provider = p.indexer_provider.clone();
                self.external_id = p.indexer_torrent_id.clone();
                self.stage = GrabStage::Ingesting;
                GrabAction::Ingest(p, Some(self.episode))
            },
            GrabEvent::NothingToTake => {
                if self.stage != GrabStage::Resolving {
                    return GrabAction::OutOfTurn;
                }
                self.stage = GrabStage::Done;
                GrabAction::NotFound
            },
            GrabEvent::Ingested(t) => {
                if self.stage != GrabStage::Ingesting {
                    return GrabAction::OutOfTurn;
                }
                let chosen = if self.pack {
                    pick_pack_file(&t.files, self.season, self.episode)
                } else {
                    Some(pick_largest_video_file(&t.files))
                };
                match chosen {
                    None => {
                        self.stage = GrabStage::Done;
                        GrabAction::NotFound
                    },
                    Some(i) => {
                        let name = self.name_for(t.name);
                        self.infohash = t.infohash.clone();
                        self.file_idx = i;
                        self.already_managed = t.already_managed;
                        self.stage = GrabStage::Storing;
                        GrabAction::StoreTorrent(
                            NewTorrent {
                                infohash: t.infohash,
                                name,
                                total_size_bytes: t.total_size_bytes,
                                source_provider: self.provider.clone(),
                                source_external_id: self.external_id.clone(),
                            },
                        )
                    },
                }
            },
            GrabEvent::Stored => {
                if self.stage != GrabStage::Storing {
                    return GrabAction::OutOfTurn;
                }
                self.stage = GrabStage::Assigning;
                GrabAction::Assign
            },
            GrabEvent::Assigned => {
                if self.stage != GrabStage::Assigning {
                    return GrabAction::OutOfTurn;
                }
                self.stage = GrabStage::Locating;
                GrabAction::FindCollection
            },
            GrabEvent::Collection(found) => {
                if self.stage != GrabStage::Locating {
                    return GrabAction::OutOfTurn;
                }
                match found {
                    Some(id) => {
                        self.stage = GrabStage::Linking;
                        GrabAction::LinkEpisode(
                            UpsertEpisodeFile {
                                collection_id: id,
                                season: self.season,
                                episode: self.episode,
                                infohash: self.infohash.clone(),
                                file_idx: self.file_idx,
                                absolute_episode: absolute_episode(
                                    self.season,
                                    self.episode,
                                    self.absolute_threshold,
                                ),
                            },
                        )
                    },
                    None => self.finish(),
                }
            },
            GrabEvent::Linked => {
                if self.stage != GrabStage::Linking {
                    return GrabAction::OutOfTurn;
                }
                self.finish()
            },
        }
    }
}

/// Asking for an exact language is never answered with a file on disk in
/// another one.
pub proof fn exact_request_is_not_answered_in_another_language(
    rows: Seq<(EpisodeFileRow, Language)>,
    season: i64,
    episode: i64,
    l: Language,
)
    ensures
        follows::picked_file(rows, season, episode, LangSel::Exact(l)) matches Some(f)
            ==> exists|i: int|
            0 <= i < follows::files_holding(rows, season, episode).len() && (
            #[trigger] follows::files_holding(rows, season, episode)[i]) == (f, l),
{
    let files = follows::files_holding(rows, season, episode);
    crate::language::exact_never_crosses_languages(follows::disk_tags(files), l);
    if let Some(i) = crate::language::selected(follows::disk_tags(files), LangSel::Exact(l)) {
        assert(files[i].1 == follows::disk_tags(files)[i].0);
        assert(files[i] == (files[i].0, l));
    }
}

// ---------------------------------------------------------------------------
// Laws
// ---------------------------------------------------------------------------

/// What is on disk comes first: its torrents tell the profile, and whether
/// anything of the season is there decides later on; the search that follows is
/// for the episode.
pub proof fn resolution_starts_from_what_is_owned(
    s: &mut GrabResolver,
    torrents: Vec<OwnedTorrent>,
    seasons: Vec<i64>,
    profile: GrabProfile,
    a: ResolveAction,
)
    requires
        torrents.len() < u32::MAX,
        old(s).stage is Owned,
        call_ensures(grab::dominant_owned_profile, (&torrents,), profile),
        call_ensures(GrabResolver::step, (s, ResolveEvent::Owned(torrents, seasons)), a),
    ensures
        final(s).owns_season == exists|i: int|
            0 <= i < seasons@.len() && #[trigger] seasons@[i] == old(s).season,
        text::opt_view(final(s).profile.quality) == text::opt_view(profile.quality),
        text::opt_view(final(s).profile.codec) == text::opt_view(profile.codec),
        final(s).stage is Live,
        a matches ResolveAction::Sweep(Some(e)) && e == old(s).episode,
        final(s).season == old(s).season && final(s).episode == old(s).episode && final(s).sel
            == old(s).sel,
{
}

/// What a live search tells of the seeders is written onto the cached offers
/// before anything is taken, for episodes and for packs alike.
pub proof fn fresh_seeders_are_written_first(
    s: &mut GrabResolver,
    rows: Vec<AvailableEpisodeRow>,
    updates: Vec<(u128, i64)>,
    a: ResolveAction,
)
    requires
        old(s).stage is Offers,
        call_ensures(grab::refresh_offer_liveness, (&rows, &old(s).live), updates),
        call_ensures(GrabResolver::step, (s, ResolveEvent::Offers(rows)), a),
    ensures
        a matches ResolveAction::WriteSeeders(u) && u@ == updates@,
        final(s).stage is WriteBack && final(s).live == old(s).live,
{
}

/// As [`fresh_seeders_are_written_first`], for packs.
pub proof fn fresh_seeders_of_packs_are_written_first(
    s: &mut GrabResolver,
    rows: Vec<AvailableEpisodeRow>,
    updates: Vec<(u128, i64)>,
    a: ResolveAction,
)
    requires
        old(s).stage is PackRefresh,
        call_ensures(grab::refresh_offer_liveness, (&rows, &old(s).pack_live), updates),
        call_ensures(GrabResolver::step, (s, ResolveEvent::Packs(rows)), a),
    ensures
        a matches ResolveAction::WriteSeeders(u) && u@ == updates@,
        final(s).stage is PackWriteBack && final(s).pack_first == old(s).pack_first,
{
}

/// What the searches and the writing lead to: a live search is kept for what
/// follows, and packs are listed anew once their seeders are written.
pub proof fn searches_are_kept(
    s: &mut GrabResolver,
    live: Vec<LiveRelease>,
    a: ResolveAction,
)
    requires
        call_ensures(GrabResolver::step, (s, ResolveEvent::Live(live)), a),
    ensures
        old(s).stage is Live ==> final(s).live == live && final(s).stage is Offers && a is ListOffers
            && final(s).owns_season == old(s).owns_season && final(s).profile == old(s).profile
            && final(s).sel == old(s).sel && final(s).season == old(s).season && final(s).episode
            == old(s).episode,
        old(s).stage is PackSweep ==> final(s).pack_live == live && final(s).stage is PackRefresh
            && a is ListPacks && final(s).live == old(s).live && final(s).pack_first
            == old(s).pack_first && final(s).profile == old(s).profile && final(s).sel
            == old(s).sel,
        !(old(s).stage is Live) && !(old(s).stage is PackSweep) ==> a is OutOfTurn,
{
}

/// Entering a season of which nothing is on disk, packs are looked at before
/// anything else; otherwise the best live release is taken right away, or the
/// cached offers are listed where there is none.
pub proof fn packs_come_first_in_a_new_season(
    s: &mut GrabResolver,
    name: &str,
    live: Option<(PickedAvailability, UpsertAvailableEpisode)>,
    a: ResolveAction,
)
    requires
        old(s).stage is WriteBack,
        name@ == old(s).normalized_name@,
        call_ensures(
            grab::pick_live_singleton,
            (name, &old(s).sel, &old(s).profile, old(s).season, old(s).episode, old(s).live),
            live,
        ),
        call_ensures(GrabResolver::step, (s, ResolveEvent::Written), a),
    ensures
        !old(s).owns_season ==> a is ListPacks && final(s).pack_first && final(s).stage is PackCheck
            && final(s).live == old(s).live,
        old(s).owns_season && live is None ==> a is ListOffers && final(s).stage is Fallback,
        old(s).owns_season && live is Some ==> {
            &&& a is StoreOffer
            &&& final(s).stage is Storing
            &&& a->StoreOffer_0.indexer_provider@ == (live->0).1.indexer_provider@
            &&& a->StoreOffer_0.indexer_torrent_id@ == (live->0).1.indexer_torrent_id@
            &&& a->StoreOffer_0.season == old(s).season && a->StoreOffer_0.episode
                == old(s).episode
            &&& final(s).pick is Some
            &&& final(s).pick->0.indexer_provider@ == (live->0).0.indexer_provider@
            &&& final(s).pick->0.indexer_torrent_id@ == (live->0).0.indexer_torrent_id@
        },
{
}

/// A pack is searched for exactly where the cache has one that would do; where
/// it has none, single episodes follow if they have not been looked at, and
/// else there is nothing to be had.
pub proof fn pack_is_searched_where_one_would_do(
    s: &mut GrabResolver,
    rows: Vec<AvailableEpisodeRow>,
    pack: Option<(PickedAvailability, bool)>,
    a: ResolveAction,
)
    requires
        old(s).stage is PackCheck,
        call_ensures(grab::find_pack_offer, (rows, &old(s).sel, &old(s).profile), pack),
        call_ensures(GrabResolver::step, (s, ResolveEvent::Packs(rows)), a),
    ensures
        pack is Some ==> (a matches ResolveAction::Sweep(e) && e is None) && final(s).stage
            is PackSweep && final(s).pack_first == old(s).pack_first,
        pack is None && old(s).pack_first ==> a is StoreOffer || a is ListOffers,
        pack is None && !old(s).pack_first ==> a is NotFound && final(s).stage is Done,
{
}

/// The best pack is taken; before single episodes have been looked at, only
/// where it is sane. Where none is taken, single episodes follow if they have
/// not been looked at, and else there is nothing to be had.
pub proof fn best_pack_is_taken(
    s: &mut GrabResolver,
    rows: Vec<AvailableEpisodeRow>,
    pack: Option<(PickedAvailability, bool)>,
    a: ResolveAction,
)
    requires
        old(s).stage is PackPick,
        call_ensures(grab::find_pack_offer, (rows, &old(s).sel, &old(s).profile), pack),
        call_ensures(GrabResolver::step, (s, ResolveEvent::Packs(rows)), a),
    ensures
        a is TakePack == (pack is Some && ((pack->0).1 || !old(s).pack_first)),
        a matches ResolveAction::TakePack(p) ==> p == (pack->0).0,
        !(a is TakePack) && old(s).pack_first ==> a is StoreOffer || a is ListOffers,
        !(a is TakePack) && !old(s).pack_first ==> a is NotFound,
{
}

/// After the live releases come the cached offers, of which the best is taken;
/// where none would do, any pack will.
pub proof fn cached_offer_is_the_fallback(
    s: &mut GrabResolver,
    rows: Vec<AvailableEpisodeRow>,
    best: Option<PickedAvailability>,
    a: ResolveAction,
)
    requires
        old(s).stage is Fallback,
        call_ensures(grab::best_available, (rows, &old(s).sel, &old(s).profile), best),
        call_ensures(GrabResolver::step, (s, ResolveEvent::Offers(rows)), a),
    ensures
        best is Some ==> (a matches ResolveAction::TakeSingleton(p) && p == best->0)
            && final(s).stage is Done,
        best is None ==> a is ListPacks && !final(s).pack_first && final(s).stage is PackCheck
            && final(s).profile == old(s).profile && final(s).sel == old(s).sel,
{
}

/// What was stored is what is taken.
pub proof fn stored_release_is_taken(s: &mut GrabResolver, a: ResolveAction)
    requires
        old(s).stage is Storing,
        call_ensures(GrabResolver::step, (s, ResolveEvent::Stored), a),
    ensures
        old(s).pick is Some ==> (a matches ResolveAction::TakeSingleton(p) && p == old(s).pick->0),
        old(s).pick is None ==> a is NotFound,
        final(s).stage is Done,
{
}

/// A resolution that is over answers nothing more, and no event that is not
/// waited for changes anything.
pub proof fn resolution_waits_its_turn(s: &mut GrabResolver, e: ResolveEvent, a: ResolveAction)
    requires
        e matches ResolveEvent::Owned(torrents, _) ==> torrents.len() < u32::MAX,
        call_ensures(GrabResolver::step, (s, e), a),
    ensures
        old(s).stage is Done ==> a is OutOfTurn,
        a is OutOfTurn ==> *final(s) == *old(s),
        e is Owned && !(old(s).stage is Owned) ==> a is OutOfTurn,
        e is Offers && !(old(s).stage is Offers || old(s).stage is Fallback) ==> a is OutOfTurn,
        e is Stored && !(old(s).stage is Storing) ==> a is OutOfTurn,
        e is Written && !(old(s).stage is WriteBack || old(s).stage is PackWriteBack) ==> a
            is OutOfTurn,
        old(s).stage is PackWriteBack && e is Written ==> a is ListPacks && final(s).stage
            is PackPick && final(s).pack_first == old(s).pack_first && final(s).profile
            == old(s).profile && final(s).sel == old(s).sel,
{
}

/// A resolution is for what was asked.
pub proof fn resolution_is_for_the_request(
    name: String,
    season: i64,
    episode: i64,
    sel: LangSel,
    r: GrabResolver,
)
    requires
        call_ensures(GrabResolver::new, (name, season, episode, sel), r),
    ensures
        r.normalized_name == name && r.season == season && r.episode == episode && r.sel == sel,
        r.stage is Owned,
{
}

/// A magnet link is added right away; without one the stored link is fetched,
/// and without that the provider is asked for the release. Only a release
/// without a magnet link of a provider that is gone cannot be had.
pub proof fn magnet_comes_before_link_and_provider(
    pick: PickedAvailability,
    registered: bool,
    r: (IngestFlow, IngestAction),
)
    requires
        call_ensures(IngestFlow::start, (pick, registered), r),
    ensures
        pick.magnet@.len() > 0 ==> (r.1 matches IngestAction::AddMagnet(m) && m == pick.magnet)
            && r.0.stage is Adding,
        pick.magnet@.len() == 0 && registered && pick.download_url is Some ==> (
        r.1 matches IngestAction::Fetch(u) && Some(u) == pick.download_url) && r.0.stage
            is Fetching,
        pick.magnet@.len() == 0 && registered && pick.download_url is None ==> (
        r.1 matches IngestAction::Resolve(id) && id@ == pick.indexer_torrent_id@) && r.0.stage
            is Resolving,
        r.1 is Fail == (pick.magnet@.len() == 0 && !registered),
        r.0.indexer_torrent_id@ == pick.indexer_torrent_id@,
{
}

/// A link that fails leads to the provider, and a provider that fails to a
/// search and a second question for the same release; a second failure is the
/// end, and tells of both.
pub proof fn provider_is_asked_twice(
    s: &mut IngestFlow,
    e: IngestEvent,
    a: IngestAction,
)
    requires
        call_ensures(IngestFlow::step, (s, e), a),
    ensures
        final(s).indexer_torrent_id == old(s).indexer_torrent_id,
        old(s).stage is Fetching && e is FetchFailed ==> (a matches IngestAction::Resolve(id) && id@
            == old(s).indexer_torrent_id@) && final(s).stage is Resolving,
        old(s).stage is Resolving && e is ResolveFailed ==> a is Reprime && final(s).stage
            is Repriming && final(s).first_error == e->ResolveFailed_0,
        old(s).stage is Repriming && e is Searched ==> (a matches IngestAction::Resolve(id) && id@
            == old(s).indexer_torrent_id@) && final(s).stage is ResolvingAgain
            && final(s).first_error == old(s).first_error,
        old(s).stage is ResolvingAgain && e is ResolveFailed ==> a is Fail && final(s).stage is Done
            && a->Fail_0@ is Internal && text::has_text(
            a->Fail_0@->Internal_0,
            old(s).first_error@,
        ) && text::has_text(a->Fail_0@->Internal_0, e->ResolveFailed_0@),
{
    if old(s).stage is ResolvingAgain && e is ResolveFailed {
        let x = e->ResolveFailed_0@;
        let y = old(s).first_error@;
        let m = a->Fail_0@->Internal_0;
        let h = "resolve after re-prime: "@;
        let n = h.len() as int;
        assert(m.subrange(n, n + x.len()) =~= x);
        let g = h + x + " (first attempt: "@;
        let k = g.len() as int;
        assert(m.subrange(k, k + y.len()) =~= y);
    }
}

/// What was fetched or found is added as it is, and the engine's answer ends
/// the fetch.
pub proof fn found_release_is_added(s: &mut IngestFlow, e: IngestEvent, a: IngestAction)
    requires
        call_ensures(IngestFlow::step, (s, e), a),
    ensures
        old(s).stage is Fetching && e is Fetched ==> (a matches IngestAction::AddBytes(b) && b
            == e->Fetched_0) && final(s).stage is Adding,
        (old(s).stage is Resolving || old(s).stage is ResolvingAgain) && e is Resolved ==> final(s).stage is Adding && match e->Resolved_0 {
            TorrentSource::Magnet(m) => a matches IngestAction::AddMagnet(x) && x == m,
            TorrentSource::TorrentFile(b) => a matches IngestAction::AddBytes(x) && x == b,
        },
        old(s).stage is Adding && e is Added ==> a is Finished && final(s).stage is Done,
        old(s).stage is Adding && e is EngineFailed ==> a is Fail && a->Fail_0@ is Internal
            && final(s).stage is Done,
        old(s).stage is Done ==> a is OutOfTurn,
        a is OutOfTurn ==> *final(s) == *old(s),
        a is Finished ==> old(s).stage is Adding && e is Added,
{
}

/// A path leads to a video where its extension is one of those of videos, in
/// either case.
pub proof fn videos_are_told_by_extension(
    p: &str,
    ext: Option<String>,
    low: Seq<char>,
    r: bool,
)
    requires
        call_ensures(path::extension, (p,), ext),
        ext is Some ==> low == text::lowered(ext->0@),
        call_ensures(video_file, (p,), r),
    ensures
        ext is None ==> !r,
        ext is Some && low == "mkv"@ ==> r,
        ext is Some && low == "mp4"@ ==> r,
        ext is Some && low == "webm"@ ==> r,
        ext is Some && low == "m4v"@ ==> r,
        ext is Some && low == "avi"@ ==> r,
        ext is Some && low == "mov"@ ==> r,
        ext is Some && low == "ts"@ ==> r,
        ext is Some && low == "mts"@ ==> r,
        ext is Some && low == "m2ts"@ ==> r,
        ext is Some && low == "wmv"@ ==> r,
        r ==> low.len() <= 4 && exists|w: &str|
            #![trigger w@]
            w@ == low && (w@ == "mkv"@ || w@ == "mp4"@ || w@ == "webm"@ || w@ == "m4v"@ || w@
                == "avi"@ || w@ == "mov"@ || w@ == "ts"@ || w@ == "mts"@ || w@ == "m2ts"@ || w@
                == "wmv"@),
{
    reveal_strlit("mkv");
    reveal_strlit("mp4");
    reveal_strlit("webm");
    reveal_strlit("m4v");
    reveal_strlit("avi");
    reveal_strlit("mov");
    reveal_strlit("ts");
    reveal_strlit("mts");
    reveal_strlit("m2ts");
    reveal_strlit("wmv");
    assert("mkv"@.len() == 3 && "mp4"@.len() == 3 && "webm"@.len() == 4 && "m4v"@.len() == 3
        && "avi"@.len() == 3 && "mov"@.len() == 3 && "ts"@.len() == 2 && "mts"@.len() == 3
        && "m2ts"@.len() == 4 && "wmv"@.len() == 3);
}

proof fn lemma_largest_stands(files: Seq<FileEntry>, n: int)
    requires
        0 <= n <= files.len(),
    ensures
        match largest_video(files, n) {
            Some(f) => exists|k: int|
                0 <= k < n && #[trigger] files[k] == f && is_video(f.path@) && (forall|i: int|
                    0 <= i < n && is_video((#[trigger] files[i]).path@) ==> files[i].size_bytes
                        <= f.size_bytes) && forall|i: int|
                    k < i < n && is_video((#[trigger] files[i]).path@) ==> files[i].size_bytes
                        < f.size_bytes,
            None => forall|i: int| 0 <= i < n ==> !is_video((#[trigger] files[i]).path@),
        },
    decreases n,
{
    if n > 0 {
        lemma_largest_stands(files, n - 1);
        assert(files[n - 1] == files[n - 1]);
    }
}

/// The file of a single release is its largest video, the last of several of
/// that size; where it has none, it is the first file.
pub proof fn largest_video_is_picked(files: &Vec<FileEntry>, r: i64)
    requires
        call_ensures(pick_largest_video_file, (files,), r),
    ensures
        (forall|i: int| 0 <= i < files@.len() ==> !is_video((#[trigger] files@[i]).path@)) ==> r
            == 0,
        (exists|i: int| 0 <= i < files@.len() && is_video((#[trigger] files@[i]).path@))
            ==> exists|k: int|
            0 <= k < files@.len() && is_video((#[trigger] files@[k]).path@) && (
            files@[k].index <= i64::MAX ==> r == files@[k].index) && (forall|i: int|
                0 <= i < files@.len() && is_video((#[trigger] files@[i]).path@)
                    ==> files@[i].size_bytes <= files@[k].size_bytes) && forall|i: int|
                k < i < files@.len() && is_video((#[trigger] files@[i]).path@)
                    ==> files@[i].size_bytes < files@[k].size_bytes,
{
    lemma_largest_stands(files@, files@.len() as int);
}

proof fn lemma_named_file(files: Seq<FileEntry>, season: i64, episode: i64, from: int)
    requires
        0 <= from,
    ensures
        match named_file(files, season, episode, from) {
            Some(f) => exists|i: int|
                from <= i < files.len() && #[trigger] files[i] == f && names_episode(
                    f,
                    season,
                    episode,
                ) && forall|j: int|
                    from <= j < i ==> !names_episode(#[trigger] files[j], season, episode),
            None => forall|j: int|
                from <= j < files.len() ==> !names_episode(#[trigger] files[j], season, episode),
        },
    decreases files.len() - from,
{
    if from < files.len() {
        if names_episode(files[from], season, episode) {
            assert(files[from] == named_file(files, season, episode, from)->0);
        } else {
            lemma_named_file(files, season, episode, from + 1);
        }
    }
}

/// The file of a pack is the first whose name tells the season and the episode;
/// only a pack without such a file has none.
pub proof fn pack_file_tells_the_episode(
    files: &Vec<FileEntry>,
    season: i64,
    episode: i64,
    r: Option<i64>,
)
    requires
        call_ensures(pick_pack_file, (files, season, episode), r),
    ensures
        r is Some ==> exists|i: int|
            0 <= i < files@.len() && (#[trigger] files@[i]).season is Some
                && files@[i].season->0 == season && files@[i].episode is Some
                && files@[i].episode->0 == episode && (files@[i].index <= i64::MAX ==> r->0
                == files@[i].index) && forall|j: int|
                0 <= j < i ==> (#[trigger] files@[j]).season is None || files@[j].season->0
                    != season || files@[j].episode is None || files@[j].episode->0 != episode,
        r is None ==> forall|j: int|
            0 <= j < files@.len() ==> (#[trigger] files@[j]).season is None || files@[j].season->0
                != season || files@[j].episode is None || files@[j].episode->0 != episode,
{
    lemma_named_file(files@, season, episode, 0);
    if let Some(f) = named_file(files@, season, episode, 0) {
        let i = choose|i: int|
            0 <= i < files@.len() && #[trigger] files@[i] == f && names_episode(
                f,
                season,
                episode,
            ) && forall|j: int|
                0 <= j < i ==> !names_episode(#[trigger] files@[j], season, episode);
        assert(files@[i].season is Some);
        assert forall|j: int| 0 <= j < i implies (#[trigger] files@[j]).season is None
            || files@[j].season->0 != season || files@[j].episode is None
            || files@[j].episode->0 != episode by {
            assert(!names_episode(files@[j], season, episode));
        }
    } else {
        assert forall|j: int| 0 <= j < files@.len() implies (#[trigger] files@[j]).season is None
            || files@[j].season->0 != season || files@[j].episode is None
            || files@[j].episode->0 != episode by {
            assert(!names_episode(files@[j], season, episode));
        }
    }
}

/// Numbers are absolute in the first season alone, and there above the
/// threshold; an absolute number is the number itself.
pub proof fn high_numbers_are_absolute(season: i64, episode: i64, threshold: i64, r: Option<i64>)
    requires
        call_ensures(absolute_episode, (season, episode, threshold), r),
    ensures
        r is Some ==> r->0 == episode && episode > threshold && season == 1,
        season == 1 && episode > threshold ==> r is Some,
{
}

/// A download follows the series first, and a file on disk that would do ends
/// it: no release is looked for then, and one is otherwise.
pub proof fn file_on_disk_ends_the_download(
    s: &mut GrabFlow,
    rows: Vec<(EpisodeFileRow, Language)>,
    file: Option<EpisodeFileRow>,
    a: GrabAction,
)
    requires
        old(s).stage is Looking,
        call_ensures(
            follows::find_episode_file,
            (rows, old(s).season, old(s).episode, &old(s).sel),
            file,
        ),
        call_ensures(GrabFlow::step, (s, GrabEvent::Files(rows)), a),
    ensures
        file is None ==> a is Resolve && final(s).stage is Resolving && final(s).sel == old(s).sel
            && final(s).season == old(s).season && final(s).episode == old(s).episode,
        file matches Some(f) ==> (a matches GrabAction::Finish(g) && g.infohash@ == f.infohash@
            && g.file_idx == f.file_idx && g.already_grabbed) && final(s).stage is Done,
{
}

/// What was resolved is fetched, a pack by its season and a single release by
/// its episode; where nothing was, the download ends without.
pub proof fn resolved_release_is_fetched(
    s: &mut GrabFlow,
    e: GrabEvent,
    a: GrabAction,
)
    requires
        old(s).stage is Resolving,
        call_ensures(GrabFlow::step, (s, e), a),
    ensures
        e matches GrabEvent::ResolvedPack(p) ==> (a matches GrabAction::Ingest(q, n) && q == p && n
            is None) && final(s).pack && final(s).provider@ == p.indexer_provider@
            && final(s).external_id@ == p.indexer_torrent_id@ && final(s).stage is Ingesting,
        e matches GrabEvent::ResolvedSingleton(p) ==> (a matches GrabAction::Ingest(q, n) && q == p
            && n == Some(old(s).episode)) && !final(s).pack && final(s).provider@
            == p.indexer_provider@ && final(s).external_id@ == p.indexer_torrent_id@ && final(s).stage is Ingesting,
        e is NothingToTake ==> a is NotFound && final(s).stage is Done,
        a is Ingest ==> final(s).season == old(s).season && final(s).episode == old(s).episode
            && final(s).display_title == old(s).display_title && final(s).absolute_threshold
            == old(s).absolute_threshold,
{
}

/// Of a fetched pack the file of the episode is taken, of a fetched single
/// release the largest video; the torrent is stored for the provider that it
/// came from, under its own name where it has one. A pack without the episode
/// ends the download.
pub proof fn fetched_torrent_is_stored(
    s: &mut GrabFlow,
    t: IngestedTorrent,
    in_pack: Option<i64>,
    largest: i64,
    a: GrabAction,
)
    requires
        old(s).stage is Ingesting,
        call_ensures(pick_pack_file, (&t.files, old(s).season, old(s).episode), in_pack),
        call_ensures(pick_largest_video_file, (&t.files,), largest),
        call_ensures(GrabFlow::step, (s, GrabEvent::Ingested(t)), a),
    ensures
        old(s).pack && in_pack is None ==> a is NotFound && final(s).stage is Done,
        !old(s).pack || in_pack is Some ==> {
            &&& a is StoreTorrent
            &&& final(s).stage is Storing
            &&& final(s).file_idx == if old(s).pack {
                in_pack->0
            } else {
                largest
            }
            &&& final(s).infohash@ == t.infohash@
            &&& final(s).already_managed == t.already_managed
            &&& a->StoreTorrent_0.infohash@ == t.infohash@
            &&& a->StoreTorrent_0.total_size_bytes == t.total_size_bytes
            &&& a->StoreTorrent_0.source_provider@ == old(s).provider@
            &&& a->StoreTorrent_0.source_external_id@ == old(s).external_id@
            &&& t.name is Some ==> a->StoreTorrent_0.name@ == t.name->0@
            &&& t.name is None ==> old(s).display_title@.is_prefix_of(a->StoreTorrent_0.name@)
            &&& final(s).season == old(s).season && final(s).episode == old(s).episode
                && final(s).absolute_threshold == old(s).absolute_threshold
        },
{
    if a is StoreTorrent && t.name is None {
        let d = old(s).display_title@;
        let n = a->StoreTorrent_0.name@;
        assert(n.subrange(0, d.len() as int) =~= d);
    }
}

/// A stored torrent is assigned, then its collection is asked for, then the
/// episode is linked to its file there; the answer is the file that was taken,
/// and whether its torrent was there already.
pub proof fn stored_torrent_is_filed(
    s: &mut GrabFlow,
    e: GrabEvent,
    absolute: Option<i64>,
    a: GrabAction,
)
    requires
        call_ensures(
            absolute_episode,
            (old(s).season, old(s).episode, old(s).absolute_threshold),
            absolute,
        ),
        call_ensures(GrabFlow::step, (s, e), a),
    ensures
        old(s).stage is Following && e is Followed ==> a is ListFiles && final(s).stage is Looking
            && final(s).season == old(s).season && final(s).episode == old(s).episode && final(s).sel == old(s).sel,
        old(s).stage is Storing && e is Stored ==> a is Assign && final(s).stage is Assigning,
        old(s).stage is Assigning && e is Assigned ==> a is FindCollection && final(s).stage
            is Locating,
        old(s).stage is Storing && e is Stored || old(s).stage is Assigning && e is Assigned || a
            is LinkEpisode ==> final(s).infohash == old(s).infohash && final(s).file_idx == old(s).file_idx && final(s).already_managed == old(s).already_managed && final(s).season
            == old(s).season && final(s).episode == old(s).episode,
        old(s).stage is Locating && e is Collection && e->Collection_0 is Some ==> {
            &&& a is LinkEpisode
            &&& final(s).stage is Linking
            &&& a->LinkEpisode_0.collection_id == e->Collection_0->0
            &&& a->LinkEpisode_0.season == old(s).season
            &&& a->LinkEpisode_0.episode == old(s).episode
            &&& a->LinkEpisode_0.infohash@ == old(s).infohash@
            &&& a->LinkEpisode_0.file_idx == old(s).file_idx
            &&& a->LinkEpisode_0.absolute_episode == absolute
        },
        (old(s).stage is Locating && e is Collection && e->Collection_0 is None) || (old(s).stage
            is Linking && e is Linked) ==> (a matches GrabAction::Finish(g) && g.infohash@ == old(s).infohash@ && g.file_idx == old(s).file_idx && g.already_grabbed == old(s).already_managed) && final(s).stage is Done,
        old(s).stage is Done ==> a is OutOfTurn,
        a is OutOfTurn ==> *final(s) == *old(s),
{
}

/// A download is for what was asked, and starts with following the series.
pub proof fn download_is_for_the_request(
    title: String,
    season: i64,
    episode: i64,
    sel: LangSel,
    threshold: i64,
    r: GrabFlow,
)
    requires
        call_ensures(GrabFlow::new, (title, season, episode, sel, threshold), r),
    ensures
        r.display_title == title && r.season == season && r.episode == episode && r.sel == sel
            && r.absolute_threshold == threshold,
        r.stage is Following,
{
}

/// What was asked for and what was learnt is kept while packs and seeders are
/// looked into.
pub proof fn what_was_learnt_is_kept(s: &mut GrabResolver, e: ResolveEvent, a: ResolveAction)
    requires
        e matches ResolveEvent::Owned(torrents, _) ==> torrents.len() < u32::MAX,
        call_ensures(GrabResolver::step, (s, e), a),
        old(s).stage is Offers || old(s).stage is PackSweep || old(s).stage is PackRefresh
            || old(s).stage is PackWriteBack,
    ensures
        final(s).normalized_name == old(s).normalized_name && final(s).season == old(s).season
            && final(s).episode == old(s).episode && final(s).sel == old(s).sel,
        final(s).pack_first == old(s).pack_first && final(s).owns_season == old(s).owns_season,
        final(s).profile == old(s).profile && final(s).live == old(s).live,
{
}

/// Every event in turn brings the end closer, and there are sixteen at most.
pub proof fn resolution_comes_to_an_end(s: &mut GrabResolver, e: ResolveEvent, a: ResolveAction)
    requires
        e matches ResolveEvent::Owned(torrents, _) ==> torrents.len() < u32::MAX,
        call_ensures(GrabResolver::step, (s, e), a),
    ensures
        !(a is OutOfTurn) ==> events_left(*final(s)) < events_left(*old(s)),
        0 <= events_left(*old(s)) <= 16,
        events_left(*old(s)) == 0 <==> old(s).stage is Done,
{
}

} // verus!
