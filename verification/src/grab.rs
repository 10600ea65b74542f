//! Picking the release to download for an episode.
//!
//! Offers are ranked by how well they match what the household already owns
//! of the series, then by the recommended order of [`crate::ranking`]; the
//! language selection of [`crate::language`] then picks one.

use std::cmp::Ordering;

use vstd::prelude::*;
use vstd::string::StringExecFns;

use crate::language;
use crate::language::{LangSel, Language, Tag};
use crate::order;
use crate::order::Ranked;
use crate::ranking;
use crate::ranking::Candidate;
use crate::search::{SearchQuery, SearchResult, SortField, SortOrder};
use crate::text;
use crate::text_map;
use crate::text_map::TextMap;

verus! {

/// A cached offer of an indexer for one episode or one season pack.
#[derive(Debug, Clone)]
pub struct AvailableEpisodeRow {
    pub id: u128,
    pub normalized_name: String,
    pub season: i64,
    pub episode: i64,
    pub indexer_provider: String,
    pub indexer_torrent_id: String,
    pub magnet: String,
    pub quality: Option<String>,
    pub seeders: Option<i64>,
    pub size_bytes: Option<i64>,
    /// Milliseconds since the Unix epoch.
    pub found_at: i64,
    /// The language tag as stored.
    pub language_tag: Option<String>,
    /// What the tag stands for.
    pub language: Language,
    pub download_url: Option<String>,
    pub absolute_episode: Option<i64>,
    pub codec: Option<String>,
}

/// A release that a live search surfaced, with what its title tells.
#[derive(Debug, Clone)]
pub struct LiveRelease {
    pub result: SearchResult,
    pub language: Language,
    pub quality: Option<String>,
    /// `None` when the title names no codec.
    pub codec: Option<String>,
    /// The codec tag that is stored with the offer.
    pub codec_tag: String,
    pub absolute_episode: Option<i64>,
}

/// What is needed to download a picked release.
#[derive(Debug, Clone)]
pub struct PickedAvailability {
    pub magnet: String,
    pub indexer_provider: String,
    pub indexer_torrent_id: String,
    pub download_url: Option<String>,
}

/// An offer to store in the cache.
#[derive(Debug, Clone)]
pub struct UpsertAvailableEpisode {
    pub normalized_name: String,
    pub season: i64,
    pub episode: i64,
    pub indexer_provider: String,
    pub indexer_torrent_id: String,
    pub magnet: String,
    pub quality: Option<String>,
    pub seeders: Option<i64>,
    pub size_bytes: Option<i64>,
    pub language: Language,
    pub download_url: Option<String>,
    pub absolute_episode: Option<i64>,
    pub codec: Option<String>,
}

/// The resolution and codec in which the household owns a series. Picks
/// prefer a match and never require one.
#[derive(Debug, Clone)]
pub struct GrabProfile {
    pub quality: Option<String>,
    pub codec: Option<String>,
}

// ---------------------------------------------------------------------------
// The established profile
// ---------------------------------------------------------------------------

/// The largest count in `l`, from `from` on.
pub open spec fn top_count(l: Seq<(Seq<char>, u32)>, from: int) -> u32
    decreases l.len() - from,
{
    if from < 0 || from >= l.len() {
        0
    } else {
        let rest = top_count(l, from + 1);
        if l[from].1 >= rest {
            l[from].1
        } else {
            rest
        }
    }
}

/// The first key, from `from` on, with the count `n`.
pub open spec fn first_with(l: Seq<(Seq<char>, u32)>, n: u32, from: int) -> Option<Seq<char>>
    decreases l.len() - from,
{
    if from < 0 || from >= l.len() {
        None
    } else if l[from].1 == n {
        Some(l[from].0)
    } else {
        first_with(l, n, from + 1)
    }
}

/// The tag with the highest count; of several, the one that sorts first.
pub open spec fn majority(l: Seq<(Seq<char>, u32)>) -> Option<Seq<char>> {
    first_with(l, top_count(l, 0), 0)
}

/// No tag counts more often than the one at `i`, and every other that counts as
/// often sorts after it.
pub open spec fn counts_most(l: Seq<(Seq<char>, u32)>, i: int) -> bool {
    &&& forall|j: int| 0 <= j < l.len() ==> (#[trigger] l[j]).1 <= l[i].1
    &&& forall|j: int|
        0 <= j < l.len() && j != i && (#[trigger] l[j]).1 == l[i].1 ==> text::text_lt(
            l[i].0,
            l[j].0,
        )
}

/// The tag with the highest count; ties go to the tag that sorts first.
pub fn majority_tag(counts: TextMap<u32>) -> (r: Option<String>)
    ensures
        text::opt_view(r) == majority(counts@),
        match r {
            Some(t) => exists|i: int|
                0 <= i < counts@.len() && (#[trigger] counts@[i]).0 == t@ && counts_most(
                    counts@,
                    i,
                ),
            None => counts@.len() == 0,
        },
{
    let n: usize = counts.len();
    proof {
        if counts@.len() > 0 {
            let i = majority_counts_most(counts@);
            assert(counts@[i].0 == majority(counts@)->0);
        }
    }
    let mut best: u32 = 0;
    let mut i: usize = n;
    while 0 < i
        invariant
            i <= n == counts@.len(),
            best == top_count(counts@, i as int),
        decreases i,
    {
        i = i - 1;
        if *counts.value_at(i) >= best {
            best = *counts.value_at(i);
        }
    }
    let mut k: usize = 0;
    while k < n
        invariant
            k <= n == counts@.len(),
            majority(counts@) == first_with(counts@, best, k as int),
            n > 0 ==> exists|i: int|
                0 <= i < counts@.len() && Some((#[trigger] counts@[i]).0) == majority(counts@)
                    && counts_most(counts@, i),
        decreases n - k,
    {
        if *counts.value_at(k) == best {
            return Some(counts.key_at(k).to_string());
        }
        k = k + 1;
    }
    None
}

proof fn lemma_top_count(l: Seq<(Seq<char>, u32)>, from: int)
    requires
        0 <= from <= l.len(),
    ensures
        forall|j: int| from <= j < l.len() ==> (#[trigger] l[j]).1 <= top_count(l, from),
        from < l.len() ==> exists|j: int|
            from <= j < l.len() && (#[trigger] l[j]).1 == top_count(l, from),
    decreases l.len() - from,
{
    if from < l.len() {
        lemma_top_count(l, from + 1);
        let rest = top_count(l, from + 1);
        if l[from].1 < rest {
            let j = choose|j: int| from + 1 <= j < l.len() && (#[trigger] l[j]).1 == rest;
            assert(l[j].1 == top_count(l, from));
        } else {
            assert(l[from].1 == top_count(l, from));
        }
    }
}

proof fn lemma_first_with(l: Seq<(Seq<char>, u32)>, n: u32, from: int) -> (i: int)
    requires
        0 <= from,
        exists|j: int| from <= j < l.len() && (#[trigger] l[j]).1 == n,
    ensures
        from <= i < l.len(),
        l[i].1 == n,
        first_with(l, n, from) == Some(l[i].0),
        forall|j: int| from <= j < i ==> (#[trigger] l[j]).1 != n,
    decreases l.len() - from,
{
    if l[from].1 == n {
        from
    } else {
        lemma_first_with(l, n, from + 1)
    }
}

/// No tag counts more often than the one that is picked, and one that counts
/// as often sorts after it: the pick does not depend on the order of counting.
pub proof fn majority_counts_most(l: Seq<(Seq<char>, u32)>) -> (i: int)
    requires
        text_map::in_order(l),
        l.len() > 0,
    ensures
        0 <= i < l.len(),
        majority(l) == Some(l[i].0),
        counts_most(l, i),
{
    lemma_top_count(l, 0);
    let i = lemma_first_with(l, top_count(l, 0), 0);
    assert forall|j: int|
        0 <= j < l.len() && j != i && (#[trigger] l[j]).1 == l[i].1 implies text::text_lt(
        l[i].0,
        l[j].0,
    ) by {
        assert(i < j);
    }
    i
}

/// A torrent that backs an owned episode file, with what its name tells;
/// `known` is false when the torrent itself is gone.
#[derive(Debug, Clone)]
pub struct OwnedTorrent {
    pub infohash: String,
    pub known: bool,
    pub quality: Option<String>,
    /// `None` when the name tells no codec.
    pub codec: Option<String>,
}

/// Whether the torrent at `i` backs an earlier file too.
pub open spec fn seen_before(files: Seq<OwnedTorrent>, i: int) -> bool {
    exists|j: int| 0 <= j < i && (#[trigger] files[j]).infohash@ == files[i].infohash@
}

/// One more for the tag.
pub open spec fn bumped(counts: Seq<(Seq<char>, u32)>, tag: Option<Seq<char>>) -> Seq<
    (Seq<char>, u32),
> {
    match tag {
        None => counts,
        Some(t) => {
            let n = match text_map::lookup(counts, t) {
                Some(n) => n,
                None => 0u32,
            };
            text_map::put(counts, t, (n + 1) as u32)
        },
    }
}

/// How often each tag occurs among the distinct torrents behind the first `n`
/// files.
pub open spec fn tag_counts(files: Seq<OwnedTorrent>, codec: bool, n: int) -> Seq<
    (Seq<char>, u32),
>
    decreases n,
{
    if n <= 0 {
        seq![]
    } else {
        let before = tag_counts(files, codec, n - 1);
        let f = files[n - 1];
        if seen_before(files, n - 1) || !f.known {
            before
        } else if codec {
            bumped(before, text::opt_view(f.codec))
        } else {
            bumped(before, text::opt_view(f.quality))
        }
    }
}

proof fn lemma_counts_bound(files: Seq<OwnedTorrent>, codec: bool, n: int)
    requires
        0 <= n <= u32::MAX,
    ensures
        forall|k: Seq<char>|
            (#[trigger] text_map::lookup(tag_counts(files, codec, n), k)) is Some ==>
                text_map::lookup(tag_counts(files, codec, n), k)->0 <= n,
    decreases n,
{
    if n > 0 {
        lemma_counts_bound(files, codec, n - 1);
        let before = tag_counts(files, codec, n - 1);
        let f = files[n - 1];
        if !(seen_before(files, n - 1) || !f.known) {
            let tag = if codec {
                text::opt_view(f.codec)
            } else {
                text::opt_view(f.quality)
            };
            if let Some(t) = tag {
                let m = match text_map::lookup(before, t) {
                    Some(c) => c,
                    None => 0u32,
                };
                assert forall|k: Seq<char>|
                    (#[trigger] text_map::lookup(tag_counts(files, codec, n), k)) is Some implies
                    text_map::lookup(tag_counts(files, codec, n), k)->0 <= n by {
                    text_map::lookup_after_put(before, t, (m + 1) as u32, k);
                }
            }
        }
    }
}

fn bump(counts: &mut TextMap<u32>, tag: &Option<String>)
    requires
        forall|k: Seq<char>|
            (#[trigger] text_map::lookup(old(counts)@, k)) is Some ==> text_map::lookup(
                old(counts)@,
                k,
            )->0 < u32::MAX,
    ensures
        final(counts)@ == bumped(old(counts)@, text::opt_view(*tag)),
{
    match tag {
        None => {},
        Some(t) => {
            let n: u32 = match counts.get(t.as_str()) {
                Some(c) => *c,
                None => 0,
            };
            counts.insert(t.clone(), n + 1);
        },
    }
}

/// The established quality: the commonest, 1080p when nothing tells.
pub open spec fn profile_quality(files: Seq<OwnedTorrent>) -> Option<Seq<char>> {
    match majority(tag_counts(files, false, files.len() as int)) {
        Some(q) => Some(q),
        None => Some("1080p"@),
    }
}

/// The established codec: the commonest, if any file tells one.
pub open spec fn profile_codec(files: Seq<OwnedTorrent>) -> Option<Seq<char>> {
    majority(tag_counts(files, true, files.len() as int))
}

/// The established profile of a series, from the torrents behind its episode
/// files; a season pack counts once.
pub fn dominant_owned_profile(owned_files: &Vec<OwnedTorrent>) -> (r: GrabProfile)
    requires
        owned_files.len() < u32::MAX,
    ensures
        text::opt_view(r.quality) == profile_quality(owned_files@),
        text::opt_view(r.codec) == profile_codec(owned_files@),
{
    let mut quality_counts: TextMap<u32> = TextMap::new();
    let mut codec_counts: TextMap<u32> = TextMap::new();
    for i in 0..owned_files.len()
        invariant
            owned_files.len() < u32::MAX,
            quality_counts@ == tag_counts(owned_files@, false, i as int),
            codec_counts@ == tag_counts(owned_files@, true, i as int),
    {
        let f = &owned_files[i];
        let mut seen = false;
        for j in 0..i
            invariant
                i < owned_files.len(),
                *f == owned_files@[i as int],
                seen <==> exists|k: int|
                    0 <= k < j && (#[trigger] owned_files@[k]).infohash@ == f.infohash@,
        {
            if text::same_text(owned_files[j].infohash.as_str(), f.infohash.as_str()) {
                seen = true;
            }
        }
        assert(seen == seen_before(owned_files@, i as int));
        if !seen && f.known {
            proof {
                lemma_counts_bound(owned_files@, false, i as int);
                lemma_counts_bound(owned_files@, true, i as int);
            }
            bump(&mut quality_counts, &f.quality);
            bump(&mut codec_counts, &f.codec);
        }
    }
    let quality = match majority_tag(quality_counts) {
        Some(q) => Some(q),
        None => Some("1080p".to_string()),
    };
    GrabProfile { quality, codec: majority_tag(codec_counts) }
}

// ---------------------------------------------------------------------------
// Ranking of offers
// ---------------------------------------------------------------------------

/// How an offered tag meets a preferred one: 0 for a match or where nothing
/// is preferred, 1 for an untagged offer, 2 for a mismatch.
pub open spec fn tag_rank_of(offer: Option<Seq<char>>, preferred: Option<Seq<char>>) -> u8 {
    match preferred {
        None => 0,
        Some(p) => match offer {
            None => 1,
            Some(o) => if text::lowered(o) == text::lowered(p) {
                0
            } else {
                2
            },
        },
    }
}

pub fn tag_rank(offer: Option<&str>, preferred: Option<&str>) -> (r: u8)
    ensures
        r == tag_rank_of(text::opt_str_view(offer), text::opt_str_view(preferred)),
{
    match preferred {
        None => 0,
        Some(p) => match offer {
            None => 1,
            Some(o) => {
                if text::eq_ignore_ascii_case(o, p) {
                    0
                } else {
                    2
                }
            },
        },
    }
}

/// What the ranking of an offer goes by.
#[derive(Debug, Clone, Copy, PartialEq, Eq, Structural)]
pub struct OfferRank {
    pub candidate: Candidate,
    pub quality: u8,
    pub codec: u8,
}

/// Junk last, then the better quality match, the better codec match, alive
/// before near-dead, and the recommended order.
pub open spec fn outranks(a: OfferRank, b: OfferRank) -> bool {
    let (ca, cb) = (a.candidate, b.candidate);
    if ranking::is_big_enough(ca) != ranking::is_big_enough(cb) {
        ranking::is_big_enough(ca)
    } else if a.quality != b.quality {
        a.quality < b.quality
    } else if a.codec != b.codec {
        a.codec < b.codec
    } else if ranking::is_alive(ca) != ranking::is_alive(cb) {
        ranking::is_alive(ca)
    } else {
        ranking::recommended(ca, cb)
    }
}

/// The ranking of offers is a strict weak order.
pub proof fn outranks_is_strict_weak_order(a: OfferRank, b: OfferRank, c: OfferRank)
    ensures
        !outranks(a, a),
        outranks(a, b) ==> !outranks(b, a),
        outranks(a, b) && outranks(b, c) ==> outranks(a, c),
        !outranks(a, b) && !outranks(b, c) ==> !outranks(a, c),
{
    ranking::recommended_is_strict_weak_order(a.candidate, b.candidate, c.candidate);
}

/// A sample never outranks a release of plausible size, whatever their tags.
pub proof fn junk_never_wins(a: OfferRank, b: OfferRank)
    requires
        ranking::is_big_enough(a.candidate),
        !ranking::is_big_enough(b.candidate),
    ensures
        outranks(a, b),
{
}

/// Among releases of plausible size, the better quality match wins, however
/// few seeders it has and however large it is.
pub proof fn quality_match_wins(a: OfferRank, b: OfferRank)
    requires
        ranking::is_big_enough(a.candidate),
        ranking::is_big_enough(b.candidate),
        a.quality < b.quality,
    ensures
        outranks(a, b),
{
}

impl OfferRank {
    pub fn beats(self, other: OfferRank) -> (r: bool)
        ensures
            r == outranks(self, other),
    {
        let ca = self.candidate;
        let cb = other.candidate;
        if ca.big_enough() != cb.big_enough() {
            ca.big_enough()
        } else if self.quality != other.quality {
            self.quality < other.quality
        } else if self.codec != other.codec {
            self.codec < other.codec
        } else if ca.alive() != cb.alive() {
            ca.alive()
        } else {
            ca.beats(cb)
        }
    }
}

/// An offer with its rank and language.
#[derive(Debug, Clone)]
pub struct Offer<T> {
    pub rank: OfferRank,
    pub language: Language,
    pub item: T,
}

impl<T> Ranked for Offer<T> {
    open spec fn before(self, other: Self) -> bool {
        outranks(self.rank, other.rank)
    }

    proof fn before_is_strict_weak_order(a: Self, b: Self, c: Self) {
        outranks_is_strict_weak_order(a.rank, b.rank, c.rank);
    }

    fn sorts_before(&self, other: &Self) -> (r: bool) {
        self.rank.beats(other.rank)
    }
}

pub open spec fn offer_tags<T>(offers: Seq<Offer<T>>) -> Seq<Tag> {
    Seq::new(
        offers.len(),
        |i: int| (offers[i].language, ranking::is_sane(offers[i].rank.candidate)),
    )
}

/// The offer that a selection picks: the first that it finds among the offers
/// in order of rank.
pub open spec fn best_offer<T>(offers: Seq<Offer<T>>, sel: LangSel) -> Option<Offer<T>> {
    let s = order::sorted(offers);
    match language::selected(offer_tags(s), sel) {
        Some(i) => Some(s[i]),
        None => None,
    }
}

fn pick_offer<T>(offers: Vec<Offer<T>>, sel: &LangSel) -> (r: Option<Offer<T>>)
    ensures
        r == best_offer(offers@, *sel),
{
    let mut s = order::sort(offers);
    let ghost ranked = s@;
    let mut tags: Vec<Tag> = Vec::new();
    for i in 0..s.len()
        invariant
            s@ == ranked,
            tags@ == offer_tags(ranked).take(i as int),
    {
        tags.push((s[i].language, s[i].rank.candidate.sane()));
        assert(offer_tags(ranked).take(i + 1) =~= offer_tags(ranked).take(i as int).push(
            offer_tags(ranked)[i as int],
        ));
    }
    assert(tags@ =~= offer_tags(ranked));
    match language::select_index(&tags, sel) {
        Some(i) => Some(s.remove(i)),
        None => None,
    }
}

/// What a selection picks is on offer, and an exact one is in its language.
pub proof fn picked_is_on_offer<T>(offers: Seq<Offer<T>>, sel: LangSel)
    ensures
        best_offer(offers, sel) matches Some(o) ==> offers.contains(o),
        (best_offer(offers, sel) matches Some(o) && sel matches LangSel::Exact(l)) ==> best_offer(
            offers,
            sel,
        )->0.language == sel->Exact_0,
{
    broadcast use vstd::seq_lib::group_to_multiset_ensures;

    let s = order::sorted(offers);
    order::sorted_is_ordered_permutation(offers);
    language::selection_is_in_range(offer_tags(s), sel);
    if let Some(i) = language::selected(offer_tags(s), sel) {
        assert(s.to_multiset().contains(s[i]));
        assert(offers.to_multiset().contains(s[i]));
        if let LangSel::Exact(l) = sel {
            language::exact_never_crosses_languages(offer_tags(s), l);
        }
    }
}

// ---------------------------------------------------------------------------
// Cached offers
// ---------------------------------------------------------------------------

/// The codec of a cached offer; the tag `unknown` tells nothing.
pub open spec fn codec_of(r: AvailableEpisodeRow) -> Option<Seq<char>> {
    match r.codec {
        Some(c) => if c@ == "unknown"@ {
            None
        } else {
            Some(c@)
        },
        None => None,
    }
}

pub open spec fn candidate_of(r: AvailableEpisodeRow) -> Candidate {
    Candidate {
        seeders: r.seeders,
        size_bytes: r.size_bytes,
        is_multi: r.language == Language::Multi,
    }
}

pub open spec fn rank_of(r: AvailableEpisodeRow, p: GrabProfile) -> OfferRank {
    OfferRank {
        candidate: candidate_of(r),
        quality: tag_rank_of(text::opt_view(r.quality), text::opt_view(p.quality)),
        codec: tag_rank_of(codec_of(r), text::opt_view(p.codec)),
    }
}

pub open spec fn offer_of(r: AvailableEpisodeRow, p: GrabProfile) -> Offer<AvailableEpisodeRow> {
    Offer { rank: rank_of(r, p), language: r.language, item: r }
}

pub open spec fn offers_of(rows: Seq<AvailableEpisodeRow>, p: GrabProfile) -> Seq<
    Offer<AvailableEpisodeRow>,
> {
    Seq::new(rows.len(), |i: int| offer_of(rows[i], p))
}

pub fn offer_codec(r: &AvailableEpisodeRow) -> (o: Option<&str>)
    ensures
        text::opt_str_view(o) == codec_of(*r),
{
    match &r.codec {
        Some(c) => {
            if text::same_text(c.as_str(), "unknown") {
                None
            } else {
                Some(c.as_str())
            }
        },
        None => None,
    }
}

/// A cached offer as the recommended order sees it.
pub fn offer_candidate(r: &AvailableEpisodeRow) -> (c: Candidate)
    ensures
        c == candidate_of(*r),
{
    Candidate {
        seeders: r.seeders,
        size_bytes: r.size_bytes,
        is_multi: r.language == Language::Multi,
    }
}

pub fn offer_rank(r: &AvailableEpisodeRow, profile: &GrabProfile) -> (k: OfferRank)
    ensures
        k == rank_of(*r, *profile),
{
    OfferRank {
        candidate: offer_candidate(r),
        quality: tag_rank(text::opt_str(&r.quality), text::opt_str(&profile.quality)),
        codec: tag_rank(offer_codec(r), text::opt_str(&profile.codec)),
    }
}

/// Compares two cached offers; the one to take first is the lesser.
pub fn offer_cmp(a: &AvailableEpisodeRow, b: &AvailableEpisodeRow, profile: &GrabProfile) -> (r:
    Ordering)
    ensures
        r == Ordering::Less <==> outranks(rank_of(*a, *profile), rank_of(*b, *profile)),
        r == Ordering::Greater <==> outranks(rank_of(*b, *profile), rank_of(*a, *profile)),
{
    let ra = offer_rank(a, profile);
    let rb = offer_rank(b, profile);
    proof {
        outranks_is_strict_weak_order(ra, rb, ra);
    }
    if ra.beats(rb) {
        Ordering::Less
    } else if rb.beats(ra) {
        Ordering::Greater
    } else {
        Ordering::Equal
    }
}

fn collect_offers(rows: Vec<AvailableEpisodeRow>, profile: &GrabProfile) -> (r: Vec<
    Offer<AvailableEpisodeRow>,
>)
    ensures
        r@ == offers_of(rows@, *profile),
{
    let ghost all = rows@;
    let mut out: Vec<Offer<AvailableEpisodeRow>> = Vec::new();
    for row in it: rows
        invariant
            it.seq() == all,
            out@ == offers_of(all, *profile).take(it.index()),
    {
        let rank = offer_rank(&row, profile);
        let lang = row.language;
        assert(row == all[it.index()]);
        out.push(Offer { rank, language: lang, item: row });
        assert(offers_of(all, *profile).take(it.index() + 1) =~= offers_of(all, *profile).take(
            it.index(),
        ).push(offers_of(all, *profile)[it.index()]));
    }
    assert(offers_of(all, *profile).take(all.len() as int) =~= offers_of(all, *profile));
    out
}

/// What downloading a cached offer takes.
pub open spec fn pick_of(r: AvailableEpisodeRow) -> PickedAvailability {
    PickedAvailability {
        magnet: r.magnet,
        indexer_provider: r.indexer_provider,
        indexer_torrent_id: r.indexer_torrent_id,
        download_url: r.download_url,
    }
}

/// The cached offer to take for an episode: the best in the wanted language.
pub fn best_available(rows: Vec<AvailableEpisodeRow>, sel: &LangSel, profile: &GrabProfile) -> (r:
    Option<PickedAvailability>)
    ensures
        r == match best_offer(offers_of(rows@, *profile), *sel) {
            Some(o) => Some(pick_of(o.item)),
            None => None,
        },
{
    match pick_offer(collect_offers(rows, profile), sel) {
        Some(o) => Some(
            PickedAvailability {
                magnet: o.item.magnet,
                indexer_provider: o.item.indexer_provider,
                indexer_torrent_id: o.item.indexer_torrent_id,
                download_url: o.item.download_url,
            },
        ),
        None => None,
    }
}

/// The cached season pack to take, and whether it is sane.
pub fn find_pack_offer(packs: Vec<AvailableEpisodeRow>, sel: &LangSel, profile: &GrabProfile) -> (r:
    Option<(PickedAvailability, bool)>)
    ensures
        r == match best_offer(offers_of(packs@, *profile), *sel) {
            Some(o) => Some((pick_of(o.item), ranking::is_sane(candidate_of(o.item)))),
            None => None,
        },
{
    proof {
        picked_is_on_offer(offers_of(packs@, *profile), *sel);
    }
    match pick_offer(collect_offers(packs, profile), sel) {
        Some(o) => {
            let sane = offer_candidate(&o.item).sane();
            Some(
                (
                    PickedAvailability {
                        magnet: o.item.magnet,
                        indexer_provider: o.item.indexer_provider,
                        indexer_torrent_id: o.item.indexer_torrent_id,
                        download_url: o.item.download_url,
                    },
                    sane,
                ),
            )
        },
        None => None,
    }
}

// ---------------------------------------------------------------------------
// Live releases
// ---------------------------------------------------------------------------

pub open spec fn seeders_of(r: SearchResult) -> Option<i64> {
    match r.seeders {
        Some(s) => Some(s as i64),
        None => None,
    }
}

pub open spec fn live_candidate(r: LiveRelease) -> Candidate {
    Candidate {
        seeders: seeders_of(r.result),
        size_bytes: match r.result.size_bytes {
            Some(n) => if n <= i64::MAX {
                Some(n as i64)
            } else {
                None
            },
            None => None,
        },
        is_multi: r.language == Language::Multi,
    }
}

pub open spec fn live_offer(r: LiveRelease, p: GrabProfile) -> Offer<LiveRelease> {
    Offer {
        rank: OfferRank {
            candidate: live_candidate(r),
            quality: tag_rank_of(text::opt_view(r.quality), text::opt_view(p.quality)),
            codec: tag_rank_of(text::opt_view(r.codec), text::opt_view(p.codec)),
        },
        language: r.language,
        item: r,
    }
}

/// The live releases worth offering: all but those that are confirmed to
/// have no seeders.
pub open spec fn live_offers(results: Seq<LiveRelease>, p: GrabProfile) -> Seq<Offer<LiveRelease>>
    decreases results.len(),
{
    if results.len() == 0 {
        seq![]
    } else {
        let before = live_offers(results.drop_last(), p);
        let r = results.last();
        if r.result.seeders == Some(0u32) {
            before
        } else {
            before.push(live_offer(r, p))
        }
    }
}

/// A live release as the recommended order sees it.
pub fn result_candidate(r: &LiveRelease) -> (c: Candidate)
    ensures
        c == live_candidate(*r),
{
    Candidate {
        seeders: live_seeders(&r.result),
        size_bytes: match r.result.size_bytes {
            Some(n) => {
                if n <= i64::MAX as u64 {
                    Some(n as i64)
                } else {
                    None
                }
            },
            None => None,
        },
        is_multi: r.language == Language::Multi,
    }
}

fn live_seeders(r: &SearchResult) -> (s: Option<i64>)
    ensures
        s == seeders_of(*r),
{
    match r.seeders {
        Some(n) => Some(n as i64),
        None => None,
    }
}

/// The size as it is stored; beyond the signed range it wraps.
pub open spec fn stored_size(size: Option<u64>) -> Option<i64> {
    match size {
        Some(n) => Some(n as i64),
        None => None,
    }
}

/// The cache entry of a picked live release.
pub open spec fn is_record_of(
    u: UpsertAvailableEpisode,
    best: LiveRelease,
    normalized_name: Seq<char>,
    season: i64,
    episode: i64,
) -> bool {
    &&& u.normalized_name@ == normalized_name
    &&& u.season == season
    &&& u.episode == episode
    &&& u.indexer_provider@ == best.result.provider_id@
    &&& u.indexer_torrent_id@ == best.result.external_id@
    &&& u.magnet@ == ""@
    &&& u.quality is None
    &&& u.seeders == seeders_of(best.result)
    &&& u.size_bytes == stored_size(best.result.size_bytes)
    &&& u.language == best.language
    &&& text::opt_view(u.download_url) == text::opt_view(best.result.download_url)
    &&& u.absolute_episode == best.absolute_episode
    &&& text::opt_view(u.codec) == Some(best.codec_tag@)
}

pub open spec fn is_pick_of_live(p: PickedAvailability, best: LiveRelease) -> bool {
    &&& p.magnet@ == ""@
    &&& p.indexer_provider@ == best.result.provider_id@
    &&& p.indexer_torrent_id@ == best.result.external_id@
    &&& text::opt_view(p.download_url) == text::opt_view(best.result.download_url)
}

/// The live release to take for an episode, with its entry for the cache.
pub fn pick_live_singleton(
    normalized_name: &str,
    sel: &LangSel,
    profile: &GrabProfile,
    season: i64,
    episode: i64,
    results: Vec<LiveRelease>,
) -> (r: Option<(PickedAvailability, UpsertAvailableEpisode)>)
    ensures
        match r {
            Some((p, u)) => {
                &&& best_offer(live_offers(results@, *profile), *sel) is Some
                &&& is_pick_of_live(
                    p,
                    best_offer(live_offers(results@, *profile), *sel)->0.item,
                )
                &&& is_record_of(
                    u,
                    best_offer(live_offers(results@, *profile), *sel)->0.item,
                    normalized_name@,
                    season,
                    episode,
                )
            },
            None => best_offer(live_offers(results@, *profile), *sel) is None,
        },
{
    let ghost all = results@;
    let mut offers: Vec<Offer<LiveRelease>> = Vec::new();
    assert(offers@ =~= live_offers(all.take(0), *profile));
    for res in it: results
        invariant
            it.seq() == all,
            offers@ == live_offers(all.take(it.index()), *profile),
    {
        proof {
            assert(all.take(it.index() + 1).drop_last() =~= all.take(it.index()));
            assert(all.take(it.index() + 1).last() == res);
        }
        let dead = match res.result.seeders {
            Some(n) => n == 0,
            None => false,
        };
        if !dead {
            let rank = OfferRank {
                candidate: result_candidate(&res),
                quality: tag_rank(text::opt_str(&res.quality), text::opt_str(&profile.quality)),
                codec: tag_rank(text::opt_str(&res.codec), text::opt_str(&profile.codec)),
            };
            let lang = res.language;
            offers.push(Offer { rank, language: lang, item: res });
        }
    }
    assert(all.take(all.len() as int) =~= all);
    match pick_offer(offers, sel) {
        None => None,
        Some(o) => {
            let best = o.item;
            let pick = PickedAvailability {
                magnet: "".to_string(),
                indexer_provider: best.result.provider_id.clone(),
                indexer_torrent_id: best.result.external_id.clone(),
                download_url: text::clone_opt(&best.result.download_url),
            };
            let size_bytes = match best.result.size_bytes {
                Some(n) => Some(#[verifier::truncate] (n as i64)),
                None => None,
            };
            let record = UpsertAvailableEpisode {
                normalized_name: normalized_name.to_string(),
                season,
                episode,
                indexer_provider: best.result.provider_id.clone(),
                indexer_torrent_id: best.result.external_id.clone(),
                magnet: "".to_string(),
                quality: None,
                seeders: live_seeders(&best.result),
                size_bytes,
                language: best.language,
                download_url: text::clone_opt(&best.result.download_url),
                absolute_episode: best.absolute_episode,
                codec: Some(best.codec_tag),
            };
            Some((pick, record))
        },
    }
}

proof fn lemma_live_offers_alive(results: Seq<LiveRelease>, p: GrabProfile)
    ensures
        forall|i: int|
            0 <= i < live_offers(results, p).len() ==> (#[trigger] live_offers(
                results,
                p,
            )[i]).item.result.seeders != Some(0u32),
    decreases results.len(),
{
    if results.len() > 0 {
        lemma_live_offers_alive(results.drop_last(), p);
    }
}

/// A release that a live search confirms to have no seeders is never picked
/// from that search.
pub proof fn dead_release_is_never_picked(results: Seq<LiveRelease>, p: GrabProfile, sel: LangSel)
    ensures
        best_offer(live_offers(results, p), sel) matches Some(o) ==> o.item.result.seeders != Some(
            0u32,
        ),
{
    lemma_live_offers_alive(results, p);
    picked_is_on_offer(live_offers(results, p), sel);
    if let Some(o) = best_offer(live_offers(results, p), sel) {
        let i = choose|i: int|
            0 <= i < live_offers(results, p).len() && live_offers(results, p)[i] == o;
        assert(live_offers(results, p)[i].item.result.seeders != Some(0u32));
    }
}

/// Nothing that is known to have no seeders is picked from cached offers, where
/// none such is listed.
pub proof fn dead_offer_is_never_picked(
    rows: Seq<AvailableEpisodeRow>,
    p: GrabProfile,
    sel: LangSel,
)
    requires
        forall|i: int| 0 <= i < rows.len() ==> (#[trigger] rows[i]).seeders != Some(0i64),
    ensures
        best_offer(offers_of(rows, p), sel) matches Some(o) ==> o.item.seeders != Some(0i64)
            && rows.contains(o.item),
{
    picked_is_on_offer(offers_of(rows, p), sel);
    if let Some(o) = best_offer(offers_of(rows, p), sel) {
        let i = choose|i: int| 0 <= i < offers_of(rows, p).len() && offers_of(rows, p)[i] == o;
        assert(rows[i] == o.item);
    }
}

/// Whether a live result is the release of a cached offer.
pub open spec fn is_release_of(r: LiveRelease, row: AvailableEpisodeRow) -> bool {
    r.result.provider_id@ == row.indexer_provider@ && r.result.external_id@ == row.indexer_torrent_id@
}

/// The seeders of the first live result, from `from` on, that is the release
/// of `row`; `None` when there is none, or when it tells no number.
pub open spec fn fresh_seeders(row: AvailableEpisodeRow, live: Seq<LiveRelease>, from: int)
    -> Option<i64>
    decreases live.len() - from,
{
    if from < 0 || from >= live.len() {
        None
    } else if is_release_of(live[from], row) {
        seeders_of(live[from].result)
    } else {
        fresh_seeders(row, live, from + 1)
    }
}

/// The fresh number of seeders of a cached offer, where the search surfaced
/// the release and told one.
pub fn matching_live_seeders(row: &AvailableEpisodeRow, live: &Vec<LiveRelease>) -> (r: Option<
    i64,
>)
    ensures
        r == fresh_seeders(*row, live@, 0),
{
    let mut i: usize = 0;
    while i < live.len()
        invariant
            i <= live.len(),
            fresh_seeders(*row, live@, 0) == fresh_seeders(*row, live@, i as int),
        decreases live.len() - i,
    {
        if text::same_text(live[i].result.provider_id.as_str(), row.indexer_provider.as_str())
            && text::same_text(live[i].result.external_id.as_str(), row.indexer_torrent_id.as_str()) {
            return live_seeders(&live[i].result);
        }
        i = i + 1;
    }
    None
}

/// The numbers of seeders to write back onto cached offers: one for each row
/// whose fresh number differs from the cached one.
pub open spec fn liveness_updates(rows: Seq<AvailableEpisodeRow>, live: Seq<LiveRelease>) -> Seq<
    (u128, i64),
>
    decreases rows.len(),
{
    if rows.len() == 0 {
        seq![]
    } else {
        let before = liveness_updates(rows.drop_last(), live);
        let row = rows.last();
        match fresh_seeders(row, live, 0) {
            Some(s) => if row.seeders != Some(s) {
                before.push((row.id, s))
            } else {
                before
            },
            None => before,
        }
    }
}

/// A cached offer that a live search confirms to have no seeders is written
/// down as such.
pub proof fn confirmed_death_is_written_back(
    rows: Seq<AvailableEpisodeRow>,
    live: Seq<LiveRelease>,
    i: int,
)
    requires
        0 <= i < rows.len(),
        fresh_seeders(rows[i], live, 0) == Some(0i64),
    ensures
        rows[i].seeders == Some(0i64) || liveness_updates(rows, live).contains((rows[i].id, 0i64)),
    decreases rows.len(),
{
    let before = liveness_updates(rows.drop_last(), live);
    let all = liveness_updates(rows, live);
    if rows[i].seeders != Some(0i64) {
        if i < rows.len() - 1 {
            confirmed_death_is_written_back(rows.drop_last(), live, i);
            let k = choose|k: int| 0 <= k < before.len() && before[k] == (rows[i].id, 0i64);
            assert(all[k] == before[k]);
        } else {
            assert(all[before.len() as int] == (rows[i].id, 0i64));
        }
    }
}

/// The numbers of seeders to write back onto cached offers.
pub fn refresh_offer_liveness(rows: &Vec<AvailableEpisodeRow>, live: &Vec<LiveRelease>) -> (r: Vec<
    (u128, i64),
>)
    ensures
        r@ == liveness_updates(rows@, live@),
{
    let mut out: Vec<(u128, i64)> = Vec::new();
    assert(out@ =~= liveness_updates(rows@.take(0), live@));
    for i in 0..rows.len()
        invariant
            out@ == liveness_updates(rows@.take(i as int), live@),
    {
        assert(rows@.take(i + 1).drop_last() =~= rows@.take(i as int));
        let row = &rows[i];
        match matching_live_seeders(row, live) {
            Some(s) => {
                let differs = match row.seeders {
                    Some(n) => n != s,
                    None => true,
                };
                if differs {
                    out.push((row.id, s));
                }
            },
            None => {},
        }
    }
    assert(rows@.take(rows.len() as int) =~= rows@);
    out
}

// ---------------------------------------------------------------------------
// Search for one episode or pack
// ---------------------------------------------------------------------------

/// `title SxxExx`, or `title Sxx` for a season pack.
pub open spec fn episode_query(title: Seq<char>, season: i64, episode: Option<i64>) -> Seq<char> {
    let head = title + " S"@ + text::two_columns(season as int);
    match episode {
        Some(e) => head + "E"@ + text::two_columns(e as int),
        None => head,
    }
}

pub fn episode_query_text(title: &str, season: i64, episode: Option<i64>) -> (r: String)
    ensures
        r@ == episode_query(title@, season, episode),
{
    let mut q = title.to_string();
    q.append(" S");
    q.append(text::two_column_i64(season).as_str());
    match episode {
        Some(e) => {
            q.append("E");
            q.append(text::two_column_i64(e).as_str());
        },
        None => {},
    }
    q
}

/// The search that surfaces one episode, or one season pack; `series_key` is
/// the normalised form of the title.
pub fn build_reprime_query(
    display_title: &str,
    season: i64,
    episode: Option<i64>,
    series_key: String,
) -> (r: SearchQuery)
    ensures
        r.q@ == episode_query(display_title@, season, episode),
        r.page == Some(1u32),
        r.limit == Some(20u32),
        r.sort_by == Some(SortField::Seeders),
        r.order == Some(SortOrder::Desc),
        r.kind is None,
        r.parsed_title == Some(series_key),
        r.season == Some(season as u32),
        r.episode == match episode {
            Some(e) => Some(e as u32),
            None => None,
        },
        r.year is None,
{
    let ep = match episode {
        Some(e) => Some(#[verifier::truncate] (e as u32)),
        None => None,
    };
    SearchQuery {
        q: episode_query_text(display_title, season, episode),
        page: Some(1),
        limit: Some(20),
        sort_by: Some(SortField::Seeders),
        order: Some(SortOrder::Desc),
        kind: None,
        parsed_title: Some(series_key),
        season: Some(#[verifier::truncate] (season as u32)),
        episode: ep,
        year: None,
    }
}

// ---------------------------------------------------------------------------
// Laws
// ---------------------------------------------------------------------------

/// How a tag that was told meets one that is preferred: nothing preferred, or
/// the same in either case, is best; telling none comes before telling another.
pub proof fn tags_meet_in_three_ways(
    offer: Option<&str>,
    preferred: Option<&str>,
    same: bool,
    r: u8,
)
    requires
        offer is Some && preferred is Some ==> call_ensures(
            text::eq_ignore_ascii_case,
            (offer->0, preferred->0),
            same,
        ),
        call_ensures(tag_rank, (offer, preferred), r),
    ensures
        preferred is None ==> r == 0,
        preferred is Some && offer is None ==> r == 1,
        preferred is Some && offer is Some ==> r == if same {
            0u8
        } else {
            2u8
        },
{
}

/// An offer beats another by being no sample where the other is; among equals by
/// the better match in quality, then in codec, then by being alive, and at last
/// by what is recommended.
pub proof fn offers_are_ranked_in_turn(
    a: OfferRank,
    b: OfferRank,
    big_a: bool,
    big_b: bool,
    alive_a: bool,
    alive_b: bool,
    recommended: bool,
    r: bool,
)
    requires
        call_ensures(Candidate::big_enough, (a.candidate,), big_a),
        call_ensures(Candidate::big_enough, (b.candidate,), big_b),
        call_ensures(Candidate::alive, (a.candidate,), alive_a),
        call_ensures(Candidate::alive, (b.candidate,), alive_b),
        call_ensures(Candidate::beats, (a.candidate, b.candidate), recommended),
        call_ensures(OfferRank::beats, (a, b), r),
    ensures
        big_a != big_b ==> r == big_a,
        big_a == big_b && a.quality != b.quality ==> r == (a.quality < b.quality),
        big_a == big_b && a.quality == b.quality && a.codec != b.codec ==> r == (a.codec
            < b.codec),
        big_a == big_b && a.quality == b.quality && a.codec == b.codec && alive_a != alive_b ==> r
            == alive_a,
        big_a == big_b && a.quality == b.quality && a.codec == b.codec && alive_a == alive_b ==> r
            == recommended,
{
}

/// A cached offer is ranked by its own seeders and size, by whether it is in
/// several languages, and by how its tags meet the profile; a codec that is
/// stored as unknown is none.
pub proof fn cached_offer_is_ranked_by_its_tags(
    row: &AvailableEpisodeRow,
    profile: &GrabProfile,
    c: Candidate,
    codec: Option<&str>,
    k: OfferRank,
)
    requires
        call_ensures(offer_candidate, (row,), c),
        call_ensures(offer_codec, (row,), codec),
        call_ensures(offer_rank, (row, profile), k),
    ensures
        c.seeders == row.seeders && c.size_bytes == row.size_bytes && (c.is_multi <==> row.language
            is Multi),
        codec is Some == (row.codec is Some && row.codec->0@ != "unknown"@),
        codec is Some ==> codec->0@ == row.codec->0@,
        k.candidate == c,
        forall|q: &str, p: &str, x: u8|
            row.quality is Some && profile.quality is Some && q@ == row.quality->0@ && p@
                == profile.quality->0@ && #[trigger] call_ensures(
                tag_rank,
                (Some(q), Some(p)),
                x,
            ) ==> k.quality == x,
        profile.quality is None ==> k.quality == 0,
        profile.quality is Some && row.quality is None ==> k.quality == 1,
        forall|q: &str, p: &str, x: u8|
            codec is Some && profile.codec is Some && q@ == codec->0@ && p@ == profile.codec->0@
                && #[trigger] call_ensures(tag_rank, (Some(q), Some(p)), x) ==> k.codec == x,
        profile.codec is None ==> k.codec == 0,
        profile.codec is Some && codec is None ==> k.codec == 1,
{
}

/// Comparing two cached offers puts first what beats the other.
pub proof fn better_offer_is_the_lesser(
    a: &AvailableEpisodeRow,
    b: &AvailableEpisodeRow,
    profile: &GrabProfile,
    ka: OfferRank,
    kb: OfferRank,
    ab: bool,
    ba: bool,
    r: Ordering,
)
    requires
        call_ensures(offer_rank, (a, profile), ka),
        call_ensures(offer_rank, (b, profile), kb),
        call_ensures(OfferRank::beats, (ka, kb), ab),
        call_ensures(OfferRank::beats, (kb, ka), ba),
        call_ensures(offer_cmp, (a, b, profile), r),
    ensures
        r is Less == ab,
        r is Greater == ba,
{
}

/// A live release is ranked by its own seeders and size, as far as that can be
/// stored, and by whether it is in several languages.
pub proof fn live_release_is_ranked_by_its_own(r: &LiveRelease, c: Candidate)
    requires
        call_ensures(result_candidate, (r,), c),
    ensures
        r.result.seeders is None ==> c.seeders is None,
        r.result.seeders is Some ==> c.seeders is Some && c.seeders->0 == r.result.seeders->0,
        r.result.size_bytes is Some && r.result.size_bytes->0 <= i64::MAX ==> c.size_bytes is Some
            && c.size_bytes->0 == r.result.size_bytes->0,
        r.result.size_bytes is None || r.result.size_bytes->0 > i64::MAX ==> c.size_bytes is None,
        c.is_multi <==> r.language is Multi,
{
}

/// Whether an offer is to be taken before another: by the selection, and where
/// that leaves them level by rank.
pub open spec fn taken_first<T>(a: Offer<T>, b: Offer<T>, sel: LangSel) -> bool {
    let (x, y) = (tag_of(a), tag_of(b));
    language::preferred_over(x, y, sel) || (!language::preferred_over(y, x, sel) && outranks(
        a.rank,
        b.rank,
    ))
}

/// An offer as the selection sees it.
pub open spec fn tag_of<T>(a: Offer<T>) -> Tag {
    (
        a.language,
        (a.rank.candidate.seeders is None || a.rank.candidate.seeders->0 >= 3) && (
        a.rank.candidate.size_bytes is None || a.rank.candidate.size_bytes->0 >= 52_428_800),
    )
}

/// Of the offers that would do, none is to be taken before the pick, and
/// something is picked wherever one would do.
pub proof fn pick_is_the_best_offer<T>(offers: Seq<Offer<T>>, sel: LangSel, j: int)
    ensures
        best_offer(offers, sel) matches Some(o) ==> offers.contains(o) && language::eligible(
            tag_of(o),
            sel,
        ),
        0 <= j < offers.len() && language::eligible(tag_of(offers[j]), sel) ==> best_offer(
            offers,
            sel,
        ) is Some && !taken_first(offers[j], best_offer(offers, sel)->0, sel),
{
    broadcast use vstd::seq_lib::group_to_multiset_ensures;

    picked_is_on_offer(offers, sel);
    let s = order::sorted(offers);
    let tags = offer_tags(s);
    order::sorted_is_ordered_permutation(offers);
    language::nothing_is_preferred_over_the_pick(tags, sel);
    assert forall|k: int| 0 <= k < s.len() implies #[trigger] tags[k] == tag_of(s[k]) by {}
    if 0 <= j < offers.len() && language::eligible(tag_of(offers[j]), sel) {
        assert(offers.to_multiset().contains(offers[j]));
        assert(s.contains(offers[j]));
        let k = choose|k: int| 0 <= k < s.len() && s[k] == offers[j];
        assert(language::eligible(tags[k], sel));
        let i = language::selected(tags, sel)->0;
        assert(!language::preferred_over(tags[k], tags[i], sel));
        if k > i {
            assert(!s[k].before(s[i]));
        } else if k == i {
            outranks_is_strict_weak_order(s[i].rank, s[i].rank, s[i].rank);
        }
    }
}

/// What is taken of the cached offers for an episode is one of them, which would
/// do and than which none is better; nothing is taken only where none would do.
pub proof fn best_cached_offer_is_taken(
    rows: Vec<AvailableEpisodeRow>,
    sel: &LangSel,
    profile: &GrabProfile,
    r: Option<PickedAvailability>,
    pack: Option<(PickedAvailability, bool)>,
) -> (i: int)
    requires
        call_ensures(best_available, (rows, sel, profile), r),
        call_ensures(find_pack_offer, (rows, sel, profile), pack),
    ensures
        r is Some ==> {
            &&& 0 <= i < rows@.len()
            &&& r->0.magnet == rows@[i].magnet
            &&& r->0.indexer_provider == rows@[i].indexer_provider
            &&& r->0.indexer_torrent_id == rows@[i].indexer_torrent_id
            &&& r->0.download_url == rows@[i].download_url
            &&& language::eligible(tag_of(offer_of(rows@[i], *profile)), *sel)
            &&& forall|j: int|
                0 <= j < rows@.len() && language::eligible(
                    tag_of(offer_of(#[trigger] rows@[j], *profile)),
                    *sel,
                ) ==> !taken_first(
                    offer_of(rows@[j], *profile),
                    offer_of(rows@[i], *profile),
                    *sel,
                )
        },
        r is None ==> forall|j: int|
            0 <= j < rows@.len() ==> !language::eligible(
                tag_of(offer_of(#[trigger] rows@[j], *profile)),
                *sel,
            ),
        pack is Some == r is Some,
        pack is Some ==> (pack->0).0 == r->0 && (pack->0).1 == tag_of(offer_of(rows@[i], *profile)).1,
{
    let offers = offers_of(rows@, *profile);
    assert forall|j: int| 0 <= j < rows@.len() implies #[trigger] offers[j] == offer_of(
        rows@[j],
        *profile,
    ) by {}
    assert forall|j: int|
        0 <= j < rows@.len() && language::eligible(
            tag_of(offer_of(#[trigger] rows@[j], *profile)),
            *sel,
        ) implies best_offer(offers, *sel) is Some && !taken_first(
        offer_of(rows@[j], *profile),
        best_offer(offers, *sel)->0,
        *sel,
    ) by {
        pick_is_the_best_offer(offers, *sel, j);
        assert(offers[j] == offer_of(rows@[j], *profile));
    }
    if let Some(o) = best_offer(offers, *sel) {
        pick_is_the_best_offer(offers, *sel, 0);
        let i = choose|i: int| 0 <= i < offers.len() && offers[i] == o;
        assert(offers[i] == offer_of(rows@[i], *profile));
        i
    } else {
        0
    }
}

/// An offer is what its row tells.
pub proof fn offer_tells_of_its_row(row: AvailableEpisodeRow, live: LiveRelease, p: GrabProfile)
    ensures
        offer_of(row, p).language == row.language,
        offer_of(row, p).item == row,
        forall|k: OfferRank|
            #[trigger] call_ensures(offer_rank, (&row, &p), k) ==> offer_of(row, p).rank == k,
        live_offer(live, p).language == live.language,
        live_offer(live, p).item == live,
        forall|c: Candidate|
            #[trigger] call_ensures(result_candidate, (&live,), c) ==> live_offer(
                live,
                p,
            ).rank.candidate == c,
        forall|q: &str, w: &str, x: u8|
            live.quality is Some && p.quality is Some && q@ == live.quality->0@ && w@
                == p.quality->0@ && #[trigger] call_ensures(
                tag_rank,
                (Some(q), Some(w)),
                x,
            ) ==> live_offer(live, p).rank.quality == x,
        forall|q: &str, w: &str, x: u8|
            live.codec is Some && p.codec is Some && q@ == live.codec->0@ && w@ == p.codec->0@
                && #[trigger] call_ensures(tag_rank, (Some(q), Some(w)), x) ==> live_offer(
                live,
                p,
            ).rank.codec == x,
        p.quality is None ==> live_offer(live, p).rank.quality == 0,
        p.codec is None ==> live_offer(live, p).rank.codec == 0,
        p.quality is Some && live.quality is None ==> live_offer(live, p).rank.quality == 1,
        p.codec is Some && live.codec is None ==> live_offer(live, p).rank.codec == 1,
{
}

proof fn lemma_live_offers(results: Seq<LiveRelease>, p: GrabProfile)
    ensures
        forall|i: int|
            0 <= i < results.len() && (#[trigger] results[i]).result.seeders != Some(0u32)
                ==> live_offers(results, p).contains(live_offer(results[i], p)),
        forall|k: int|
            0 <= k < live_offers(results, p).len() ==> exists|i: int|
                0 <= i < results.len() && #[trigger] live_offers(results, p)[k] == live_offer(
                    #[trigger] results[i],
                    p,
                ) && results[i].result.seeders != Some(0u32),
    decreases results.len(),
{
    if results.len() > 0 {
        let t = results.drop_last();
        let n = t.len() as int;
        lemma_live_offers(t, p);
        let before = live_offers(t, p);
        let all = live_offers(results, p);
        assert forall|i: int| 0 <= i < n implies #[trigger] t[i] == results[i] by {}
        assert(results[n] == results.last());
        if all.len() > before.len() {
            assert(all[before.len() as int] == live_offer(results[n], p));
        }
        assert forall|i: int|
            0 <= i < results.len() && (#[trigger] results[i]).result.seeders != Some(
                0u32,
            ) implies all.contains(live_offer(results[i], p)) by {
            if i < n {
                assert(t[i].result.seeders != Some(0u32));
                let o = live_offer(t[i], p);
                assert(before.contains(o));
                let k = choose|k: int| 0 <= k < before.len() && before[k] == o;
                assert(all[k] == o);
            }
        }
        assert forall|k: int| 0 <= k < all.len() implies exists|i: int|
            0 <= i < results.len() && #[trigger] all[k] == live_offer(#[trigger] results[i], p)
                && results[i].result.seeders != Some(0u32) by {
            if k < before.len() {
                assert(all[k] == before[k]);
                let i = choose|i: int|
                    0 <= i < t.len() && before[k] == live_offer(#[trigger] t[i], p)
                        && t[i].result.seeders != Some(0u32);
                assert(results[i] == t[i]);
            } else {
                assert(all[k] == live_offer(results[n], p));
            }
        }
    }
}

/// What is taken of a live search is a release that it does not show as without
/// seeders, which would do and than which no other such is better; nothing is
/// taken only where no such release would do. What is stored of it is what the
/// search told.
pub proof fn best_live_release_is_taken(
    name: &str,
    sel: &LangSel,
    profile: &GrabProfile,
    season: i64,
    episode: i64,
    results: Vec<LiveRelease>,
    r: Option<(PickedAvailability, UpsertAvailableEpisode)>,
) -> (i: int)
    requires
        call_ensures(pick_live_singleton, (name, sel, profile, season, episode, results), r),
    ensures
        r is Some ==> {
            let best = results@[i];
            &&& 0 <= i < results@.len()
            &&& best.result.seeders is None || best.result.seeders->0 > 0
            &&& language::eligible(tag_of(live_offer(best, *profile)), *sel)
            &&& (r->0).0.indexer_provider@ == best.result.provider_id@
            &&& (r->0).0.indexer_torrent_id@ == best.result.external_id@
            &&& (r->0).0.magnet@.len() == 0
            &&& (r->0).0.download_url is Some == best.result.download_url is Some
            &&& best.result.download_url is Some ==> (r->0).0.download_url->0@
                == best.result.download_url->0@
            &&& (r->0).1.normalized_name@ == name@ && (r->0).1.season == season && (r->0).1.episode
                == episode
            &&& (r->0).1.indexer_provider@ == best.result.provider_id@
            &&& (r->0).1.indexer_torrent_id@ == best.result.external_id@
            &&& (r->0).1.language == best.language && (r->0).1.absolute_episode
                == best.absolute_episode
            &&& (r->0).1.seeders is Some == best.result.seeders is Some
            &&& best.result.seeders is Some ==> (r->0).1.seeders->0 == best.result.seeders->0
            &&& best.result.size_bytes is Some && best.result.size_bytes->0 <= i64::MAX
                ==> (r->0).1.size_bytes is Some && (r->0).1.size_bytes->0 == best.result.size_bytes->0
            &&& (r->0).1.codec is Some && (r->0).1.codec->0@ == best.codec_tag@
        },
        forall|j: int|
            0 <= j < results@.len() && ((#[trigger] results@[j]).result.seeders is None
                || results@[j].result.seeders->0 > 0) && language::eligible(
                tag_of(live_offer(results@[j], *profile)),
                *sel,
            ) ==> r is Some && !taken_first(
                live_offer(results@[j], *profile),
                live_offer(results@[i], *profile),
                *sel,
            ),
{
    let offers = live_offers(results@, *profile);
    lemma_live_offers(results@, *profile);
    reveal_strlit("");
    let best = best_offer(offers, *sel);
    let i = if let Some(o) = best {
        pick_is_the_best_offer(offers, *sel, 0);
        let k = choose|k: int| 0 <= k < offers.len() && offers[k] == o;
        assert(offers[k] == o);
        choose|i: int|
            0 <= i < results@.len() && offers[k] == live_offer(#[trigger] results@[i], *profile)
                && results@[i].result.seeders != Some(0u32)
    } else {
        0
    };
    assert forall|j: int|
        0 <= j < results@.len() && ((#[trigger] results@[j]).result.seeders is None
            || results@[j].result.seeders->0 > 0) && language::eligible(
            tag_of(live_offer(results@[j], *profile)),
            *sel,
        ) implies r is Some && !taken_first(
        live_offer(results@[j], *profile),
        live_offer(results@[i], *profile),
        *sel,
    ) by {
        let o = live_offer(results@[j], *profile);
        assert(results@[j].result.seeders != Some(0u32));
        assert(offers.contains(o));
        let k = choose|k: int| 0 <= k < offers.len() && offers[k] == o;
        pick_is_the_best_offer(offers, *sel, k);
    }
    i
}

proof fn lemma_fresh_seeders(row: AvailableEpisodeRow, live: Seq<LiveRelease>, from: int)
    requires
        0 <= from,
    ensures
        (exists|i: int|
            from <= i < live.len() && (#[trigger] live[i]).result.provider_id@
                == row.indexer_provider@ && live[i].result.external_id@ == row.indexer_torrent_id@)
            ==> exists|i: int|
            from <= i < live.len() && (#[trigger] live[i]).result.provider_id@
                == row.indexer_provider@ && live[i].result.external_id@ == row.indexer_torrent_id@
                && fresh_seeders(row, live, from) == seeders_of(live[i].result) && forall|j: int|
                from <= j < i ==> (#[trigger] live[j]).result.provider_id@
                    != row.indexer_provider@ || live[j].result.external_id@
                    != row.indexer_torrent_id@,
        (forall|i: int|
            from <= i < live.len() ==> (#[trigger] live[i]).result.provider_id@
                != row.indexer_provider@ || live[i].result.external_id@
                != row.indexer_torrent_id@) ==> fresh_seeders(row, live, from) is None,
    decreases live.len() - from,
{
    if from < live.len() {
        if is_release_of(live[from], row) {
            assert(live[from].result.provider_id@ == row.indexer_provider@);
        } else {
            lemma_fresh_seeders(row, live, from + 1);
            if exists|i: int|
                from <= i < live.len() && (#[trigger] live[i]).result.provider_id@
                    == row.indexer_provider@ && live[i].result.external_id@
                    == row.indexer_torrent_id@ {
                let i = choose|i: int|
                    from <= i < live.len() && (#[trigger] live[i]).result.provider_id@
                        == row.indexer_provider@ && live[i].result.external_id@
                        == row.indexer_torrent_id@;
                assert(i != from);
            }
        }
    }
}

/// The fresh number of seeders is that of the first live result from the same
/// provider under the same identifier; there is none where no result is.
pub proof fn fresh_number_is_of_the_same_release(
    row: &AvailableEpisodeRow,
    live: &Vec<LiveRelease>,
    r: Option<i64>,
)
    requires
        call_ensures(matching_live_seeders, (row, live), r),
    ensures
        r is Some ==> exists|i: int|
            0 <= i < live@.len() && (#[trigger] live@[i]).result.provider_id@
                == row.indexer_provider@ && live@[i].result.external_id@
                == row.indexer_torrent_id@ && live@[i].result.seeders is Some && r->0
                == live@[i].result.seeders->0 && forall|j: int|
                0 <= j < i ==> (#[trigger] live@[j]).result.provider_id@ != row.indexer_provider@
                    || live@[j].result.external_id@ != row.indexer_torrent_id@,
        r is None ==> (forall|i: int|
            0 <= i < live@.len() ==> (#[trigger] live@[i]).result.provider_id@
                != row.indexer_provider@ || live@[i].result.external_id@
                != row.indexer_torrent_id@) || exists|i: int|
            0 <= i < live@.len() && (#[trigger] live@[i]).result.provider_id@
                == row.indexer_provider@ && live@[i].result.external_id@
                == row.indexer_torrent_id@ && live@[i].result.seeders is None,
{
    lemma_fresh_seeders(*row, live@, 0);
}

proof fn lemma_liveness(rows: Seq<AvailableEpisodeRow>, live: Seq<LiveRelease>)
    ensures
        forall|i: int|
            0 <= i < rows.len() && fresh_seeders(#[trigger] rows[i], live, 0) is Some
                && rows[i].seeders != fresh_seeders(rows[i], live, 0) ==> liveness_updates(
                rows,
                live,
            ).contains((rows[i].id, fresh_seeders(rows[i], live, 0)->0)),
        forall|k: int|
            0 <= k < liveness_updates(rows, live).len() ==> exists|i: int|
                0 <= i < rows.len() && (#[trigger] liveness_updates(rows, live)[k]).0 == (
                #[trigger] rows[i]).id && fresh_seeders(rows[i], live, 0) == Some(
                    liveness_updates(rows, live)[k].1,
                ) && rows[i].seeders != fresh_seeders(rows[i], live, 0),
    decreases rows.len(),
{
    if rows.len() > 0 {
        let t = rows.drop_last();
        let n = t.len() as int;
        lemma_liveness(t, live);
        let before = liveness_updates(t, live);
        let all = liveness_updates(rows, live);
        assert forall|i: int| 0 <= i < n implies #[trigger] t[i] == rows[i] by {}
        assert(rows[n] == rows.last());
        if all.len() > before.len() {
            assert(all[before.len() as int] == (rows[n].id, fresh_seeders(rows[n], live, 0)->0));
        }
        assert forall|i: int|
            0 <= i < rows.len() && fresh_seeders(#[trigger] rows[i], live, 0) is Some
                && rows[i].seeders != fresh_seeders(rows[i], live, 0) implies all.contains(
            (rows[i].id, fresh_seeders(rows[i], live, 0)->0),
        ) by {
            if i < n {
                let e = (t[i].id, fresh_seeders(t[i], live, 0)->0);
                assert(before.contains(e));
                let k = choose|k: int| 0 <= k < before.len() && before[k] == e;
                assert(all[k] == e);
            }
        }
        assert forall|k: int| 0 <= k < all.len() implies exists|i: int|
            0 <= i < rows.len() && (#[trigger] all[k]).0 == (#[trigger] rows[i]).id
                && fresh_seeders(rows[i], live, 0) == Some(all[k].1) && rows[i].seeders
                != fresh_seeders(rows[i], live, 0) by {
            if k < before.len() {
                assert(all[k] == before[k]);
                let i = choose|i: int|
                    0 <= i < t.len() && before[k].0 == (#[trigger] t[i]).id && fresh_seeders(
                        t[i],
                        live,
                        0,
                    ) == Some(before[k].1) && t[i].seeders != fresh_seeders(t[i], live, 0);
                assert(rows[i] == t[i]);
            } else {
                assert(all[k].0 == rows[n].id);
            }
        }
    }
}

/// A cached offer of which the search tells another number of seeders is
/// updated with that one; nothing else is.
pub proof fn changed_numbers_are_written_back(
    rows: &Vec<AvailableEpisodeRow>,
    live: &Vec<LiveRelease>,
    r: Vec<(u128, i64)>,
    i: int,
    fresh: Option<i64>,
    k: int,
)
    requires
        call_ensures(refresh_offer_liveness, (rows, live), r),
        0 <= i < rows@.len(),
        call_ensures(matching_live_seeders, (&rows@[i], live), fresh),
    ensures
        fresh is Some && rows@[i].seeders != fresh ==> r@.contains((rows@[i].id, fresh->0)),
        0 <= k < r@.len() ==> exists|j: int|
            0 <= j < rows@.len() && (#[trigger] rows@[j]).id == r@[k].0 && rows@[j].seeders != Some(
                r@[k].1,
            ) && forall|f: Option<i64>|
                call_ensures(matching_live_seeders, (&rows@[j], live), f) ==> f == Some(r@[k].1),
{
    lemma_liveness(rows@, live@);
    if 0 <= k < r@.len() {
        let j = choose|j: int|
            0 <= j < rows@.len() && r@[k].0 == (#[trigger] rows@[j]).id && fresh_seeders(
                rows@[j],
                live@,
                0,
            ) == Some(r@[k].1) && rows@[j].seeders != fresh_seeders(rows@[j], live@, 0);
        assert(rows@[j].id == r@[k].0);
    }
}

/// The search for an episode is for its title, season and number, and that for
/// a pack for the title and season alone, which starts the other; different
/// episodes are searched for differently.
pub proof fn episodes_are_searched_for_by_number(
    title: &str,
    season: i64,
    e: i64,
    f: i64,
    two: String,
    number: String,
    pack: String,
    one: String,
    other: String,
)
    requires
        call_ensures(text::two_column_i64, (season,), two),
        call_ensures(text::two_column_i64, (e,), number),
        call_ensures(episode_query_text, (title, season, None::<i64>), pack),
        call_ensures(episode_query_text, (title, season, Some(e)), one),
        call_ensures(episode_query_text, (title, season, Some(f)), other),
    ensures
        pack@ == title@ + " S"@ + two@,
        one@ == pack@ + "E"@ + number@,
        0 <= e && 0 <= f && one@ == other@ ==> e == f,
{
    if 0 <= e && 0 <= f && one@ == other@ {
        let h = pack@ + "E"@;
        assert(one@.skip(h.len() as int) =~= text::two_columns(e as int));
        assert(other@.skip(h.len() as int) =~= text::two_columns(f as int));
        lemma_two_columns(e as int, f as int);
    }
}

proof fn lemma_two_columns(a: int, b: int)
    requires
        0 <= a,
        0 <= b,
        text::two_columns(a) == text::two_columns(b),
    ensures
        a == b,
{
    text::decimal_denotes(a as nat);
    text::decimal_denotes(b as nat);
    let x = text::decimal(a as nat);
    let y = text::decimal(b as nat);
    text::digits_count_by_place('0', x);
    text::digits_count_by_place('0', y);
    let p = vstd::arithmetic::power::pow(10, x.len());
    let q = vstd::arithmetic::power::pow(10, y.len());
    assert(('0' as int - '0' as int) * p == 0) by (nonlinear_arith);
    assert(('0' as int - '0' as int) * q == 0) by (nonlinear_arith);
}

/// A search for an episode asks for the first twenty, those with the most
/// seeders first, of the title and number that are looked for.
pub proof fn search_is_for_the_episode(
    title: &str,
    season: i64,
    episode: Option<i64>,
    key: String,
    q: String,
    r: SearchQuery,
)
    requires
        call_ensures(episode_query_text, (title, season, episode), q),
        call_ensures(build_reprime_query, (title, season, episode, key), r),
    ensures
        r.q@ == q@,
        r.page is Some && r.page->0 == 1 && r.limit is Some && r.limit->0 == 20,
        r.sort_by is Some && r.sort_by->0 is Seeders && r.order is Some && r.order->0 is Desc,
        r.parsed_title == Some(key) && r.kind is None && r.year is None,
        0 <= season <= u32::MAX ==> r.season is Some && r.season->0 == season,
        episode is None ==> r.episode is None,
        episode is Some && 0 <= episode->0 <= u32::MAX ==> r.episode is Some && r.episode->0
            == episode->0,
{
}

/// The first `n` files whose torrent is there and tells a tag; a torrent that
/// backs several counts with the first.
pub open spec fn telling(files: Seq<OwnedTorrent>, codec: bool, tag: Seq<char>, n: int) -> Set<
    int,
> {
    Set::new(
        |i: int|
            {
                &&& 0 <= i < n
                &&& files[i].known
                &&& (if codec {
                    files[i].codec is Some && files[i].codec->0@ == tag
                } else {
                    files[i].quality is Some && files[i].quality->0@ == tag
                })
                &&& forall|j: int| 0 <= j < i ==> (#[trigger] files[j]).infohash@
                    != files[i].infohash@
            },
    )
}

proof fn lemma_telling(files: Seq<OwnedTorrent>, codec: bool, tag: Seq<char>, n: int)
    requires
        0 <= n <= files.len(),
        n < u32::MAX,
    ensures
        text_map::in_order(tag_counts(files, codec, n)),
        telling(files, codec, tag, n).finite(),
        telling(files, codec, tag, n).len() <= n,
        text_map::lookup(tag_counts(files, codec, n), tag) == if telling(
            files,
            codec,
            tag,
            n,
        ).len() == 0 {
            None
        } else {
            Some(telling(files, codec, tag, n).len() as u32)
        },
    decreases n,
{
    let s = telling(files, codec, tag, n);
    if n == 0 {
        assert(s =~= Set::empty());
    } else {
        lemma_telling(files, codec, tag, n - 1);
        let before = telling(files, codec, tag, n - 1);
        let counts = tag_counts(files, codec, n - 1);
        let f = files[n - 1];
        let told = if codec {
            text::opt_view(f.codec)
        } else {
            text::opt_view(f.quality)
        };
        assert(seen_before(files, n - 1) == !(forall|j: int|
            0 <= j < n - 1 ==> (#[trigger] files[j]).infohash@ != f.infohash@));
        if !seen_before(files, n - 1) && f.known && told is Some {
            let c = match text_map::lookup(counts, told->0) {
                Some(c) => c,
                None => 0u32,
            };
            text_map::put_keeps_order(counts, told->0, (c + 1) as u32);
            text_map::lookup_after_put(counts, told->0, (c + 1) as u32, tag);
            if told->0 == tag {
                assert(s =~= before.insert(n - 1));
                assert(!before.contains(n - 1));
            } else {
                assert(s =~= before);
            }
        } else {
            assert(s =~= before);
        }
    }
}

proof fn lemma_most_told(files: Seq<OwnedTorrent>, codec: bool, q: Seq<char>, t: Seq<char>)
    requires
        files.len() < u32::MAX,
    ensures
        majority(tag_counts(files, codec, files.len() as int)) == Some(q) ==> {
            let a = telling(files, codec, q, files.len() as int).len();
            let b = telling(files, codec, t, files.len() as int).len();
            &&& a > 0
            &&& b <= a
            &&& t != q && b == a ==> text::text_lt(q, t)
        },
        majority(tag_counts(files, codec, files.len() as int)) is None ==> telling(
            files,
            codec,
            t,
            files.len() as int,
        ).len() == 0,
{
    let n = files.len() as int;
    let l = tag_counts(files, codec, n);
    lemma_telling(files, codec, q, n);
    lemma_telling(files, codec, t, n);
    if l.len() > 0 {
        let i = majority_counts_most(l);
        if majority(l) == Some(q) {
            text_map::entries_are_found(l, q);
            assert(l[i].0 == q);
            text_map::entries_are_found(l, t);
            if text_map::lookup(l, t) is Some {
                let e = (t, text_map::lookup(l, t)->0);
                let j = choose|j: int| 0 <= j < l.len() && l[j] == e;
                assert(l[j].1 <= l[i].1);
            }
        }
    }
}

/// The established quality of a series is the one that most of its torrents
/// tell, and the established codec likewise; each torrent counts once however
/// many files it backs, one that is gone does not count, and of tags that as
/// many tell the one that sorts first is taken. Where none tells a quality it is
/// 1080p, and where none tells a codec there is none.
pub proof fn profile_is_what_most_tell(owned: &Vec<OwnedTorrent>, r: GrabProfile, t: Seq<char>)
    requires
        owned.len() < u32::MAX,
        call_ensures(dominant_owned_profile, (owned,), r),
    ensures
        r.quality matches Some(q) && {
            let n = owned@.len() as int;
            let a = telling(owned@, false, q@, n).len();
            let b = telling(owned@, false, t, n).len();
            &&& b <= a
            &&& b > 0 && t != q@ && b == a ==> text::text_lt(q@, t)
            &&& a == 0 ==> q@ == "1080p"@
        },
        r.codec is None ==> telling(owned@, true, t, owned@.len() as int).len() == 0,
        r.codec matches Some(c) ==> {
            let n = owned@.len() as int;
            let a = telling(owned@, true, c@, n).len();
            let b = telling(owned@, true, t, n).len();
            &&& a > 0
            &&& b <= a
            &&& t != c@ && b == a ==> text::text_lt(c@, t)
        },
{
    let n = owned@.len() as int;
    let q = r.quality->0@;
    lemma_most_told(owned@, false, q, t);
    lemma_telling(owned@, false, q, n);
    lemma_telling(owned@, false, t, n);
    if r.codec is Some {
        lemma_most_told(owned@, true, r.codec->0@, t);
    } else {
        lemma_most_told(owned@, true, t, t);
    }
    if majority(tag_counts(owned@, false, n)) is None {
        lemma_most_told(owned@, false, q, q);
    }
}

/// The commonest tag is one that was counted; none was counted more often, and
/// those counted as often sort after it.
pub proof fn commonest_tag_is_taken(counts: TextMap<u32>, r: Option<String>, j: int)
    requires
        call_ensures(majority_tag, (counts,), r),
    ensures
        r is None ==> counts@.len() == 0,
        r matches Some(t) ==> exists|i: int|
            0 <= i < counts@.len() && (#[trigger] counts@[i]).0 == t@ && (0 <= j < counts@.len()
                && j != i ==> counts@[j].1 < counts@[i].1 || (counts@[j].1 == counts@[i].1
                && text::text_lt(t@, counts@[j].0))),
{
    if r is Some {
        let i = choose|i: int|
            0 <= i < counts@.len() && (#[trigger] counts@[i]).0 == r->0@ && counts_most(
                counts@,
                i,
            );
        assert(counts@[i].0 == r->0@);
        if 0 <= j < counts@.len() {
            assert(counts@[j].1 <= counts@[i].1);
        }
    }
}

} // verus!
