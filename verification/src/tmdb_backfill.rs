//! Correcting the TMDB entries of collections.

use vstd::prelude::*;
use vstd::string::StringExecFns;

use crate::text;
use crate::tmdb;
use crate::tmdb::{TmdbKind, TmdbSuggestion};
use crate::tmdb_resolve;

verus! {

/// What became of a collection.
#[derive(Debug, Clone, Copy, PartialEq, Eq, Structural)]
pub enum CollectionOutcome {
    Stamped,
    AlreadyCorrect,
    NoTorrents,
    NoParse,
    NoHits,
    Error,
}

/// What the name of a torrent tells.
#[derive(Debug)]
pub struct ParsedName {
    pub title: String,
    pub year: Option<u16>,
}

/// A search for the entry of a collection.
pub struct BackfillQuery {
    pub title: String,
    pub kind: Option<TmdbKind>,
    pub year: Option<u32>,
}

/// The next step for a collection.
pub enum BackfillStep {
    Finished(CollectionOutcome),
    Search(BackfillQuery),
    /// Store this identifier.
    Write(i64),
}

/// The first name, from `from` on, that tells anything.
pub open spec fn first_parsed(names: Seq<Option<ParsedName>>, from: int) -> Option<ParsedName>
    decreases names.len() - from,
{
    if from < 0 || from >= names.len() {
        None
    } else {
        match names[from] {
            Some(p) => Some(p),
            None => first_parsed(names, from + 1),
        }
    }
}

/// What to search for a collection, given what the names of its torrents
/// tell.
pub fn process_one_collection(names: &Vec<Option<ParsedName>>, kind: &str) -> (r: BackfillStep)
    ensures
        if names@.len() == 0 {
            r == BackfillStep::Finished(CollectionOutcome::NoTorrents)
        } else {
            match first_parsed(names@, 0) {
                None => r == BackfillStep::Finished(CollectionOutcome::NoParse),
                Some(p) => if text::byte_len(text::trimmed(p.title@)) < 2 {
                    r == BackfillStep::Finished(CollectionOutcome::NoParse)
                } else {
                    &&& r is Search
                    &&& r->Search_0.title@ == p.title@
                    &&& r->Search_0.kind == tmdb::kind_of_word(kind@)
                    &&& r->Search_0.year == match p.year {
                        Some(y) => Some(y as u32),
                        None => None,
                    }
                },
            }
        },
{
    if names.len() == 0 {
        return BackfillStep::Finished(CollectionOutcome::NoTorrents);
    }
    let mut i: usize = 0;
    while i < names.len()
        invariant
            names@.len() > 0,
            i <= names.len(),
            first_parsed(names@, 0) == first_parsed(names@, i as int),
        decreases names.len() - i,
    {
        match &names[i] {
            Some(p) => {
                let trimmed = text::trim(p.title.as_str());
                if text::byte_length(trimmed.as_str()) < 2 {
                    return BackfillStep::Finished(CollectionOutcome::NoParse);
                }
                let year = match p.year {
                    Some(y) => Some(y as u32),
                    None => None,
                };
                return BackfillStep::Search(
                    BackfillQuery { title: p.title.clone(), kind: tmdb::kind_hint(kind), year },
                );
            },
            None => {},
        }
        i = i + 1;
    }
    BackfillStep::Finished(CollectionOutcome::NoParse)
}

/// What to do with the hits of a search: the best one is stored unless it is
/// what the collection has.
pub fn judge_hits(
    hits: &Vec<TmdbSuggestion>,
    kind: Option<TmdbKind>,
    year: Option<u32>,
    current: Option<i64>,
) -> (r: BackfillStep)
    ensures
        r == match tmdb_resolve::best(hits@, kind, year) {
            None => BackfillStep::Finished(CollectionOutcome::NoHits),
            Some(i) => {
                let id = hits@[i].tmdb_id;
                if id > i64::MAX {
                    BackfillStep::Finished(CollectionOutcome::Error)
                } else if current == Some(id as i64) {
                    BackfillStep::Finished(CollectionOutcome::AlreadyCorrect)
                } else {
                    BackfillStep::Write(id as i64)
                }
            },
        },
{
    match tmdb_resolve::pick_best(hits, kind, year) {
        None => BackfillStep::Finished(CollectionOutcome::NoHits),
        Some(top) => {
            if top.tmdb_id > i64::MAX as u64 {
                return BackfillStep::Finished(CollectionOutcome::Error);
            }
            let new_id: i64 = top.tmdb_id as i64;
            let same = match current {
                Some(c) => c == new_id,
                None => false,
            };
            if same {
                BackfillStep::Finished(CollectionOutcome::AlreadyCorrect)
            } else {
                BackfillStep::Write(new_id)
            }
        },
    }
}

/// The outcome of storing an identifier.
pub fn written_outcome(stored: bool) -> (r: CollectionOutcome)
    ensures
        r == if stored {
            CollectionOutcome::Stamped
        } else {
            CollectionOutcome::Error
        },
{
    if stored {
        CollectionOutcome::Stamped
    } else {
        CollectionOutcome::Error
    }
}

/// How many collections came to each outcome; failures are not counted.
#[derive(Debug, Clone, Copy, PartialEq, Eq, Structural)]
pub struct BackfillTally {
    pub stamped: u64,
    pub already_correct: u64,
    pub no_torrents: u64,
    pub no_parse: u64,
    pub no_hits: u64,
}

pub open spec fn outcome_count(outcomes: Seq<CollectionOutcome>, o: CollectionOutcome) -> nat
    decreases outcomes.len(),
{
    if outcomes.len() == 0 {
        0
    } else {
        outcome_count(outcomes.drop_last(), o) + if outcomes.last() == o {
            1nat
        } else {
            0nat
        }
    }
}

fn count_outcome(outcomes: &Vec<CollectionOutcome>, o: CollectionOutcome) -> (r: u64)
    requires
        outcomes.len() <= u64::MAX,
    ensures
        r == outcome_count(outcomes@, o),
{
    let mut n: u64 = 0;
    for i in 0..outcomes.len()
        invariant
            outcomes.len() <= u64::MAX,
            n == outcome_count(outcomes@.take(i as int), o),
            n <= i,
    {
        assert(outcomes@.take(i + 1).drop_last() =~= outcomes@.take(i as int));
        if outcomes[i] == o {
            n = n + 1;
        }
    }
    assert(outcomes@.take(outcomes.len() as int) =~= outcomes@);
    n
}

/// How many collections came to each outcome.
pub fn run_collections(outcomes: &Vec<CollectionOutcome>) -> (r: BackfillTally)
    requires
        outcomes.len() <= u64::MAX,
    ensures
        r.stamped == outcome_count(outcomes@, CollectionOutcome::Stamped),
        r.already_correct == outcome_count(outcomes@, CollectionOutcome::AlreadyCorrect),
        r.no_torrents == outcome_count(outcomes@, CollectionOutcome::NoTorrents),
        r.no_parse == outcome_count(outcomes@, CollectionOutcome::NoParse),
        r.no_hits == outcome_count(outcomes@, CollectionOutcome::NoHits),
{
    BackfillTally {
        stamped: count_outcome(outcomes, CollectionOutcome::Stamped),
        already_correct: count_outcome(outcomes, CollectionOutcome::AlreadyCorrect),
        no_torrents: count_outcome(outcomes, CollectionOutcome::NoTorrents),
        no_parse: count_outcome(outcomes, CollectionOutcome::NoParse),
        no_hits: count_outcome(outcomes, CollectionOutcome::NoHits),
    }
}

// ---------------------------------------------------------------------------
// Laws
// ---------------------------------------------------------------------------

proof fn lemma_first_parsed(names: Seq<Option<ParsedName>>, from: int) -> (i: int)
    requires
        0 <= from,
    ensures
        first_parsed(names, from) is None ==> forall|j: int|
            from <= j < names.len() ==> #[trigger] names[j] is None,
        first_parsed(names, from) is Some ==> from <= i < names.len() && names[i] == first_parsed(
            names,
            from,
        ) && forall|j: int| from <= j < i ==> #[trigger] names[j] is None,
    decreases names.len() - from,
{
    if from < names.len() && names[from] is None {
        lemma_first_parsed(names, from + 1)
    } else {
        from
    }
}

/// A collection is searched for by the first of its names that tells
/// anything, with the title and the year that this name tells and the kind of
/// the collection.
pub proof fn first_telling_name_is_searched_for(
    names: &Vec<Option<ParsedName>>,
    kind: &str,
    hint: Option<TmdbKind>,
    r: BackfillStep,
) -> (i: int)
    requires
        call_ensures(process_one_collection, (names, kind), r),
        call_ensures(tmdb::kind_hint, (kind,), hint),
    ensures
        !(r is Write),
        r is Search ==> 0 <= i < names@.len() && names@[i] is Some && (forall|j: int|
            0 <= j < i ==> #[trigger] names@[j] is None) && r->Search_0.title@
            == names@[i]->0.title@ && r->Search_0.kind == hint && (r->Search_0.year is Some
            <==> names@[i]->0.year is Some) && (r->Search_0.year is Some ==> r->Search_0.year->0
            == names@[i]->0.year->0),
        names@.len() == 0 <==> r == BackfillStep::Finished(CollectionOutcome::NoTorrents),
        names@.len() > 0 && (forall|j: int| 0 <= j < names@.len() ==> #[trigger] names@[j] is None)
            ==> r == BackfillStep::Finished(CollectionOutcome::NoParse),
        r is Finished && names@.len() > 0 ==> r == BackfillStep::Finished(
            CollectionOutcome::NoParse,
        ) && ((forall|j: int| 0 <= j < names@.len() ==> #[trigger] names@[j] is None) || (0 <= i
            < names@.len() && names@[i] is Some && text::trimmed(names@[i]->0.title@).len() < 2)),
{
    let i = lemma_first_parsed(names@, 0);
    if first_parsed(names@, 0) is Some {
        text::characters_take_bytes(text::trimmed(names@[i]->0.title@));
    }
    i
}

/// What is stored is the number of the best hit; nothing is stored where
/// there is none, or where the collection has it already.
pub proof fn best_hit_is_stored(
    hits: &Vec<TmdbSuggestion>,
    kind: Option<TmdbKind>,
    year: Option<u32>,
    current: Option<i64>,
    hit: Option<TmdbSuggestion>,
    r: BackfillStep,
)
    requires
        call_ensures(tmdb_resolve::pick_best, (hits, kind, year), hit),
        call_ensures(judge_hits, (hits, kind, year, current), r),
    ensures
        !(r is Search),
        r is Write ==> hit is Some && r->Write_0 == hit->0.tmdb_id && current != Some(r->Write_0),
        r is Finished && r->Finished_0 is NoHits <==> hit is None,
        r is Finished && r->Finished_0 is AlreadyCorrect <==> hit is Some && current is Some
            && current->0 == hit->0.tmdb_id,
        hit is Some && hit->0.tmdb_id <= i64::MAX && current is None ==> r is Write,
        r is Finished && r->Finished_0 is Error <==> hit is Some && hit->0.tmdb_id > i64::MAX,
{
}

/// Only what was stored counts as stamped.
pub proof fn stored_is_stamped(stored: bool, r: CollectionOutcome)
    requires
        call_ensures(written_outcome, (stored,), r),
    ensures
        r is Stamped <==> stored,
        r is Error <==> !stored,
{
}

/// One more outcome adds one to its own count and leaves the others.
pub proof fn every_outcome_counts_once(
    outcomes: &Vec<CollectionOutcome>,
    more: &Vec<CollectionOutcome>,
    o: CollectionOutcome,
    a: BackfillTally,
    b: BackfillTally,
)
    requires
        call_ensures(run_collections, (outcomes,), a),
        call_ensures(run_collections, (more,), b),
        more@ == outcomes@.push(o),
    ensures
        b.stamped - a.stamped == if o is Stamped { 1int } else { 0int },
        b.already_correct - a.already_correct == if o is AlreadyCorrect { 1int } else { 0int },
        b.no_torrents - a.no_torrents == if o is NoTorrents { 1int } else { 0int },
        b.no_parse - a.no_parse == if o is NoParse { 1int } else { 0int },
        b.no_hits - a.no_hits == if o is NoHits { 1int } else { 0int },
{
    assert(more@.drop_last() =~= outcomes@);
}

/// No outcomes, nothing counted.
pub proof fn nothing_is_counted_of_nothing(outcomes: &Vec<CollectionOutcome>, r: BackfillTally)
    requires
        call_ensures(run_collections, (outcomes,), r),
        outcomes@.len() == 0,
    ensures
        r.stamped == 0 && r.already_correct == 0 && r.no_torrents == 0 && r.no_parse == 0
            && r.no_hits == 0,
{
}

} // verus!
