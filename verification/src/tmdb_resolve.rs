//! From the name of a release to its TMDB entry.

use vstd::prelude::*;
use vstd::string::StringExecFns;

use crate::text;
use crate::tmdb;
use crate::tmdb::{TmdbKind, TmdbSuggestion};

verus! {

/// A title that was resolved.
#[derive(Debug, Clone)]
pub struct ResolvedTitle {
    pub tmdb_id: u64,
    pub kind: TmdbKind,
    pub title: String,
    pub year: Option<u32>,
    pub poster_path: Option<String>,
    pub overview: Option<String>,
}

/// What is kept of a resolution; without an identifier, that there was none.
#[derive(Debug, Clone)]
pub struct ResolveEntry {
    pub tmdb_id: Option<i64>,
    pub title: Option<String>,
    pub year: Option<i64>,
    pub poster_path: Option<String>,
    pub backdrop_path: Option<String>,
    pub overview: Option<String>,
    /// Milliseconds since the Unix epoch.
    pub fetched_at: i64,
}

/// Days for which a resolution is kept.
pub const MAX_AGE_DAYS: i64 = 30;

pub fn same_kind(a: TmdbKind, b: TmdbKind) -> (r: bool)
    ensures
        r == (a == b),
{
    a == b
}

pub fn kind_to_str(k: TmdbKind) -> (r: &'static str)
    ensures
        r@ == tmdb::kind_word(k),
{
    tmdb::kind_marker(k)
}

// ---------------------------------------------------------------------------
// The best suggestion
// ---------------------------------------------------------------------------

pub open spec fn of_kind(s: TmdbSuggestion, kind: Option<TmdbKind>) -> bool {
    kind matches Some(k) ==> s.kind == k
}

/// The first suggestion, from `from` on, of a kind and, if given, of a year.
pub open spec fn first_match(
    s: Seq<TmdbSuggestion>,
    kind: Option<TmdbKind>,
    year: Option<u32>,
    from: int,
) -> Option<int>
    decreases s.len() - from,
{
    if from < 0 || from >= s.len() {
        None
    } else if of_kind(s[from], kind) && (year is Some ==> s[from].year == year) {
        Some(from)
    } else {
        first_match(s, kind, year, from + 1)
    }
}

/// How far a suggestion is from a year; one without a year is farthest.
pub open spec fn distance(s: TmdbSuggestion, year: u32) -> u32 {
    match s.year {
        Some(y) => if y >= year {
            (y - year) as u32
        } else {
            (year - y) as u32
        },
        None => u32::MAX,
    }
}

/// Among the first `n` suggestions of a kind, the first that is closest to a
/// year.
pub open spec fn closest(s: Seq<TmdbSuggestion>, kind: TmdbKind, year: u32, n: int) -> Option<int>
    decreases n,
{
    if n <= 0 || n > s.len() {
        None
    } else {
        let before = closest(s, kind, year, n - 1);
        if s[n - 1].kind != kind {
            before
        } else {
            match before {
                Some(i) => if distance(s[n - 1], year) < distance(s[i], year) {
                    Some(n - 1)
                } else {
                    Some(i)
                },
                None => Some(n - 1),
            }
        }
    }
}

/// The suggestion to take. With a kind, only suggestions of it count: the
/// first of the year, else the one closest to it, else the first. Without a
/// kind, the first of the year, else the first.
pub open spec fn best(s: Seq<TmdbSuggestion>, kind: Option<TmdbKind>, year: Option<u32>) -> Option<
    int,
> {
    match kind {
        Some(k) => match year {
            Some(y) => match first_match(s, kind, year, 0) {
                Some(i) => Some(i),
                None => closest(s, k, y, s.len() as int),
            },
            None => first_match(s, kind, None, 0),
        },
        None => match year {
            Some(_) => match first_match(s, None, year, 0) {
                Some(i) => Some(i),
                None => first_match(s, None, None, 0),
            },
            None => first_match(s, None, None, 0),
        },
    }
}

fn find_match(s: &Vec<TmdbSuggestion>, kind: Option<TmdbKind>, year: Option<u32>) -> (r: Option<
    usize,
>)
    ensures
        match r {
            Some(i) => i < s.len() && first_match(s@, kind, year, 0) == Some(i as int),
            None => first_match(s@, kind, year, 0) is None,
        },
{
    let mut i: usize = 0;
    while i < s.len()
        invariant
            i <= s.len(),
            first_match(s@, kind, year, 0) == first_match(s@, kind, year, i as int),
        decreases s.len() - i,
    {
        let right_kind = match kind {
            Some(k) => same_kind(s[i].kind, k),
            None => true,
        };
        let right_year = match year {
            Some(y) => match s[i].year {
                Some(x) => x == y,
                None => false,
            },
            None => true,
        };
        if right_kind && right_year {
            return Some(i);
        }
        i = i + 1;
    }
    None
}

fn year_distance(s: &TmdbSuggestion, year: u32) -> (r: u32)
    ensures
        r == distance(*s, year),
{
    match s.year {
        Some(y) => {
            if y >= year {
                y - year
            } else {
                year - y
            }
        },
        None => u32::MAX,
    }
}

fn find_closest(s: &Vec<TmdbSuggestion>, kind: TmdbKind, year: u32) -> (r: Option<usize>)
    ensures
        match r {
            Some(i) => i < s.len() && closest(s@, kind, year, s@.len() as int) == Some(i as int),
            None => closest(s@, kind, year, s@.len() as int) is None,
        },
{
    let mut found: Option<usize> = None;
    for i in 0..s.len()
        invariant
            match found {
                Some(k) => k < i && closest(s@, kind, year, i as int) == Some(k as int),
                None => closest(s@, kind, year, i as int) is None,
            },
    {
        if same_kind(s[i].kind, kind) {
            found = match found {
                Some(k) => {
                    if year_distance(&s[i], year) < year_distance(&s[k], year) {
                        Some(i)
                    } else {
                        Some(k)
                    }
                },
                None => Some(i),
            };
        }
    }
    found
}

/// The suggestion to take.
pub fn pick_best(
    suggestions: &Vec<TmdbSuggestion>,
    kind_hint: Option<TmdbKind>,
    year_hint: Option<u32>,
) -> (r: Option<TmdbSuggestion>)
    ensures
        r == match best(suggestions@, kind_hint, year_hint) {
            Some(i) => Some(suggestions@[i]),
            None => None,
        },
{
    let found = match kind_hint {
        Some(k) => match year_hint {
            Some(y) => match find_match(suggestions, kind_hint, year_hint) {
                Some(i) => Some(i),
                None => find_closest(suggestions, k, y),
            },
            None => find_match(suggestions, kind_hint, None),
        },
        None => match year_hint {
            Some(_) => match find_match(suggestions, None, year_hint) {
                Some(i) => Some(i),
                None => find_match(suggestions, None, None),
            },
            None => find_match(suggestions, None, None),
        },
    };
    match found {
        Some(i) => Some(suggestions[i].clone()),
        None => None,
    }
}

proof fn lemma_first_match(
    s: Seq<TmdbSuggestion>,
    kind: Option<TmdbKind>,
    year: Option<u32>,
    from: int,
)
    requires
        0 <= from,
    ensures
        match first_match(s, kind, year, from) {
            Some(i) => from <= i < s.len() && of_kind(s[i], kind) && (year is Some ==> s[i].year
                == year),
            None => forall|j: int|
                from <= j < s.len() ==> !(of_kind(#[trigger] s[j], kind) && (year is Some
                    ==> s[j].year == year)),
        },
    decreases s.len() - from,
{
    if from < s.len() && !(of_kind(s[from], kind) && (year is Some ==> s[from].year == year)) {
        lemma_first_match(s, kind, year, from + 1);
    }
}

proof fn lemma_closest(s: Seq<TmdbSuggestion>, kind: TmdbKind, year: u32, n: int)
    requires
        0 <= n <= s.len(),
    ensures
        match closest(s, kind, year, n) {
            Some(i) => {
                &&& 0 <= i < n
                &&& s[i].kind == kind
                &&& forall|j: int|
                    0 <= j < n && (#[trigger] s[j]).kind == kind ==> distance(s[i], year)
                        <= distance(s[j], year)
            },
            None => forall|j: int| 0 <= j < n ==> (#[trigger] s[j]).kind != kind,
        },
    decreases n,
{
    if n > 0 {
        lemma_closest(s, kind, year, n - 1);
    }
}

/// With a kind, a suggestion of another kind is never taken, and one is taken
/// whenever there is one of the kind.
pub proof fn kind_is_never_crossed(s: Seq<TmdbSuggestion>, k: TmdbKind, year: Option<u32>)
    ensures
        match best(s, Some(k), year) {
            Some(i) => 0 <= i < s.len() && s[i].kind == k,
            None => forall|j: int| 0 <= j < s.len() ==> (#[trigger] s[j]).kind != k,
        },
{
    lemma_first_match(s, Some(k), year, 0);
    lemma_first_match(s, Some(k), None, 0);
    if let Some(y) = year {
        lemma_closest(s, k, y, s.len() as int);
    }
    if best(s, Some(k), year) is None && year is None {
        assert forall|j: int| 0 <= j < s.len() implies (#[trigger] s[j]).kind != k by {
            assert(!of_kind(s[j], Some(k)));
        }
    }
}

/// With a kind and a year, nothing of the kind is closer to the year than
/// what is taken.
pub proof fn closest_year_wins(s: Seq<TmdbSuggestion>, k: TmdbKind, y: u32, j: int)
    requires
        0 <= j < s.len(),
        s[j].kind == k,
    ensures
        best(s, Some(k), Some(y)) matches Some(i) && distance(s[i], y) <= distance(s[j], y),
{
    lemma_first_match(s, Some(k), Some(y), 0);
    lemma_closest(s, k, y, s.len() as int);
}

// ---------------------------------------------------------------------------
// What is kept
// ---------------------------------------------------------------------------

/// The title that a suggestion resolves to.
pub open spec fn resolved(t: TmdbSuggestion) -> ResolvedTitle {
    ResolvedTitle {
        tmdb_id: t.tmdb_id,
        kind: t.kind,
        title: t.title,
        year: t.year,
        poster_path: t.poster_path,
        overview: t.overview,
    }
}

/// What is kept of a suggestion.
pub open spec fn entry_for(t: TmdbSuggestion, now: i64) -> ResolveEntry {
    ResolveEntry {
        tmdb_id: if t.tmdb_id <= i64::MAX {
            Some(t.tmdb_id as i64)
        } else {
            None
        },
        title: Some(t.title),
        year: match t.year {
            Some(y) => Some(y as i64),
            None => None,
        },
        poster_path: t.poster_path,
        backdrop_path: None,
        overview: t.overview,
        fetched_at: now,
    }
}

/// What is kept when nothing was found.
pub open spec fn nothing_found(now: i64) -> ResolveEntry {
    ResolveEntry {
        tmdb_id: None,
        title: None,
        year: None,
        poster_path: None,
        backdrop_path: None,
        overview: None,
        fetched_at: now,
    }
}

/// The title that an entry stands for; its kind is the hinted one.
pub open spec fn is_from_entry(r: ResolvedTitle, e: ResolveEntry, hint: Option<TmdbKind>) -> bool {
    &&& e.tmdb_id matches Some(id) && id >= 0 && r.tmdb_id == id
    &&& r.kind == match hint {
        Some(k) => k,
        None => TmdbKind::Movie,
    }
    &&& r.title@ == tmdb::text_or_blank(e.title)
    &&& e.title matches Some(t) ==> r.title == t
    &&& r.year == match e.year {
        Some(y) => if 0 <= y <= u32::MAX {
            Some(y as u32)
        } else {
            None
        },
        None => None,
    }
    &&& r.poster_path == e.poster_path
    &&& r.overview == e.overview
}

impl ResolvedTitle {
    /// The title that an entry stands for, if it stands for one.
    pub fn from_entry(entry: &ResolveEntry, kind_hint: Option<TmdbKind>) -> (r: Option<Self>)
        ensures
            match r {
                Some(t) => is_from_entry(t, *entry, kind_hint),
                None => entry.tmdb_id matches Some(id) ==> id < 0,
            },
    {
        match entry.tmdb_id {
            None => None,
            Some(id) => {
                if id < 0 {
                    return None;
                }
                let kind = match kind_hint {
                    Some(k) => k,
                    None => TmdbKind::Movie,
                };
                let title = match &entry.title {
                    Some(t) => t.clone(),
                    None => "".to_string(),
                };
                let year = match entry.year {
                    Some(y) => {
                        if 0 <= y && y <= u32::MAX as i64 {
                            Some(y as u32)
                        } else {
                            None
                        }
                    },
                    None => None,
                };
                Some(
                    ResolvedTitle {
                        tmdb_id: id as u64,
                        kind,
                        title,
                        year,
                        poster_path: text::clone_opt(&entry.poster_path),
                        overview: text::clone_opt(&entry.overview),
                    },
                )
            },
        }
    }
}

/// A title that was kept under its kind reads back as it was resolved.
pub proof fn kept_title_reads_back(t: TmdbSuggestion, now: i64, r: ResolvedTitle)
    requires
        t.tmdb_id <= i64::MAX,
        is_from_entry(r, entry_for(t, now), Some(t.kind)),
    ensures
        r == resolved(t),
{
}

/// That nothing was found reads back as nothing.
pub proof fn kept_miss_reads_back(now: i64, hint: Option<TmdbKind>, r: ResolvedTitle)
    ensures
        !is_from_entry(r, nothing_found(now), hint),
{
}

/// The key of a resolution: the title, and the year where it is known.
pub open spec fn key_of(cleaned: Seq<char>, year: Option<u32>) -> Seq<char> {
    match year {
        Some(y) => cleaned + " "@ + text::decimal(y as nat),
        None => cleaned,
    }
}

/// The key of a resolution.
pub fn cache_key(cleaned: &str, year_hint: Option<u32>) -> (r: String)
    ensures
        r@ == key_of(cleaned@, year_hint),
{
    let mut s = cleaned.to_string();
    match year_hint {
        Some(y) => {
            s.append(" ");
            s.append(text::decimal_u64(y as u64).as_str());
        },
        None => {},
    }
    s
}

/// Releases of one title from different years are kept apart.
pub proof fn years_are_kept_apart(cleaned: Seq<char>, a: Option<u32>, b: Option<u32>)
    requires
        a != b,
    ensures
        key_of(cleaned, a) != key_of(cleaned, b),
{
    reveal_strlit(" ");
    let n = cleaned.len() as int;
    match (a, b) {
        (Some(x), Some(y)) => {
            text::decimal_denotes(x as nat);
            text::decimal_denotes(y as nat);
            if key_of(cleaned, a) == key_of(cleaned, b) {
                assert(key_of(cleaned, a).skip(n + 1) =~= text::decimal(x as nat));
                assert(key_of(cleaned, b).skip(n + 1) =~= text::decimal(y as nat));
            }
        },
        _ => {},
    }
}

/// The result of a resolution that was not kept before, and what to keep of
/// it.
pub fn resolve_cleaned(
    suggestions: &Vec<TmdbSuggestion>,
    kind_hint: Option<TmdbKind>,
    year_hint: Option<u32>,
    now: i64,
) -> (r: (Option<ResolvedTitle>, ResolveEntry))
    ensures
        match best(suggestions@, kind_hint, year_hint) {
            Some(i) => r == (Some(resolved(suggestions@[i])), entry_for(suggestions@[i], now)),
            None => r == (None::<ResolvedTitle>, nothing_found(now)),
        },
{
    match pick_best(suggestions, kind_hint, year_hint) {
        Some(t) => {
            let tmdb_id = if t.tmdb_id <= i64::MAX as u64 {
                Some(t.tmdb_id as i64)
            } else {
                None
            };
            let year = match t.year {
                Some(y) => Some(y as i64),
                None => None,
            };
            let entry = ResolveEntry {
                tmdb_id,
                title: Some(t.title.clone()),
                year,
                poster_path: text::clone_opt(&t.poster_path),
                backdrop_path: None,
                overview: text::clone_opt(&t.overview),
                fetched_at: now,
            };
            (
                Some(
                    ResolvedTitle {
                        tmdb_id: t.tmdb_id,
                        kind: t.kind,
                        title: t.title,
                        year: t.year,
                        poster_path: t.poster_path,
                        overview: t.overview,
                    },
                ),
                entry,
            )
        },
        None => (
            None,
            ResolveEntry {
                tmdb_id: None,
                title: None,
                year: None,
                poster_path: None,
                backdrop_path: None,
                overview: None,
                fetched_at: now,
            },
        ),
    }
}

/// The kind by which a release is resolved: the hinted one, or the one that
/// its name tells. A title of less than two bytes is not resolved.
pub fn resolve_release_name(cleaned: &str, kind_hint: Option<TmdbKind>, is_tv: bool) -> (r: Option<
    TmdbKind,
>)
    ensures
        r == if text::byte_len(cleaned@) < 2 {
            None
        } else {
            match kind_hint {
                Some(k) => Some(k),
                None => Some(
                    if is_tv {
                        TmdbKind::Tv
                    } else {
                        TmdbKind::Movie
                    },
                ),
            }
        },
{
    if text::byte_length(cleaned) < 2 {
        return None;
    }
    match kind_hint {
        Some(k) => Some(k),
        None => Some(
            if is_tv {
                TmdbKind::Tv
            } else {
                TmdbKind::Movie
            },
        ),
    }
}

// ---------------------------------------------------------------------------
// Candidates
// ---------------------------------------------------------------------------

/// A search for candidates.
#[derive(Debug, Clone, Copy, PartialEq, Eq, Structural)]
pub enum CandidateSearch {
    /// Among titles of a kind, of a year if one is given.
    Typed(TmdbKind, Option<u32>),
    /// Among everything.
    Multi,
}

/// What follows a search for candidates.
pub enum CandidateStep {
    Search(CandidateSearch),
    Done(Vec<TmdbSuggestion>),
}

/// The first search for candidates: among titles of the kind, where one is
/// known.
pub fn first_search(kind_hint: Option<TmdbKind>, year_hint: Option<u32>) -> (r: CandidateSearch)
    ensures
        r == match kind_hint {
            Some(k) => CandidateSearch::Typed(k, year_hint),
            None => CandidateSearch::Multi,
        },
{
    match kind_hint {
        Some(k) => CandidateSearch::Typed(k, year_hint),
        None => CandidateSearch::Multi,
    }
}

/// What follows a search for candidates: without hits the year is dropped
/// first, and then the kind.
pub fn search_candidates(search: CandidateSearch, hits: Vec<TmdbSuggestion>) -> (r: CandidateStep)
    ensures
        if hits@.len() > 0 {
            r == CandidateStep::Done(hits)
        } else {
            match search {
                CandidateSearch::Typed(k, Some(_)) => r == CandidateStep::Search(
                    CandidateSearch::Typed(k, None),
                ),
                CandidateSearch::Typed(_, None) => r == CandidateStep::Search(
                    CandidateSearch::Multi,
                ),
                CandidateSearch::Multi => r == CandidateStep::Done(hits),
            }
        },
{
    if hits.len() > 0 {
        return CandidateStep::Done(hits);
    }
    match search {
        CandidateSearch::Typed(k, year) => match year {
            Some(_) => CandidateStep::Search(CandidateSearch::Typed(k, None)),
            None => CandidateStep::Search(CandidateSearch::Multi),
        },
        CandidateSearch::Multi => CandidateStep::Done(hits),
    }
}

// ---------------------------------------------------------------------------
// Laws
// ---------------------------------------------------------------------------

/// How many years lie between a suggestion and a year.
pub open spec fn years_off(t: TmdbSuggestion, y: u32) -> int {
    if t.year is None {
        0xffff_ffff
    } else if t.year->0 < y {
        y - t.year->0
    } else {
        t.year->0 - y
    }
}

proof fn lemma_first_match_is_first(
    s: Seq<TmdbSuggestion>,
    kind: Option<TmdbKind>,
    year: Option<u32>,
    from: int,
)
    requires
        0 <= from,
    ensures
        first_match(s, kind, year, from) is Some ==> forall|j: int|
            from <= j < first_match(s, kind, year, from)->0 ==> !(of_kind(#[trigger] s[j], kind) && (
            year is Some ==> s[j].year == year)),
    decreases s.len() - from,
{
    if from < s.len() && !(of_kind(s[from], kind) && (year is Some ==> s[from].year == year)) {
        lemma_first_match_is_first(s, kind, year, from + 1);
    }
}

proof fn lemma_closest_is_first(s: Seq<TmdbSuggestion>, kind: TmdbKind, year: u32, n: int)
    requires
        0 <= n <= s.len(),
    ensures
        closest(s, kind, year, n) is Some ==> forall|j: int|
            0 <= j < closest(s, kind, year, n)->0 && (#[trigger] s[j]).kind == kind ==> distance(
                s[closest(s, kind, year, n)->0],
                year,
            ) < distance(s[j], year),
    decreases n,
{
    if n > 0 {
        lemma_closest_is_first(s, kind, year, n - 1);
        lemma_closest(s, kind, year, n - 1);
    }
}

/// A suggestion is taken wherever there is one of the hinted kind. With a
/// kind and a year it is the one the fewest years off, and of several the
/// first; without a kind it is the first of the year, or else the very first;
/// without a year it is the first.
pub proof fn best_suggestion_is_taken(
    v: &Vec<TmdbSuggestion>,
    kind: Option<TmdbKind>,
    year: Option<u32>,
    r: Option<TmdbSuggestion>,
) -> (i: int)
    requires
        call_ensures(pick_best, (v, kind, year), r),
    ensures
        r is Some ==> 0 <= i < v@.len() && r->0 == v@[i] && (kind is None || v@[i].kind == kind->0),
        r is None ==> forall|j: int|
            0 <= j < v@.len() ==> kind is Some && (#[trigger] v@[j]).kind != kind->0,
        r is Some && year is None ==> forall|j: int|
            0 <= j < i ==> kind is Some && (#[trigger] v@[j]).kind != kind->0,
        r is Some && year is Some && kind is Some ==> forall|j: int|
            0 <= j < v@.len() && (#[trigger] v@[j]).kind == kind->0 ==> years_off(v@[i], year->0)
                <= years_off(v@[j], year->0) && (years_off(v@[i], year->0) == years_off(
                v@[j],
                year->0,
            ) ==> i <= j),
        r is Some && year is Some && kind is None ==> forall|j: int|
            0 <= j < v@.len() && (#[trigger] v@[j]).year == year ==> v@[i].year == year && i <= j,
        r is Some && year is Some && kind is None && v@[i].year != year ==> i == 0,
{
    let s = v@;
    lemma_first_match(s, kind, year, 0);
    lemma_first_match(s, kind, None, 0);
    lemma_first_match_is_first(s, kind, year, 0);
    lemma_first_match_is_first(s, kind, None, 0);
    if kind is Some && year is Some {
        lemma_closest(s, kind->0, year->0, s.len() as int);
        lemma_closest_is_first(s, kind->0, year->0, s.len() as int);
        assert(forall|t: TmdbSuggestion|
            years_off(t, year->0) == #[trigger] distance(t, year->0));
    }
    if best(s, kind, year) is Some {
        best(s, kind, year)->0
    } else {
        0
    }
}

/// Everything that is known of a suggestion reads back from what is kept of
/// it, under its own kind; the moment of the search is kept too.
pub proof fn kept_entry_stands_for_the_title(
    v: &Vec<TmdbSuggestion>,
    kind: Option<TmdbKind>,
    year: Option<u32>,
    now: i64,
    best_one: Option<TmdbSuggestion>,
    r: (Option<ResolvedTitle>, ResolveEntry),
    back: Option<ResolvedTitle>,
)
    requires
        call_ensures(pick_best, (v, kind, year), best_one),
        call_ensures(resolve_cleaned, (v, kind, year, now), r),
        call_ensures(ResolvedTitle::from_entry, (&r.1, kind), back),
    ensures
        r.1.fetched_at == now,
        r.0 is Some == best_one is Some,
        r.0 is Some ==> r.0->0.tmdb_id == best_one->0.tmdb_id && r.0->0.kind == best_one->0.kind
            && r.0->0.title == best_one->0.title && r.0->0.year == best_one->0.year
            && r.0->0.poster_path == best_one->0.poster_path && r.0->0.overview
            == best_one->0.overview,
        r.0 is None ==> back is None,
        r.0 is Some && kind is Some && r.0->0.tmdb_id <= i64::MAX ==> back == r.0,
        r.0 is Some && r.0->0.tmdb_id > i64::MAX ==> back is None,
{
    kind_is_never_crossed_any(v@, kind, year);
}

proof fn kind_is_never_crossed_any(s: Seq<TmdbSuggestion>, kind: Option<TmdbKind>, year: Option<u32>)
    ensures
        kind is Some && best(s, kind, year) is Some ==> s[best(s, kind, year)->0].kind == kind->0,
{
    if kind is Some {
        kind_is_never_crossed(s, kind->0, year);
    }
}

/// An entry stands for a title where its number is none below zero; a title
/// of unknown kind is a movie, and a year that is none is dropped.
pub proof fn entry_tells_its_title(e: &ResolveEntry, hint: Option<TmdbKind>, r: Option<ResolvedTitle>)
    requires
        call_ensures(ResolvedTitle::from_entry, (e, hint), r),
    ensures
        r is Some <==> e.tmdb_id is Some && e.tmdb_id->0 >= 0,
        r is Some ==> r->0.tmdb_id == e.tmdb_id->0,
        r is Some && hint is Some ==> r->0.kind == hint->0,
        r is Some && hint is None ==> r->0.kind is Movie,
        r is Some && e.title is Some ==> r->0.title == e.title->0,
        r is Some && e.title is None ==> r->0.title@.len() == 0,
        r is Some && r->0.year is Some ==> e.year is Some && r->0.year->0 == e.year->0,
        r is Some && e.year is Some && 0 <= e.year->0 <= 0xffff_ffff ==> r->0.year is Some,
        r is Some ==> r->0.poster_path == e.poster_path && r->0.overview == e.overview,
{
    reveal_strlit("");
}

/// The key of a resolution is the title itself without a year, and the title,
/// a space and the year with one.
pub proof fn key_is_title_and_year(cleaned: &str, y: u32, d: String, a: String, b: String)
    requires
        call_ensures(cache_key, (cleaned, None::<u32>), a),
        call_ensures(cache_key, (cleaned, Some(y)), b),
        call_ensures(text::decimal_u64, (y as u64,), d),
    ensures
        a@ == cleaned@,
        b@ == a@ + seq![' '] + d@,
{
    reveal_strlit(" ");
    assert(" "@ =~= seq![' ']);
}

/// A hint is followed; without one, the name tells a show from a movie. Two
/// plain letters are enough to look for, and one is not.
pub proof fn release_is_resolved_by_kind(
    cleaned: &str,
    hint: Option<TmdbKind>,
    is_tv: bool,
    r: Option<TmdbKind>,
)
    requires
        call_ensures(resolve_release_name, (cleaned, hint, is_tv), r),
    ensures
        cleaned@.len() >= 2 ==> r is Some,
        cleaned@.len() == 0 ==> r is None,
        cleaned@.len() == 1 && (cleaned@[0] as u32) < 128 ==> r is None,
        r is Some && hint is Some ==> r == hint,
        r is Some && hint is None ==> (r->0 is Tv <==> is_tv),
{
    text::characters_take_bytes(cleaned@);
}

/// A search starts with what is known, and gives up first the year and then
/// the kind, one at a time; what was found first is what there is.
pub proof fn hints_are_given_up_one_by_one(
    hint: Option<TmdbKind>,
    year: Option<u32>,
    first: CandidateSearch,
    search: CandidateSearch,
    hits: Vec<TmdbSuggestion>,
    r: CandidateStep,
)
    requires
        call_ensures(first_search, (hint, year), first),
        call_ensures(search_candidates, (search, hits), r),
    ensures
        hint is Some ==> first is Typed && first->Typed_0 == hint->0 && first->Typed_1 == year,
        hint is None ==> first is Multi,
        r is Done <==> hits@.len() > 0 || search is Multi,
        r is Done ==> r->Done_0 == hits,
        r is Search && search->Typed_1 is Some ==> r->Search_0 is Typed && r->Search_0->Typed_0
            == search->Typed_0 && r->Search_0->Typed_1 is None,
        r is Search && search->Typed_1 is None ==> r->Search_0 is Multi,
{
}

/// Two kinds are the same where their words are.
pub proof fn kinds_go_by_their_words(a: TmdbKind, b: TmdbKind, wa: &str, wb: &str, r: bool)
    requires
        call_ensures(kind_to_str, (a,), wa),
        call_ensures(kind_to_str, (b,), wb),
        call_ensures(same_kind, (a, b), r),
    ensures
        r <==> wa@ == wb@,
        a is Tv ==> wa@ == seq!['t', 'v'],
        a is Movie ==> wa@ == seq!['m', 'o', 'v', 'i', 'e'],
{
    reveal_strlit("tv");
    reveal_strlit("movie");
    assert("tv"@ =~= seq!['t', 'v']);
    assert("movie"@ =~= seq!['m', 'o', 'v', 'i', 'e']);
    assert("tv"@.len() != "movie"@.len());
}

} // verus!
