//! Questions about titles, moods and featured releases.

use vstd::prelude::*;

use crate::api_error;
use crate::api_error::{ApiError, Failure};
use crate::tmdb;
use crate::tmdb::{TmdbKind, TmdbSuggestion};
use crate::tmdb_resolve::ResolvedTitle;

verus! {

pub open spec fn hinted_kind(kind: Option<&str>) -> Option<TmdbKind> {
    match kind {
        Some(k) => tmdb::kind_of_word(k@),
        None => None,
    }
}

/// The kind that a request hints at.
pub fn kind_param(kind: Option<&str>) -> (r: Option<TmdbKind>)
    ensures
        r == hinted_kind(kind),
{
    match kind {
        Some(k) => tmdb::kind_hint(k),
        None => None,
    }
}

/// A lookup needs TMDB to be configured.
pub fn tmdb_lookup<T>(client: Option<T>) -> (r: Result<T, ApiError>)
    ensures
        match client {
            Some(c) => r == Ok::<T, ApiError>(c),
            None => r matches Err(e) && e@ == Failure::BadRequest(
                "TMDB enrichment is not configured (set [tmdb].api_key)"@,
            ),
        },
{
    match client {
        Some(c) => Ok(c),
        None => Err(
            api_error::bad_request("TMDB enrichment is not configured (set [tmdb].api_key)"),
        ),
    }
}

/// A resolved title as a client sees it.
pub fn tmdb_resolve(t: Option<ResolvedTitle>) -> (r: Option<TmdbSuggestion>)
    ensures
        r == match t {
            Some(t) => Some(
                TmdbSuggestion {
                    kind: t.kind,
                    tmdb_id: t.tmdb_id,
                    title: t.title,
                    year: t.year,
                    overview: t.overview,
                    poster_path: t.poster_path,
                },
            ),
            None => None,
        },
{
    match t {
        Some(t) => Some(
            TmdbSuggestion {
                kind: t.kind,
                tmdb_id: t.tmdb_id,
                title: t.title,
                year: t.year,
                overview: t.overview,
                poster_path: t.poster_path,
            },
        ),
        None => None,
    }
}

/// The kind that a mood is asked for: movies, unless shows are.
pub fn kind_of(kind: Option<&str>) -> (r: TmdbKind)
    ensures
        r == if hinted_kind(kind) == Some(TmdbKind::Tv) {
            TmdbKind::Tv
        } else {
            TmdbKind::Movie
        },
{
    match kind_param(kind) {
        Some(TmdbKind::Tv) => TmdbKind::Tv,
        _ => TmdbKind::Movie,
    }
}

/// What answered, one after the other; a provider that failed adds nothing.
pub open spec fn gathered<T>(answers: Seq<Option<Vec<T>>>) -> Seq<T>
    decreases answers.len(),
{
    if answers.len() == 0 {
        seq![]
    } else {
        gathered(answers.drop_last()) + match answers.last() {
            Some(v) => v@,
            None => seq![],
        }
    }
}

/// The featured releases of all providers, in the order of the providers.
pub fn featured<T>(answers: Vec<Option<Vec<T>>>) -> (r: Vec<T>)
    ensures
        r@ == gathered(answers@),
{
    let ghost all = answers@;
    let mut out: Vec<T> = Vec::new();
    assert(out@ =~= gathered(all.take(0)));
    for a in it: answers
        invariant
            it.seq() == all,
            out@ == gathered(all.take(it.index())),
    {
        proof {
            assert(all.take(it.index() + 1).drop_last() =~= all.take(it.index()));
            assert(all.take(it.index() + 1).last() == a);
        }
        match a {
            Some(mut v) => {
                out.append(&mut v);
            },
            None => {},
        }
    }
    assert(all.take(all.len() as int) =~= all);
    out
}

// ---------------------------------------------------------------------------
// Laws
// ---------------------------------------------------------------------------

/// A request hints at a kind by its word; other words, and none, hint at
/// nothing. A mood is asked for movies unless the word is that of shows.
pub proof fn word_hints_at_its_kind(
    kind: Option<&str>,
    k: TmdbKind,
    word: &str,
    r: Option<TmdbKind>,
    mood: TmdbKind,
)
    requires
        call_ensures(tmdb::kind_marker, (k,), word),
        call_ensures(kind_param, (kind,), r),
        call_ensures(kind_of, (kind,), mood),
    ensures
        r == Some(k) <==> kind is Some && kind->0@ == word@,
        kind is None ==> r is None,
        r is Some ==> mood == r->0,
        r is None ==> mood is Movie,
{
    reveal_strlit("tv");
    reveal_strlit("movie");
    assert("tv"@.len() != "movie"@.len());
}

/// A lookup goes to the client that is configured, and is refused as the
/// caller's mistake where none is.
pub proof fn lookup_needs_a_client<T>(client: Option<T>, r: Result<T, ApiError>)
    requires
        call_ensures(tmdb_lookup::<T>, (client,), r),
    ensures
        r is Ok <==> client is Some,
        r is Ok ==> r->Ok_0 == client->0,
        r is Err ==> r->Err_0@ is BadRequest,
{
}

/// A resolved title is shown with all that is known of it.
pub proof fn resolved_title_is_shown(t: Option<ResolvedTitle>, r: Option<TmdbSuggestion>)
    requires
        call_ensures(tmdb_resolve, (t,), r),
    ensures
        r is Some <==> t is Some,
        r is Some ==> r->0.kind == t->0.kind && r->0.tmdb_id == t->0.tmdb_id && r->0.title
            == t->0.title && r->0.year == t->0.year && r->0.overview == t->0.overview
            && r->0.poster_path == t->0.poster_path,
{
}

/// What one more provider answers comes behind what there was, and a provider
/// that failed adds nothing.
pub proof fn answers_follow_each_other<T>(
    answers: Vec<Option<Vec<T>>>,
    more: Vec<Option<Vec<T>>>,
    x: Option<Vec<T>>,
    a: Vec<T>,
    b: Vec<T>,
)
    requires
        more@ == answers@.push(x),
        call_ensures(featured::<T>, (answers,), a),
        call_ensures(featured::<T>, (more,), b),
    ensures
        answers@.len() == 0 ==> a@.len() == 0,
        x is None ==> b@ == a@,
        x is Some ==> b@ == a@ + x->0@,
{
    assert(more@.drop_last() =~= answers@);
    assert(a@ + Seq::<T>::empty() =~= a@);
}

} // verus!
