//! What a user prefers: languages and genres for recommendations, and the
//! languages of sound and subtitles.

use vstd::prelude::*;

use crate::api_error;
use crate::api_error::{ApiError, Failure};
use crate::order;
use crate::order::Ranked;
use crate::text;
use crate::tmdb::Genre;

verus! {

// ---------------------------------------------------------------------------
// Languages and genres
// ---------------------------------------------------------------------------

/// The languages that can be chosen.
pub open spec fn is_language(s: Seq<char>) -> bool {
    s == "french"@ || s == "english"@
}

/// A language that can be chosen, and how it is shown.
#[derive(Debug)]
pub struct LanguageOption {
    pub value: String,
    pub label: String,
}

/// The languages that can be chosen.
pub fn languages() -> (r: Vec<LanguageOption>)
    ensures
        r@.len() == 2,
        r@[0].value@ == "french"@ && r@[0].label@ == "French"@,
        r@[1].value@ == "english"@ && r@[1].label@ == "English"@,
        forall|i: int| 0 <= i < r@.len() ==> is_language((#[trigger] r@[i]).value@),
{
    let mut out: Vec<LanguageOption> = Vec::new();
    out.push(LanguageOption { value: "french".to_string(), label: "French".to_string() });
    out.push(LanguageOption { value: "english".to_string(), label: "English".to_string() });
    out
}

fn can_be_chosen(s: &str) -> (r: bool)
    ensures
        r == is_language(s@),
{
    text::same_text(s, "french") || text::same_text(s, "english")
}

/// A language as it is compared: without white space around it, and in lower
/// case.
pub open spec fn language_word(s: Seq<char>) -> Seq<char> {
    text::unicode_lower(text::trimmed(s))
}

/// The first language, from `from` on, that cannot be chosen.
pub open spec fn unknown_language(langs: Seq<Seq<char>>, from: int) -> Option<Seq<char>>
    decreases langs.len() - from,
{
    if from < 0 || from >= langs.len() {
        None
    } else if !is_language(language_word(langs[from])) {
        Some(langs[from])
    } else {
        unknown_language(langs, from + 1)
    }
}

/// The languages in their order, each once.
pub open spec fn distinct_languages(langs: Seq<Seq<char>>) -> Seq<Seq<char>>
    decreases langs.len(),
{
    if langs.len() == 0 {
        seq![]
    } else {
        let before = distinct_languages(langs.drop_last());
        let w = language_word(langs.last());
        if before.contains(w) {
            before
        } else {
            before.push(w)
        }
    }
}

/// The languages of a request, most preferred first and each once; a language
/// that cannot be chosen is refused.
pub fn chosen_languages(langs: &Vec<String>) -> (r: Result<Vec<String>, ApiError>)
    ensures
        match unknown_language(text::views(langs@), 0) {
            Some(l) => r matches Err(e) && e@ == Failure::BadRequest("unknown language: "@ + l),
            None => r matches Ok(v) && text::views(v@) == distinct_languages(text::views(langs@)),
        },
{
    let ghost all = text::views(langs@);
    let mut out: Vec<String> = Vec::new();
    assert(text::views(out@) =~= distinct_languages(all.take(0)));
    for i in 0..langs.len()
        invariant
            all == text::views(langs@),
            unknown_language(all, 0) == unknown_language(all, i as int),
            text::views(out@) == distinct_languages(all.take(i as int)),
    {
        let t = text::trim(langs[i].as_str());
        let w = text::to_lowercase(t.as_str());
        assert(all[i as int] == langs@[i as int]@);
        if !can_be_chosen(w.as_str()) {
            return Err(
                ApiError::BadRequest(api_error::prefixed("unknown language: ", langs[i].as_str())),
            );
        }
        proof {
            assert(all.take(i + 1).drop_last() =~= all.take(i as int));
            assert(all.take(i + 1).last() == all[i as int]);
        }
        if !text::holds(&out, w.as_str()) {
            let ghost before = out@;
            out.push(w);
            assert(text::views(out@) =~= text::views(before).push(w@));
        }
    }
    assert(all.take(all.len() as int) =~= all);
    Ok(out)
}

/// Every stored language can be chosen, and none is stored twice.
pub proof fn stored_languages_are_valid(langs: Seq<Seq<char>>)
    requires
        unknown_language(langs, 0) is None,
    ensures
        forall|i: int|
            0 <= i < distinct_languages(langs).len() ==> is_language(
                #[trigger] distinct_languages(langs)[i],
            ),
        distinct_languages(langs).no_duplicates(),
    decreases langs.len(),
{
    if langs.len() > 0 {
        lemma_all_known(langs, 0);
        assert(is_language(language_word(langs[langs.len() - 1])));
        lemma_known_prefix(langs, 0);
        stored_languages_are_valid(langs.drop_last());
    }
}

proof fn lemma_all_known(langs: Seq<Seq<char>>, from: int)
    requires
        0 <= from,
        unknown_language(langs, from) is None,
    ensures
        forall|i: int| from <= i < langs.len() ==> is_language(language_word(#[trigger] langs[i])),
    decreases langs.len() - from,
{
    if from < langs.len() {
        lemma_all_known(langs, from + 1);
    }
}

proof fn lemma_known_prefix(langs: Seq<Seq<char>>, from: int)
    requires
        0 <= from,
        langs.len() > 0,
        unknown_language(langs, from) is None,
    ensures
        unknown_language(langs.drop_last(), from) is None,
    decreases langs.len() - from,
{
    if from < langs.drop_last().len() {
        lemma_known_prefix(langs, from + 1);
    }
}

/// The genres of a request in their order: positive ones, each once.
pub open spec fn chosen(genres: Seq<i64>) -> Seq<i64>
    decreases genres.len(),
{
    if genres.len() == 0 {
        seq![]
    } else {
        let before = chosen(genres.drop_last());
        let g = genres.last();
        if g > 0 && !before.contains(g) {
            before.push(g)
        } else {
            before
        }
    }
}

/// The genres of a request in their order: positive ones, each once.
pub fn chosen_genres(genres: &Vec<i64>) -> (r: Vec<i64>)
    ensures
        r@ == chosen(genres@),
{
    let mut out: Vec<i64> = Vec::new();
    assert(out@ =~= chosen(genres@.take(0)));
    for i in 0..genres.len()
        invariant
            out@ == chosen(genres@.take(i as int)),
    {
        proof {
            assert(genres@.take(i + 1).drop_last() =~= genres@.take(i as int));
        }
        let g: i64 = genres[i];
        let mut seen = false;
        for j in 0..out.len()
            invariant
                seen == out@.take(j as int).contains(g),
        {
            proof {
                let a = out@.take(j as int);
                let b = out@.take(j + 1);
                assert(b =~= a.push(out@[j as int]));
                if a.contains(g) {
                    let k = choose|k: int| 0 <= k < a.len() && a[k] == g;
                    assert(b[k] == g);
                }
                if out@[j as int] == g {
                    assert(b[j as int] == g);
                }
                if b.contains(g) && out@[j as int] != g {
                    let k = choose|k: int| 0 <= k < b.len() && b[k] == g;
                    assert(a[k] == g);
                }
            }
            if out[j] == g {
                seen = true;
            }
        }
        assert(out@.take(out@.len() as int) =~= out@);
        if g > 0 && !seen {
            out.push(g);
        }
    }
    assert(genres@.take(genres@.len() as int) =~= genres@);
    out
}

/// A genre is stored exactly when it is positive and was asked for, and none
/// is stored twice.
pub proof fn stored_genres_are_valid(genres: Seq<i64>, g: i64)
    ensures
        chosen(genres).contains(g) <==> g > 0 && genres.contains(g),
        chosen(genres).no_duplicates(),
    decreases genres.len(),
{
    if genres.len() > 0 {
        let rest = genres.drop_last();
        let last = genres.last();
        stored_genres_are_valid(rest, g);
        stored_genres_are_valid(rest, last);
        let before = chosen(rest);
        assert(genres =~= rest.push(last));
        if genres.contains(g) && g != last {
            let k = choose|k: int| 0 <= k < genres.len() && genres[k] == g;
            assert(rest[k] == g);
        }
        if rest.contains(g) {
            let k = choose|k: int| 0 <= k < rest.len() && rest[k] == g;
            assert(genres[k] == g);
        }
        assert(genres[genres.len() - 1] == last);
        if last > 0 && !before.contains(last) {
            let now = before.push(last);
            assert(now[now.len() - 1] == last);
            if before.contains(g) {
                let k = choose|k: int| 0 <= k < before.len() && before[k] == g;
                assert(now[k] == g);
            }
            if now.contains(g) && g != last {
                let k = choose|k: int| 0 <= k < now.len() && now[k] == g;
                assert(before[k] == g);
            }
        }
    }
}

#[derive(Debug)]
pub struct UpdatePreferencesRequest {
    pub languages: Vec<String>,
    pub genres: Vec<i64>,
    pub include_anime: bool,
    pub onboarding_completed: bool,
}

/// Preferences as they are stored.
#[derive(Debug)]
pub struct Preferences {
    pub languages: Vec<String>,
    pub genres: Vec<i64>,
    pub include_anime: bool,
    pub onboarding_completed: bool,
}

/// The preferences that a request stores.
pub fn put_preferences(body: &UpdatePreferencesRequest) -> (r: Result<Preferences, ApiError>)
    ensures
        match unknown_language(text::views(body.languages@), 0) {
            Some(l) => r matches Err(e) && e@ == Failure::BadRequest("unknown language: "@ + l),
            None => {
                &&& r is Ok
                &&& text::views(r->Ok_0.languages@) == distinct_languages(
                    text::views(body.languages@),
                )
                &&& r->Ok_0.genres@ == chosen(body.genres@)
                &&& r->Ok_0.include_anime == body.include_anime
                &&& r->Ok_0.onboarding_completed == body.onboarding_completed
            },
        },
{
    match chosen_languages(&body.languages) {
        Err(e) => Err(e),
        Ok(languages) => Ok(
            Preferences {
                languages,
                genres: chosen_genres(&body.genres),
                include_anime: body.include_anime,
                onboarding_completed: body.onboarding_completed,
            },
        ),
    }
}

// ---------------------------------------------------------------------------
// The genres to choose from
// ---------------------------------------------------------------------------

/// A genre that can be chosen.
#[derive(Debug)]
pub struct GenreOption {
    pub id: i64,
    pub name: String,
}

impl Ranked for GenreOption {
    open spec fn before(self, other: Self) -> bool {
        text::text_lt(self.name@, other.name@)
    }

    proof fn before_is_strict_weak_order(a: Self, b: Self, c: Self) {
        text::text_lt_is_total_order(a.name@, b.name@, c.name@);
        text::text_lt_is_total_order(b.name@, a.name@, c.name@);
        text::text_lt_is_total_order(a.name@, c.name@, b.name@);
        text::text_lt_is_total_order(c.name@, b.name@, a.name@);
        text::text_lt_is_total_order(a.name@, a.name@, a.name@);
    }

    fn sorts_before(&self, other: &Self) -> (r: bool) {
        text::sorts_before(self.name.as_str(), other.name.as_str())
    }
}

pub open spec fn has_genre(s: Seq<GenreOption>, id: i64) -> bool {
    exists|i: int| 0 <= i < s.len() && (#[trigger] s[i]).id == id
}

/// The genres in their order; of several with one number, the first.
pub open spec fn distinct_genres(genres: Seq<Genre>) -> Seq<GenreOption>
    decreases genres.len(),
{
    if genres.len() == 0 {
        seq![]
    } else {
        let before = distinct_genres(genres.drop_last());
        let g = genres.last();
        if has_genre(before, g.id as i64) {
            before
        } else {
            before.push(GenreOption { id: g.id as i64, name: g.name })
        }
    }
}

/// The genres of movies and shows, each number once, by name. Of two with one
/// number, that of the movies counts.
pub fn genres(movies: &Vec<Genre>, shows: &Vec<Genre>) -> (r: Vec<GenreOption>)
    ensures
        r@ == order::sorted(distinct_genres(movies@ + shows@)),
{
    let ghost all = movies@ + shows@;
    let mut out: Vec<GenreOption> = Vec::new();
    let n: usize = movies.len();
    let m: usize = shows.len();
    assert(out@ =~= distinct_genres(all.take(0)));
    for i in 0..n
        invariant
            all == movies@ + shows@,
            n == movies@.len(),
            out@ == distinct_genres(all.take(i as int)),
    {
        proof {
            assert(all.take(i + 1).drop_last() =~= all.take(i as int));
            assert(all.take(i + 1).last() == movies@[i as int]);
        }
        add_genre(&mut out, &movies[i]);
    }
    for i in 0..m
        invariant
            all == movies@ + shows@,
            n == movies@.len(),
            m == shows@.len(),
            out@ == distinct_genres(all.take(n + i)),
    {
        proof {
            assert(all.take(n + i + 1).drop_last() =~= all.take(n + i));
            assert(all.take(n + i + 1).last() == shows@[i as int]);
        }
        add_genre(&mut out, &shows[i]);
    }
    assert(all.take(n + m) =~= all);
    order::sort(out)
}

fn add_genre(out: &mut Vec<GenreOption>, g: &Genre)
    ensures
        final(out)@ == if has_genre(old(out)@, g.id as i64) {
            old(out)@
        } else {
            old(out)@.push(GenreOption { id: g.id as i64, name: g.name })
        },
{
    let id: i64 = g.id as i64;
    for i in 0..out.len()
        invariant
            out@ == old(out)@,
            id == g.id as i64,
            forall|j: int| 0 <= j < i ==> (#[trigger] out@[j]).id != id,
    {
        if out[i].id == id {
            assert(out@[i as int].id == id);
            return;
        }
    }
    out.push(GenreOption { id, name: g.name.clone() });
}

// ---------------------------------------------------------------------------
// Sound and subtitles
// ---------------------------------------------------------------------------

/// A language as it is stored: without white space around it, and in lower
/// case; a blank one is none.
pub open spec fn stored_language(value: Option<Seq<char>>) -> Option<Seq<char>> {
    match value {
        Some(s) => if language_word(s).len() > 0 {
            Some(language_word(s))
        } else {
            None
        },
        None => None,
    }
}

/// A language as it is stored.
pub fn norm(value: &Option<String>) -> (r: Option<String>)
    ensures
        text::opt_view(r) == stored_language(text::opt_view(*value)),
{
    match value {
        Some(s) => {
            let t = text::trim(s.as_str());
            let w = text::to_lowercase(t.as_str());
            if text::is_blank(w.as_str()) {
                None
            } else {
                Some(w)
            }
        },
        None => None,
    }
}

/// Preferred languages of sound and subtitles; `off` stands for no subtitles.
#[derive(Debug)]
pub struct PlaybackPreferences {
    pub audio_language: Option<String>,
    pub subtitle_language: Option<String>,
}

/// The preferred languages that a request stores.
pub fn put_prefs(body: &PlaybackPreferences) -> (r: PlaybackPreferences)
    ensures
        text::opt_view(r.audio_language) == stored_language(text::opt_view(body.audio_language)),
        text::opt_view(r.subtitle_language) == stored_language(
            text::opt_view(body.subtitle_language),
        ),
{
    PlaybackPreferences {
        audio_language: norm(&body.audio_language),
        subtitle_language: norm(&body.subtitle_language),
    }
}

// ---------------------------------------------------------------------------
// Laws
// ---------------------------------------------------------------------------

/// A list of languages is refused where one of them cannot be chosen. One more
/// language that can be comes behind those chosen before, unless it is among
/// them.
pub proof fn languages_are_chosen_in_turn(
    langs: &Vec<String>,
    more: &Vec<String>,
    x: &Option<String>,
    word: Option<String>,
    a: Result<Vec<String>, ApiError>,
    b: Result<Vec<String>, ApiError>,
)
    requires
        x is Some,
        more@ == langs@.push(x->0),
        call_ensures(norm, (x,), word),
        call_ensures(chosen_languages, (langs,), a),
        call_ensures(chosen_languages, (more,), b),
    ensures
        langs@.len() == 0 ==> a is Ok && a->Ok_0@.len() == 0,
        b is Ok <==> a is Ok && word is Some && (word->0@ == "french"@ || word->0@ == "english"@),
        b is Err ==> b->Err_0@ is BadRequest,
        a is Err ==> b->Err_0@ == a->Err_0@,
        a is Ok && b is Err ==> b->Err_0@ == Failure::BadRequest("unknown language: "@ + x->0@),
        b is Ok && text::views(a->Ok_0@).contains(word->0@) ==> text::views(b->Ok_0@)
            == text::views(a->Ok_0@),
        b is Ok && !text::views(a->Ok_0@).contains(word->0@) ==> text::views(b->Ok_0@)
            == text::views(a->Ok_0@).push(word->0@),
{
    reveal_strlit("french");
    reveal_strlit("english");
    let l = text::views(langs@);
    let m = text::views(more@);
    assert(m =~= l.push(x->0@));
    assert(m.drop_last() =~= l);
    lemma_unknown_of_more(l, x->0@, 0);
    if langs@.len() == 0 {
        assert(text::views(a->Ok_0@).len() == a->Ok_0@.len());
        assert(distinct_languages(l).len() == 0);
    }
}

proof fn lemma_unknown_of_more(l: Seq<Seq<char>>, x: Seq<char>, from: int)
    requires
        0 <= from <= l.len(),
    ensures
        unknown_language(l.push(x), from) == match unknown_language(l, from) {
            Some(u) => Some(u),
            None => if is_language(language_word(x)) {
                None
            } else {
                Some(x)
            },
        },
    decreases l.len() - from,
{
    if from < l.len() {
        assert(l.push(x)[from] == l[from]);
        if is_language(language_word(l[from])) {
            lemma_unknown_of_more(l, x, from + 1);
        }
    } else {
        assert(l.push(x)[from] == x);
        assert(unknown_language(l.push(x), from + 1) is None);
    }
}

/// One more genre comes behind those chosen before where its number is above
/// zero and not among them.
pub proof fn genres_are_chosen_in_turn(
    genres: &Vec<i64>,
    more: &Vec<i64>,
    g: i64,
    a: Vec<i64>,
    b: Vec<i64>,
)
    requires
        more@ == genres@.push(g),
        call_ensures(chosen_genres, (genres,), a),
        call_ensures(chosen_genres, (more,), b),
    ensures
        genres@.len() == 0 ==> a@.len() == 0,
        g > 0 && !a@.contains(g) ==> b@ == a@.push(g),
        g <= 0 || a@.contains(g) ==> b@ == a@,
{
    assert(more@.drop_last() =~= genres@);
}

/// What is stored of a request is what was chosen, and the switches as they
/// are; a request with a language that cannot be chosen stores nothing.
pub proof fn choices_are_stored(
    body: &UpdatePreferencesRequest,
    langs: Result<Vec<String>, ApiError>,
    genres: Vec<i64>,
    r: Result<Preferences, ApiError>,
)
    requires
        call_ensures(chosen_languages, (&body.languages,), langs),
        call_ensures(chosen_genres, (&body.genres,), genres),
        call_ensures(put_preferences, (body,), r),
    ensures
        r is Ok <==> langs is Ok,
        r is Ok ==> text::views(r->Ok_0.languages@) == text::views(langs->Ok_0@),
        r is Ok ==> r->Ok_0.genres@ == genres@,
        r is Ok ==> r->Ok_0.include_anime == body.include_anime && r->Ok_0.onboarding_completed
            == body.onboarding_completed,
        r is Err ==> r->Err_0@ == langs->Err_0@,
{
}

proof fn lemma_distinct_genres(g: Seq<Genre>)
    ensures
        forall|i: int, j: int|
            0 <= i < j < distinct_genres(g).len() ==> (#[trigger] distinct_genres(g)[i]).id != (
            #[trigger] distinct_genres(g)[j]).id,
        forall|i: int| 0 <= i < g.len() ==> has_genre(distinct_genres(g), (#[trigger] g[i]).id as i64),
        forall|k: int|
            0 <= k < distinct_genres(g).len() ==> comes_first(g, #[trigger] distinct_genres(g)[k]),
    decreases g.len(),
{
    if g.len() > 0 {
        let t = g.drop_last();
        let x = g.last();
        lemma_distinct_genres(t);
        let d = distinct_genres(t);
        let e = distinct_genres(g);
        assert forall|i: int| 0 <= i < g.len() implies has_genre(e, (#[trigger] g[i]).id as i64) by {
            if i < t.len() {
                assert(has_genre(d, t[i].id as i64));
                let k = choose|k: int| 0 <= k < d.len() && (#[trigger] d[k]).id == t[i].id as i64;
                assert(e[k] == d[k]);
            } else if !has_genre(d, x.id as i64) {
                assert(e[e.len() - 1].id == x.id as i64);
            }
        }
        assert forall|k: int| 0 <= k < e.len() implies comes_first(g, #[trigger] e[k]) by {
            if k < d.len() {
                assert(e[k] == d[k]);
                assert(comes_first(t, d[k]));
                let i = choose|i: int| 0 <= i < t.len() && is_first_of(t, i, d[k]);
                assert(is_first_of(g, i, e[k])) by {
                    assert(g[i] == t[i]);
                    assert forall|j: int| 0 <= j < i implies (#[trigger] g[j]).id != g[i].id by {
                        assert(t[j].id != t[i].id);
                    }
                }
            } else {
                let i = g.len() - 1;
                assert forall|j: int| 0 <= j < i implies (#[trigger] g[j]).id != g[i].id by {
                    assert(has_genre(d, t[j].id as i64));
                    let m = choose|m: int| 0 <= m < d.len() && (#[trigger] d[m]).id == t[j].id as i64;
                    if g[j].id == x.id {
                        assert(has_genre(d, x.id as i64));
                    }
                }
                assert(is_first_of(g, i, e[k]));
            }
        }
        assert forall|i: int, j: int| 0 <= i < j < e.len() implies (#[trigger] e[i]).id != (
        #[trigger] e[j]).id by {
            if j < d.len() {
                assert(d[i].id != d[j].id);
            } else {
                assert(e[i] == d[i]);
            }
        }
    }
}

/// `o` stands for the genre at `i`, which is the first of its number.
pub open spec fn is_first_of(g: Seq<Genre>, i: int, o: GenreOption) -> bool {
    o.id == g[i].id && o.name == g[i].name && forall|j: int| 0 <= j < i ==> (#[trigger] g[j]).id
        != g[i].id
}

/// `o` stands for a genre that is the first of its number.
pub open spec fn comes_first(g: Seq<Genre>, o: GenreOption) -> bool {
    exists|i: int| 0 <= i < g.len() && is_first_of(g, i, o)
}

/// The genres to choose from go by name; each number stands once, under the
/// name that comes first, movies before shows, and none is left out.
pub proof fn genres_are_offered_by_name(movies: &Vec<Genre>, shows: &Vec<Genre>, r: Vec<GenreOption>)
    requires
        call_ensures(genres, (movies, shows), r),
    ensures
        forall|i: int, j: int|
            0 <= i < j < r@.len() ==> !text::text_lt(
                (#[trigger] r@[j]).name@,
                (#[trigger] r@[i]).name@,
            ),
        forall|k: int|
            0 <= k < r@.len() ==> comes_first(movies@ + shows@, #[trigger] r@[k]),
        forall|i: int|
            0 <= i < (movies@ + shows@).len() ==> has_genre(
                r@,
                (#[trigger] (movies@ + shows@)[i]).id as i64,
            ),
{
    broadcast use vstd::seq_lib::group_to_multiset_ensures;

    let g = movies@ + shows@;
    let d = distinct_genres(g);
    lemma_distinct_genres(g);
    order::sorted_is_ordered_permutation(d);
    assert forall|i: int, j: int| 0 <= i < j < r@.len() implies !text::text_lt(
        (#[trigger] r@[j]).name@,
        (#[trigger] r@[i]).name@,
    ) by {
        assert(!r@[j].before(r@[i]));
    }
    assert forall|k: int| 0 <= k < r@.len() implies comes_first(g, #[trigger] r@[k]) by {
        assert(r@.to_multiset().contains(r@[k]));
        assert(d.contains(r@[k]));
        let m = choose|m: int| 0 <= m < d.len() && d[m] == r@[k];
        assert(comes_first(g, d[m]));
    }
    assert forall|i: int| 0 <= i < g.len() implies has_genre(r@, (#[trigger] g[i]).id as i64) by {
        assert(has_genre(d, g[i].id as i64));
        let m = choose|m: int| 0 <= m < d.len() && (#[trigger] d[m]).id == g[i].id as i64;
        assert(d.to_multiset().contains(d[m]));
        assert(r@.contains(d[m]));
        let n = choose|n: int| 0 <= n < r@.len() && r@[n] == d[m];
        assert(r@[n].id == g[i].id as i64);
    }
}

/// A language is stored without white space around it, and a language that is
/// none is none; sound and subtitles are stored each as its own.
pub proof fn languages_are_stored_trimmed(
    a: &Option<String>,
    b: &Option<String>,
    sa: &str,
    sb: &str,
    ta: String,
    tb: String,
    ra: Option<String>,
    rb: Option<String>,
    body: &PlaybackPreferences,
    stored: PlaybackPreferences,
)
    requires
        a is Some ==> sa@ == a->0@,
        b is Some ==> sb@ == b->0@,
        call_ensures(text::trim, (sa,), ta),
        call_ensures(text::trim, (sb,), tb),
        call_ensures(norm, (a,), ra),
        call_ensures(norm, (b,), rb),
        body.audio_language == *a,
        body.subtitle_language == *b,
        call_ensures(put_prefs, (body,), stored),
    ensures
        a is None ==> ra is None,
        ra is Some ==> ra->0@.len() > 0,
        a is Some && b is Some && ta@ == tb@ ==> text::opt_view(ra) == text::opt_view(rb),
        text::opt_view(stored.audio_language) == text::opt_view(ra),
        text::opt_view(stored.subtitle_language) == text::opt_view(rb),
{
}

/// Every language that is offered can be chosen.
pub proof fn offered_languages_are_two(r: Vec<LanguageOption>)
    requires
        call_ensures(languages, (), r),
    ensures
        r@.len() == 2,
        r@[0].value@ == "french"@ && r@[1].value@ == "english"@,
        r@[0].label@ == "French"@ && r@[1].label@ == "English"@,
{
}

} // verus!
