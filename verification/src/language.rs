//! Release languages and how a pick treats them.

use vstd::prelude::*;

verus! {

/// Coarse language of a release.
#[derive(Debug, Clone, Copy, PartialEq, Eq, Structural)]
pub enum Language {
    French,
    English,
    /// Carries several audio tracks.
    Multi,
    Unknown,
}

/// How a pick treats language.
#[derive(Debug, Clone)]
pub enum LangSel {
    /// No preference: the best offer, whatever its language.
    Any,
    /// This language or nothing.
    Exact(Language),
    /// These languages in order, then whatever there is.
    Prefer(Vec<Language>),
}

/// A candidate as the selection sees it: its language, and whether it is
/// alive and not junk.
pub type Tag = (Language, bool);

/// Whether a candidate is in the wanted language, where one is, and sane,
/// where it has to be.
pub open spec fn fits(tag: Tag, want: Option<Language>, sane_only: bool) -> bool {
    &&& want matches Some(l) ==> tag.0 == l
    &&& sane_only ==> tag.1
}

/// The first candidate from `from` on that fits.
pub open spec fn first_fit(tags: Seq<Tag>, want: Option<Language>, sane_only: bool, from: int)
    -> Option<int>
    decreases tags.len() - from,
{
    if from < 0 || from >= tags.len() {
        None
    } else if fits(tags[from], want, sane_only) {
        Some(from)
    } else {
        first_fit(tags, want, sane_only, from + 1)
    }
}

/// The first candidate in the first language of `order`, from `from` on, that
/// has one.
pub open spec fn first_in_order(tags: Seq<Tag>, order: Seq<Language>, sane_only: bool, from: int)
    -> Option<int>
    decreases order.len() - from,
{
    if from < 0 || from >= order.len() {
        None
    } else {
        match first_fit(tags, Some(order[from]), sane_only, 0) {
            Some(i) => Some(i),
            None => first_in_order(tags, order, sane_only, from + 1),
        }
    }
}

pub open spec fn or_else(a: Option<int>, b: Option<int>) -> Option<int> {
    match a {
        Some(i) => Some(i),
        None => b,
    }
}

/// Which candidate a selection picks from a list in order of merit.
pub open spec fn selected(tags: Seq<Tag>, sel: LangSel) -> Option<int> {
    match sel {
        LangSel::Any => or_else(first_fit(tags, None, true, 0), first_fit(tags, None, false, 0)),
        LangSel::Exact(l) => or_else(
            first_fit(tags, Some(l), true, 0),
            first_fit(tags, Some(l), false, 0),
        ),
        LangSel::Prefer(order) => or_else(
            first_in_order(tags, order@, true, 0),
            or_else(
                first_fit(tags, None, true, 0),
                or_else(
                    first_in_order(tags, order@, false, 0),
                    first_fit(tags, None, false, 0),
                ),
            ),
        ),
    }
}

/// The tags of a list of tagged values.
pub open spec fn tags_of<T>(items: Seq<(Language, bool, T)>) -> Seq<Tag> {
    Seq::new(items.len(), |i: int| (items[i].0, items[i].1))
}

impl LangSel {
    /// The selection for a language badge: exactly that language, or any when
    /// no badge was chosen.
    pub fn from_badge(lang: Option<Language>) -> (r: LangSel)
        ensures
            r == match lang {
                Some(l) => LangSel::Exact(l),
                None => LangSel::Any,
            },
    {
        match lang {
            Some(l) => LangSel::Exact(l),
            None => LangSel::Any,
        }
    }
}

fn find_fit(tags: &Vec<Tag>, want: Option<Language>, sane_only: bool) -> (r: Option<usize>)
    ensures
        match r {
            Some(i) => first_fit(tags@, want, sane_only, 0) == Some(i as int),
            None => first_fit(tags@, want, sane_only, 0) is None,
        },
{
    let mut i: usize = 0;
    while i < tags.len()
        invariant
            i <= tags.len(),
            first_fit(tags@, want, sane_only, 0) == first_fit(tags@, want, sane_only, i as int),
        decreases tags.len() - i,
    {
        let (lang, sane) = tags[i];
        let in_language = match want {
            Some(l) => lang == l,
            None => true,
        };
        if in_language && (sane || !sane_only) {
            return Some(i);
        }
        i = i + 1;
    }
    None
}

fn find_in_order(tags: &Vec<Tag>, order: &Vec<Language>, sane_only: bool) -> (r: Option<usize>)
    ensures
        match r {
            Some(i) => first_in_order(tags@, order@, sane_only, 0) == Some(i as int),
            None => first_in_order(tags@, order@, sane_only, 0) is None,
        },
{
    let mut k: usize = 0;
    while k < order.len()
        invariant
            k <= order.len(),
            first_in_order(tags@, order@, sane_only, 0) == first_in_order(
                tags@,
                order@,
                sane_only,
                k as int,
            ),
        decreases order.len() - k,
    {
        let found = find_fit(tags, Some(order[k]), sane_only);
        if found.is_some() {
            return found;
        }
        k = k + 1;
    }
    None
}

/// Which candidate a selection picks from a list in order of merit.
pub fn select_index(tags: &Vec<Tag>, sel: &LangSel) -> (r: Option<usize>)
    ensures
        match r {
            Some(i) => selected(tags@, *sel) == Some(i as int) && i < tags.len(),
            None => selected(tags@, *sel) is None,
        },
{
    proof {
        selection_is_in_range(tags@, *sel);
    }
    match sel {
        LangSel::Any => {
            let found = find_fit(tags, None, true);
            if found.is_some() {
                return found;
            }
            find_fit(tags, None, false)
        },
        LangSel::Exact(l) => {
            let found = find_fit(tags, Some(*l), true);
            if found.is_some() {
                return found;
            }
            find_fit(tags, Some(*l), false)
        },
        LangSel::Prefer(order) => {
            let found = find_in_order(tags, order, true);
            if found.is_some() {
                return found;
            }
            let found = find_fit(tags, None, true);
            if found.is_some() {
                return found;
            }
            let found = find_in_order(tags, order, false);
            if found.is_some() {
                return found;
            }
            find_fit(tags, None, false)
        },
    }
}

/// Picks one of `items`, which stand in order of merit, each with its
/// language and whether it is sane. Where languages can be traded, a sane
/// candidate beats a dodgy one in a better language.
pub fn select_by_lang<T: Clone>(items: &Vec<(Language, bool, T)>, sel: &LangSel) -> (r: Option<T>)
    ensures
        match r {
            Some(t) => {
                &&& selected(tags_of(items@), *sel) is Some
                &&& cloned(items@[selected(tags_of(items@), *sel)->0].2, t)
            },
            None => selected(tags_of(items@), *sel) is None,
        },
{
    let mut tags: Vec<Tag> = Vec::new();
    for i in 0..items.len()
        invariant
            tags@ == tags_of(items@).take(i as int),
    {
        tags.push((items[i].0, items[i].1));
        assert(tags_of(items@).take(i + 1) =~= tags_of(items@).take(i as int).push(
            tags_of(items@)[i as int],
        ));
    }
    assert(tags@ =~= tags_of(items@));
    match select_index(&tags, sel) {
        Some(i) => Some(items[i].2.clone()),
        None => None,
    }
}

/// The languages an automatic continuation asks for: the established one,
/// then `Multi`, French and English, none twice.
pub open spec fn continuation_order(dominant: Language) -> Seq<Language> {
    match dominant {
        Language::French => seq![Language::French, Language::Multi, Language::English],
        Language::English => seq![Language::English, Language::Multi, Language::French],
        Language::Multi => seq![Language::Multi, Language::French, Language::English],
        Language::Unknown => seq![
            Language::Unknown,
            Language::Multi,
            Language::French,
            Language::English,
        ],
    }
}

/// The selection of an automatic continuation of a series.
pub fn continuation_pref(dominant: Language) -> (r: LangSel)
    ensures
        r is Prefer,
        r->Prefer_0@ == continuation_order(dominant),
{
    let mut order: Vec<Language> = Vec::new();
    order.push(dominant);
    if dominant != Language::Multi {
        order.push(Language::Multi);
    }
    if dominant != Language::French {
        order.push(Language::French);
    }
    if dominant != Language::English {
        order.push(Language::English);
    }
    assert(order@ =~= continuation_order(dominant));
    LangSel::Prefer(order)
}

/// How many of `langs` are `l`.
pub open spec fn occurrences(langs: Seq<Language>, l: Language) -> nat
    decreases langs.len(),
{
    if langs.len() == 0 {
        0
    } else {
        occurrences(langs.drop_last(), l) + if langs.last() == l {
            1nat
        } else {
            0nat
        }
    }
}

/// French on a strict plurality, else English unless `Multi` outnumbers it.
pub open spec fn majority_language(langs: Seq<Language>) -> Language {
    let fr = occurrences(langs, Language::French);
    let en = occurrences(langs, Language::English);
    let multi = occurrences(langs, Language::Multi);
    if fr > en && fr > multi {
        Language::French
    } else if en >= multi {
        Language::English
    } else {
        Language::Multi
    }
}

pub open spec fn all_unknown(langs: Seq<Language>) -> bool {
    forall|i: int| 0 <= i < langs.len() ==> #[trigger] langs[i] == Language::Unknown
}

/// The established language of a series: by the files on disk, or by what
/// was watched when no file on disk tells.
pub open spec fn dominant_language(owned: Seq<Language>, watched: Seq<Language>) -> Language {
    if all_unknown(owned) {
        majority_language(watched)
    } else {
        majority_language(owned)
    }
}

proof fn lemma_occurrences_bound(langs: Seq<Language>, l: Language)
    ensures
        occurrences(langs, l) <= langs.len(),
    decreases langs.len(),
{
    if langs.len() > 0 {
        lemma_occurrences_bound(langs.drop_last(), l);
    }
}

fn count(langs: &Vec<Language>, l: Language) -> (r: usize)
    ensures
        r == occurrences(langs@, l),
{
    let mut n: usize = 0;
    for i in 0..langs.len()
        invariant
            n == occurrences(langs@.take(i as int), l),
            n <= i,
    {
        assert(langs@.take(i + 1).drop_last() =~= langs@.take(i as int));
        if langs[i] == l {
            n = n + 1;
        }
    }
    assert(langs@.take(langs.len() as int) =~= langs@);
    n
}

fn nothing_known(langs: &Vec<Language>) -> (r: bool)
    ensures
        r == all_unknown(langs@),
{
    for i in 0..langs.len()
        invariant
            forall|j: int| 0 <= j < i ==> #[trigger] langs@[j] == Language::Unknown,
    {
        if langs[i] != Language::Unknown {
            assert(langs@[i as int] != Language::Unknown);
            return false;
        }
    }
    true
}

/// The established language of a series, given the languages of the files on
/// disk and of the releases that were watched.
pub fn dominant_owned_language(owned: &Vec<Language>, watched: &Vec<Language>) -> (r: Language)
    ensures
        r == dominant_language(owned@, watched@),
{
    let langs = if nothing_known(owned) {
        watched
    } else {
        owned
    };
    let fr: usize = count(langs, Language::French);
    let en: usize = count(langs, Language::English);
    let multi: usize = count(langs, Language::Multi);
    if fr > en && fr > multi {
        Language::French
    } else if en >= multi {
        Language::English
    } else {
        Language::Multi
    }
}

/// Language of a torrent on disk: what its name tells, or the usual language
/// of the provider it came from; unknown for a torrent that is not there.
pub fn resolve_owned_language(detected: Option<Language>, provider_default: Option<Language>) -> (r:
    Language)
    ensures
        r == match detected {
            None => Language::Unknown,
            Some(Language::Unknown) => match provider_default {
                Some(l) => l,
                None => Language::Unknown,
            },
            Some(l) => l,
        },
{
    match detected {
        None => Language::Unknown,
        Some(l) => {
            if l != Language::Unknown {
                l
            } else {
                match provider_default {
                    Some(d) => d,
                    None => Language::Unknown,
                }
            }
        },
    }
}

// ---------------------------------------------------------------------------
// Laws
// ---------------------------------------------------------------------------

proof fn lemma_first_fit(tags: Seq<Tag>, want: Option<Language>, sane_only: bool, from: int)
    requires
        0 <= from,
    ensures
        match first_fit(tags, want, sane_only, from) {
            Some(i) => {
                &&& from <= i < tags.len()
                &&& fits(tags[i], want, sane_only)
                &&& forall|j: int| from <= j < i ==> !fits(#[trigger] tags[j], want, sane_only)
            },
            None => forall|j: int|
                from <= j < tags.len() ==> !fits(#[trigger] tags[j], want, sane_only),
        },
    decreases tags.len() - from,
{
    if from < tags.len() && !fits(tags[from], want, sane_only) {
        lemma_first_fit(tags, want, sane_only, from + 1);
    }
}

proof fn lemma_first_in_order(tags: Seq<Tag>, order: Seq<Language>, sane_only: bool, from: int)
    requires
        0 <= from,
    ensures
        match first_in_order(tags, order, sane_only, from) {
            Some(i) => {
                &&& 0 <= i < tags.len()
                &&& fits(tags[i], None, sane_only)
                &&& forall|j: int|
                    0 <= j < i ==> !fits(#[trigger] tags[j], Some(tags[i].0), sane_only)
                &&& exists|k: int|
                    from <= k < order.len() && #[trigger] order[k] == tags[i].0 && forall|m: int,
                        j: int|
                        from <= m < k && 0 <= j < tags.len() ==> !(#[trigger] order[m] == (
                        #[trigger] tags[j]).0 && fits(tags[j], None, sane_only))
            },
            None => forall|k: int, j: int|
                from <= k < order.len() && 0 <= j < tags.len() ==> !(#[trigger] order[k]
                    == (#[trigger] tags[j]).0 && fits(tags[j], None, sane_only)),
        },
    decreases order.len() - from,
{
    if from < order.len() {
        lemma_first_fit(tags, Some(order[from]), sane_only, 0);
        lemma_first_in_order(tags, order, sane_only, from + 1);
        if first_fit(tags, Some(order[from]), sane_only, 0) is None {
            assert forall|j: int| 0 <= j < tags.len() implies !(order[from] == (
            #[trigger] tags[j]).0 && fits(tags[j], None, sane_only)) by {
                assert(!fits(tags[j], Some(order[from]), sane_only));
            }
        } else {
            assert(order[from] == tags[first_fit(tags, Some(order[from]), sane_only, 0)->0].0);
        }
    }
}

/// A selection picks one of the candidates.
pub proof fn selection_is_in_range(tags: Seq<Tag>, sel: LangSel)
    ensures
        selected(tags, sel) matches Some(i) ==> 0 <= i < tags.len(),
{
    lemma_first_fit(tags, None, true, 0);
    lemma_first_fit(tags, None, false, 0);
    match sel {
        LangSel::Any => {},
        LangSel::Exact(l) => {
            lemma_first_fit(tags, Some(l), true, 0);
            lemma_first_fit(tags, Some(l), false, 0);
        },
        LangSel::Prefer(order) => {
            lemma_first_in_order(tags, order@, true, 0);
            lemma_first_in_order(tags, order@, false, 0);
        },
    }
}

/// An exact selection never crosses languages, and fails only where the
/// language is not on offer.
pub proof fn exact_never_crosses_languages(tags: Seq<Tag>, l: Language)
    ensures
        match selected(tags, LangSel::Exact(l)) {
            Some(i) => 0 <= i < tags.len() && tags[i].0 == l,
            None => forall|j: int| 0 <= j < tags.len() ==> (#[trigger] tags[j]).0 != l,
        },
{
    lemma_first_fit(tags, Some(l), true, 0);
    lemma_first_fit(tags, Some(l), false, 0);
    if selected(tags, LangSel::Exact(l)) is None {
        assert forall|j: int| 0 <= j < tags.len() implies (#[trigger] tags[j]).0 != l by {
            assert(!fits(tags[j], Some(l), false));
        }
    }
}

/// Where languages can be traded, something is picked whenever there is
/// anything, and it is sane whenever something sane is there.
pub proof fn tradable_selection_prefers_sane(tags: Seq<Tag>, sel: LangSel)
    requires
        sel !is Exact,
    ensures
        match selected(tags, sel) {
            Some(i) => {
                &&& 0 <= i < tags.len()
                &&& tags[i].1 || forall|j: int| 0 <= j < tags.len() ==> !(#[trigger] tags[j]).1
            },
            None => tags.len() == 0,
        },
{
    lemma_first_fit(tags, None, true, 0);
    lemma_first_fit(tags, None, false, 0);
    if let LangSel::Prefer(order) = sel {
        lemma_first_in_order(tags, order@, true, 0);
        lemma_first_in_order(tags, order@, false, 0);
    }
    if first_fit(tags, None, true, 0) is None {
        assert forall|j: int| 0 <= j < tags.len() implies !(#[trigger] tags[j]).1 by {
            assert(!fits(tags[j], None, true));
        }
    }
    if tags.len() > 0 {
        assert(fits(tags[0], None, false));
    }
}

/// The order of a continuation starts with the established language and
/// holds `Multi`, French and English once each.
pub proof fn continuation_order_is_complete(dominant: Language)
    ensures
        continuation_order(dominant)[0] == dominant,
        continuation_order(dominant).contains(Language::Multi),
        continuation_order(dominant).contains(Language::French),
        continuation_order(dominant).contains(Language::English),
        continuation_order(dominant).no_duplicates(),
{
    let o = continuation_order(dominant);
    assert(o[0] == Language::Multi || o[1] == Language::Multi);
    assert(o[0] == Language::French || o[1] == Language::French || o[2] == Language::French);
    assert(o[0] == Language::English || o[2] == Language::English || o[3] == Language::English);
}

/// Without a preference the pick is the best that is sane, and where nothing is
/// sane the best of all; something is picked whenever there is anything.
pub proof fn any_takes_the_best_sane(tags: &Vec<Tag>, r: Option<usize>)
    requires
        call_ensures(select_index, (tags, &LangSel::Any), r),
    ensures
        match r {
            Some(i) => {
                &&& i < tags@.len()
                &&& tags@[i as int].1 ==> forall|j: int| 0 <= j < i ==> !(#[trigger] tags@[j]).1
                &&& !tags@[i as int].1 ==> i == 0 && forall|j: int|
                    0 <= j < tags@.len() ==> !(#[trigger] tags@[j]).1
            },
            None => tags@.len() == 0,
        },
{
    lemma_first_fit(tags@, None, true, 0);
    lemma_first_fit(tags@, None, false, 0);
    assert forall|j: int|
        0 <= j < tags@.len() && fits(#[trigger] tags@[j], None, true) == false implies !tags@[j].1 by {}
    if tags@.len() > 0 {
        assert(fits(tags@[0], None, false));
    }
}

/// An exact selection picks the best that is sane in its language, and where
/// nothing in it is sane the best in it; it fails only where the language is
/// not on offer.
pub proof fn exact_takes_the_best_of_its_language(tags: &Vec<Tag>, l: Language, r: Option<usize>)
    requires
        call_ensures(select_index, (tags, &LangSel::Exact(l)), r),
    ensures
        match r {
            Some(i) => {
                &&& i < tags@.len()
                &&& tags@[i as int].0 == l
                &&& forall|j: int|
                    0 <= j < i && (#[trigger] tags@[j]).0 == l ==> tags@[i as int].1
                        && !tags@[j].1
                &&& forall|j: int|
                    0 <= j < tags@.len() && (#[trigger] tags@[j]).0 == l && tags@[j].1
                        ==> tags@[i as int].1
            },
            None => forall|j: int| 0 <= j < tags@.len() ==> (#[trigger] tags@[j]).0 != l,
        },
{
    lemma_first_fit(tags@, Some(l), true, 0);
    lemma_first_fit(tags@, Some(l), false, 0);
    assert forall|j: int| 0 <= j < tags@.len() && (#[trigger] tags@[j]).0 == l implies fits(
        tags@[j],
        Some(l),
        false,
    ) && (tags@[j].1 ==> fits(tags@[j], Some(l), true)) by {}
}

/// A preference goes by sanity first, then by the place of the language in the
/// preferred order, then by merit: no candidate is better than the pick by
/// these. Where something sane is on offer in a preferred language, the pick is
/// sane, in the earliest preferred language that has something sane, and the
/// first such. A candidate in no preferred language is picked only where no
/// other of its sanity is in one. Something is picked whenever there is
/// anything.
pub proof fn preferred_language_is_kept(
    tags: &Vec<Tag>,
    order: Vec<Language>,
    r: Option<usize>,
)
    requires
        call_ensures(select_index, (tags, &LangSel::Prefer(order)), r),
    ensures
        match r {
            Some(i) => {
                &&& i < tags@.len()
                &&& tags@[i as int].1 || forall|j: int|
                    0 <= j < tags@.len() ==> !(#[trigger] tags@[j]).1
                &&& order@.contains(tags@[i as int].0) ==> {
                    &&& exists|k: int|
                        0 <= k < order@.len() && #[trigger] order@[k] == tags@[i as int].0
                            && forall|m: int, j: int|
                            0 <= m < k && 0 <= j < tags@.len() && tags@[j].1 == tags@[i as int].1
                                ==> #[trigger] order@[m] != (#[trigger] tags@[j]).0
                    &&& forall|j: int|
                        0 <= j < i && (#[trigger] tags@[j]).1 == tags@[i as int].1
                            ==> tags@[j].0 != tags@[i as int].0
                }
                &&& !order@.contains(tags@[i as int].0) ==> {
                    &&& forall|j: int|
                        0 <= j < tags@.len() && (#[trigger] tags@[j]).1 == tags@[i as int].1
                            ==> !order@.contains(tags@[j].0)
                    &&& forall|j: int|
                        0 <= j < i ==> (#[trigger] tags@[j]).1 != tags@[i as int].1
                }
            },
            None => tags@.len() == 0,
        },
{
    let t = tags@;
    let o = order@;
    lemma_first_fit(t, None, true, 0);
    lemma_first_fit(t, None, false, 0);
    lemma_first_in_order(t, o, true, 0);
    lemma_first_in_order(t, o, false, 0);
    assert forall|j: int| 0 <= j < t.len() implies fits(#[trigger] t[j], None, false) && (fits(
        t[j],
        None,
        true,
    ) == t[j].1) && forall|l: Language|
        #![trigger fits(t[j], Some(l), true)]
        #![trigger fits(t[j], Some(l), false)]
        fits(t[j], Some(l), true) == (t[j].0 == l && t[j].1) && fits(t[j], Some(l), false) == (
        t[j].0 == l) by {}
    if t.len() > 0 {
        assert(fits(t[0], None, false));
    }
    if let Some(x) = r {
        let i = x as int;
        if first_in_order(t, o, true, 0) is None && first_fit(t, None, true, 0) is Some {
            assert(!o.contains(t[i].0)) by {
                if o.contains(t[i].0) {
                    let k = choose|k: int| 0 <= k < o.len() && o[k] == t[i].0;
                    assert(!(o[k] == t[i].0 && fits(t[i], None, true)));
                }
            }
            assert forall|j: int| 0 <= j < t.len() && (#[trigger] t[j]).1 implies !o.contains(
                t[j].0,
            ) by {
                if o.contains(t[j].0) {
                    let k = choose|k: int| 0 <= k < o.len() && o[k] == t[j].0;
                    assert(!(o[k] == t[j].0 && fits(t[j], None, true)));
                }
            }
        }
        if first_fit(t, None, true, 0) is None && first_in_order(t, o, false, 0) is None {
            assert forall|j: int| 0 <= j < t.len() implies !o.contains((#[trigger] t[j]).0) by {
                if o.contains(t[j].0) {
                    let k = choose|k: int| 0 <= k < o.len() && o[k] == t[j].0;
                    assert(!(o[k] == t[j].0 && fits(t[j], None, false)));
                }
            }
        }
    }
}

/// An automatic continuation goes on in the established language: where a sane
/// offer in it is there, the first such is picked.
pub proof fn continuation_keeps_the_language(
    tags: &Vec<Tag>,
    dominant: Language,
    sel: LangSel,
    r: Option<usize>,
    j: int,
)
    requires
        call_ensures(continuation_pref, (dominant,), sel),
        call_ensures(select_index, (tags, &sel), r),
        0 <= j < tags@.len(),
        tags@[j] == (dominant, true),
    ensures
        r matches Some(i) && i <= j && tags@[i as int] == (dominant, true),
{
    let o = sel->Prefer_0;
    continuation_order_is_complete(dominant);
    preferred_language_is_kept(tags, o, r);
    let i = r->0 as int;
    assert(o@[0] == dominant);
    assert(o@.contains(dominant));
    let k = choose|k: int|
        0 <= k < o@.len() && #[trigger] o@[k] == tags@[i].0 && forall|m: int, n: int|
            0 <= m < k && 0 <= n < tags@.len() && tags@[n].1 == tags@[i].1 ==> #[trigger] o@[m]
                != (#[trigger] tags@[n]).0;
    if k > 0 {
        assert(o@[0] != tags@[j].0);
    }
}

/// A continuation asks for the established language, then for several at once,
/// then French before English; for each of these once, and for nothing else.
pub proof fn continuation_asks_in_order(dominant: Language, sel: LangSel)
    requires
        call_ensures(continuation_pref, (dominant,), sel),
    ensures
        sel matches LangSel::Prefer(o) && {
            &&& o@.len() > 0 && o@[0] == dominant
            &&& o@.no_duplicates()
            &&& forall|l: Language|
                #[trigger] o@.contains(l) <==> l == dominant || l != Language::Unknown
            &&& forall|i: int, k: int|
                0 < i < k < o@.len() ==> #[trigger] o@[k] != Language::Multi && !(#[trigger] o@[i]
                    == Language::English && o@[k] == Language::French)
        },
{
    continuation_order_is_complete(dominant);
    let o = sel->Prefer_0@;
    assert(o.contains(o[0]));
}

/// Picking from tagged values is picking from their tags.
pub proof fn pick_is_of_the_chosen_tag<T: Clone>(
    items: &Vec<(Language, bool, T)>,
    tags: &Vec<Tag>,
    sel: &LangSel,
    i: Option<usize>,
    r: Option<T>,
)
    requires
        tags@.len() == items@.len(),
        forall|k: int|
            0 <= k < items@.len() ==> (#[trigger] tags@[k]).0 == items@[k].0 && tags@[k].1
                == items@[k].1,
        call_ensures(select_index, (tags, sel), i),
        call_ensures(select_by_lang::<T>, (items, sel), r),
    ensures
        match r {
            Some(t) => i is Some && cloned(items@[i->0 as int].2, t),
            None => i is None,
        },
{
    assert(tags@ =~= tags_of(items@));
}

proof fn lemma_occurrences_count(langs: Seq<Language>, l: Language)
    ensures
        occurrences(langs, l) == langs.to_multiset().count(l),
    decreases langs.len(),
{
    broadcast use vstd::seq_lib::group_to_multiset_ensures;

    if langs.len() > 0 {
        let t = langs.drop_last();
        lemma_occurrences_count(t, l);
        assert(langs =~= t.push(langs.last()));
    } else {
        assert(langs =~= Seq::empty());
    }
}

/// What is watched does not matter once a file on disk tells its language, and
/// what is on disk does not where none does. Of those that count, a series is
/// French where more are French than English and more than are in several
/// languages, in several languages where more are than English, and otherwise
/// English.
pub proof fn dominant_language_is_the_commonest(
    owned: &Vec<Language>,
    watched: &Vec<Language>,
    r: Language,
)
    requires
        call_ensures(dominant_owned_language, (owned, watched), r),
    ensures
        ({
            let langs = if exists|i: int|
                0 <= i < owned@.len() && #[trigger] owned@[i] != Language::Unknown {
                owned@.to_multiset()
            } else {
                watched@.to_multiset()
            };
            let fr = langs.count(Language::French);
            let en = langs.count(Language::English);
            let multi = langs.count(Language::Multi);
            match r {
                Language::French => fr > en && fr > multi,
                Language::English => en >= multi && (fr <= en || fr <= multi),
                Language::Multi => multi > en && multi >= fr,
                Language::Unknown => false,
            }
        }),
{
    let langs = if all_unknown(owned@) {
        watched@
    } else {
        owned@
    };
    lemma_occurrences_count(langs, Language::French);
    lemma_occurrences_count(langs, Language::English);
    lemma_occurrences_count(langs, Language::Multi);
}

/// What the name of a torrent tells of its language is kept; the provider's
/// usual language fills in where it tells nothing, and only there.
pub proof fn told_language_is_kept(l: Language, default: Option<Language>, r: Language)
    requires
        call_ensures(resolve_owned_language, (Some(l), default), r),
    ensures
        l != Language::Unknown ==> r == l,
        l == Language::Unknown && default is Some ==> r == default->0,
        r == l || default == Some(r),
{
}

/// A chosen badge is never answered in another language; without one, anything
/// on offer will do.
pub proof fn badge_is_kept(
    tags: &Vec<Tag>,
    badge: Option<Language>,
    sel: LangSel,
    r: Option<usize>,
)
    requires
        call_ensures(LangSel::from_badge, (badge,), sel),
        call_ensures(select_index, (tags, &sel), r),
    ensures
        r matches Some(i) ==> i < tags@.len() && (badge matches Some(l) ==> tags@[i as int].0 == l),
        r is None ==> match badge {
            Some(l) => forall|j: int| 0 <= j < tags@.len() ==> (#[trigger] tags@[j]).0 != l,
            None => tags@.len() == 0,
        },
{
    match badge {
        Some(l) => exact_takes_the_best_of_its_language(tags, l, r),
        None => any_takes_the_best_sane(tags, r),
    }
}

/// Where every candidate is sane, merit decides within a language, and the
/// selection between languages.
pub proof fn selection_of_sane(tags: Seq<Tag>, sel: LangSel)
    requires
        forall|j: int| 0 <= j < tags.len() ==> (#[trigger] tags[j]).1,
    ensures
        match selected(tags, sel) {
            Some(i) => {
                &&& 0 <= i < tags.len()
                &&& match sel {
                    LangSel::Any => i == 0,
                    LangSel::Exact(l) => tags[i].0 == l && forall|j: int|
                        0 <= j < i ==> (#[trigger] tags[j]).0 != l,
                    LangSel::Prefer(order) => {
                        &&& order@.contains(tags[i].0) ==> (forall|j: int|
                            0 <= j < i ==> (#[trigger] tags[j]).0 != tags[i].0) && exists|k: int|
                            0 <= k < order@.len() && #[trigger] order@[k] == tags[i].0 && forall|
                                m: int,
                                j: int,
                            |
                                0 <= m < k && 0 <= j < tags.len() ==> #[trigger] order@[m] != (
                                #[trigger] tags[j]).0
                        &&& !order@.contains(tags[i].0) ==> i == 0 && forall|j: int|
                            0 <= j < tags.len() ==> !order@.contains((#[trigger] tags[j]).0)
                    },
                }
            },
            None => match sel {
                LangSel::Exact(l) => forall|j: int|
                    0 <= j < tags.len() ==> (#[trigger] tags[j]).0 != l,
                _ => tags.len() == 0,
            },
        },
{
    lemma_first_fit(tags, None, true, 0);
    assert forall|j: int| 0 <= j < tags.len() implies fits(#[trigger] tags[j], None, true) && forall|
        l: Language,
    |
        #![trigger fits(tags[j], Some(l), true)]
        #![trigger fits(tags[j], Some(l), false)]
        fits(tags[j], Some(l), true) == (tags[j].0 == l) && fits(tags[j], Some(l), false) == (
        tags[j].0 == l) by {}
    if tags.len() > 0 {
        assert(fits(tags[0], None, true));
    }
    lemma_first_fit(tags, None, false, 0);
    match sel {
        LangSel::Any => {},
        LangSel::Exact(l) => {
            lemma_first_fit(tags, Some(l), true, 0);
            lemma_first_fit(tags, Some(l), false, 0);
        },
        LangSel::Prefer(order) => {
            lemma_first_in_order(tags, order@, true, 0);
            lemma_first_in_order(tags, order@, false, 0);
            if first_in_order(tags, order@, true, 0) is None {
                assert forall|j: int| 0 <= j < tags.len() implies !order@.contains(
                    (#[trigger] tags[j]).0,
                ) by {
                    if order@.contains(tags[j].0) {
                        let k = choose|k: int| 0 <= k < order@.len() && order@[k] == tags[j].0;
                        assert(!(order@[k] == tags[j].0 && fits(tags[j], None, true)));
                    }
                }
            }
        },
    }
}

/// Whether a candidate would do at all.
pub open spec fn eligible(tag: Tag, sel: LangSel) -> bool {
    sel matches LangSel::Exact(l) ==> tag.0 == l
}

/// The place of a language in an order; behind all of it where it is not there.
pub open spec fn place(order: Seq<Language>, l: Language) -> int {
    match order.index_of_first(l) {
        Some(i) => i,
        None => order.len() as int,
    }
}

/// Whether a candidate is to be taken before another whatever their merits: it
/// is sane and the other is not, or as sane and in a language that comes
/// earlier in the preferred order.
pub open spec fn preferred_over(a: Tag, b: Tag, sel: LangSel) -> bool {
    ||| a.1 && !b.1
    ||| a.1 == b.1 && (sel matches LangSel::Prefer(order) && place(order@, a.0) < place(
        order@,
        b.0,
    ))
}

proof fn lemma_place(order: Seq<Language>, l: Language)
    ensures
        0 <= place(order, l) <= order.len(),
        place(order, l) < order.len() ==> order[place(order, l)] == l,
        place(order, l) < order.len() <==> order.contains(l),
        forall|m: int| 0 <= m < place(order, l) ==> #[trigger] order[m] != l,
{
    order.index_of_first_ensures(l);
}

/// No candidate that would do is to be taken before the pick, and the pick is
/// to be taken before all that stand ahead of it; it fails only where none
/// would do.
pub proof fn nothing_is_preferred_over_the_pick(tags: Seq<Tag>, sel: LangSel)
    ensures
        match selected(tags, sel) {
            Some(i) => {
                &&& 0 <= i < tags.len()
                &&& eligible(tags[i], sel)
                &&& forall|j: int|
                    0 <= j < tags.len() && eligible(#[trigger] tags[j], sel) ==> !preferred_over(
                        tags[j],
                        tags[i],
                        sel,
                    )
                &&& forall|j: int|
                    0 <= j < i && eligible(#[trigger] tags[j], sel) ==> preferred_over(
                        tags[i],
                        tags[j],
                        sel,
                    )
            },
            None => forall|j: int| 0 <= j < tags.len() ==> !eligible(#[trigger] tags[j], sel),
        },
{
    lemma_first_fit(tags, None, true, 0);
    lemma_first_fit(tags, None, false, 0);
    assert forall|j: int| 0 <= j < tags.len() implies fits(#[trigger] tags[j], None, false) && (
    fits(tags[j], None, true) == tags[j].1) && forall|l: Language|
        #![trigger fits(tags[j], Some(l), true)]
        #![trigger fits(tags[j], Some(l), false)]
        fits(tags[j], Some(l), true) == (tags[j].0 == l && tags[j].1) && fits(
            tags[j],
            Some(l),
            false,
        ) == (tags[j].0 == l) by {}
    if tags.len() > 0 {
        assert(fits(tags[0], None, false));
    }
    match sel {
        LangSel::Any => {},
        LangSel::Exact(l) => {
            lemma_first_fit(tags, Some(l), true, 0);
            lemma_first_fit(tags, Some(l), false, 0);
        },
        LangSel::Prefer(order) => {
            let o = order@;
            lemma_first_in_order(tags, o, true, 0);
            lemma_first_in_order(tags, o, false, 0);
            assert forall|j: int| 0 <= j < tags.len() implies 0 <= place(
                o,
                (#[trigger] tags[j]).0,
            ) <= o.len() && (place(o, tags[j].0) < o.len() ==> o[place(o, tags[j].0)]
                == tags[j].0) && forall|m: int|
                0 <= m < place(o, tags[j].0) ==> #[trigger] o[m] != tags[j].0 by {
                lemma_place(o, tags[j].0);
            }
            if let Some(i) = selected(tags, sel) {
                if first_in_order(tags, o, true, 0) is Some || (first_fit(tags, None, true, 0)
                    is None && first_in_order(tags, o, false, 0) is Some) {
                    let sane = first_in_order(tags, o, true, 0) is Some;
                    let k = choose|k: int|
                        0 <= k < o.len() && #[trigger] o[k] == tags[i].0 && forall|m: int, j: int|
                            0 <= m < k && 0 <= j < tags.len() ==> !(#[trigger] o[m] == (
                            #[trigger] tags[j]).0 && fits(tags[j], None, sane));
                    let p = place(o, tags[i].0);
                    if p < k {
                        assert(!(o[p] == tags[i].0 && fits(tags[i], None, sane)));
                    }
                    assert(p == k);
                    assert forall|j: int|
                        0 <= j < tags.len() && fits(#[trigger] tags[j], None, sane) implies place(
                        o,
                        tags[j].0,
                    ) >= k by {
                        let q = place(o, tags[j].0);
                        if q < k {
                            assert(!(o[q] == tags[j].0 && fits(tags[j], None, sane)));
                        }
                    }
                    assert forall|j: int|
                        0 <= j < i && fits(#[trigger] tags[j], None, sane) implies place(
                        o,
                        tags[j].0,
                    ) > k by {
                        let q = place(o, tags[j].0);
                        if q == k {
                            assert(tags[j].0 == tags[i].0);
                            assert(!fits(tags[j], Some(tags[i].0), sane));
                        }
                    }
                } else {
                    let sane = first_fit(tags, None, true, 0) is Some;
                    assert forall|j: int|
                        0 <= j < tags.len() && fits(#[trigger] tags[j], None, sane) implies place(
                        o,
                        tags[j].0,
                    ) == o.len() by {
                        let q = place(o, tags[j].0);
                        if q < o.len() {
                            assert(!(o[q] == tags[j].0 && fits(tags[j], None, sane)));
                        }
                    }
                }
            }
        },
    }
}

} // verus!
