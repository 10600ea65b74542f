use iris::language::{continuation_pref, select_by_lang, select_index, LangSel, Language};

#[test]
fn prefer_walk_skips_dodgy_preferred_language() {
    // Near-dead FR (preferred) must lose to a healthy EN.
    let items = vec![
        (Language::French, false, "fr"),
        (Language::English, true, "en"),
    ];
    let sel = LangSel::Prefer(vec![Language::French, Language::English]);
    assert_eq!(select_by_lang(&items, &sel), Some("en"));
}

#[test]
fn prefer_accepts_dodgy_when_nothing_sane_exists() {
    let items = vec![(Language::French, false, "fr")];
    let sel = LangSel::Prefer(vec![Language::English, Language::French]);
    assert_eq!(select_by_lang(&items, &sel), Some("fr"));
}

#[test]
fn exact_never_crosses_language_even_for_sanity() {
    let items = vec![
        (Language::English, true, "en"),
        (Language::French, false, "fr"),
    ];
    assert_eq!(
        select_by_lang(&items, &LangSel::Exact(Language::French)),
        Some("fr"),
    );
    assert_eq!(
        select_by_lang(&items, &LangSel::Exact(Language::Multi)),
        None,
    );
}

#[test]
fn any_prefers_sane_over_first() {
    let items = vec![
        (Language::French, false, "fr"),
        (Language::English, true, "en"),
    ];
    assert_eq!(select_by_lang(&items, &LangSel::Any), Some("en"));
}

#[test]
fn continuation_ladder_falls_back_multi_then_fr_then_en() {
    let ladder = |dominant| {
        let LangSel::Prefer(order) = continuation_pref(dominant) else {
            panic!("continuation_pref must build a Prefer");
        };
        order
    };
    assert_eq!(
        ladder(Language::Multi),
        vec![Language::Multi, Language::French, Language::English],
    );
    assert_eq!(
        ladder(Language::French),
        vec![Language::French, Language::Multi, Language::English],
    );
    assert_eq!(
        ladder(Language::English),
        vec![Language::English, Language::Multi, Language::French],
    );
}

#[test]
fn unknown_language_is_asked_for_first_too() {
    let LangSel::Prefer(order) = continuation_pref(Language::Unknown) else {
        panic!("continuation_pref must build a Prefer");
    };
    assert_eq!(
        order,
        vec![Language::Unknown, Language::Multi, Language::French, Language::English],
    );
}

#[test]
fn preferred_order_gives_way_to_any_sane_offer() {
    let tags = vec![(Language::Unknown, true), (Language::French, false)];
    let sel = LangSel::Prefer(vec![Language::French]);
    assert_eq!(select_index(&tags, &sel), Some(0));
    assert_eq!(select_index(&Vec::new(), &LangSel::Any), None);
}

#[test]
fn badge_selects_exactly_its_language() {
    let tags = vec![(Language::English, true), (Language::French, true)];
    assert_eq!(select_index(&tags, &LangSel::from_badge(Some(Language::French))), Some(1));
    assert_eq!(select_index(&tags, &LangSel::from_badge(None)), Some(0));
}
