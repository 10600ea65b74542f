use iris::api_error::ApiError;
use iris::preferences::{
    chosen_genres, genres, languages, norm, put_preferences, put_prefs, PlaybackPreferences,
    UpdatePreferencesRequest,
};
use iris::tmdb::Genre;

fn request(langs: &[&str], genres: &[i64]) -> UpdatePreferencesRequest {
    UpdatePreferencesRequest {
        languages: langs.iter().map(|s| s.to_string()).collect(),
        genres: genres.to_vec(),
        include_anime: true,
        onboarding_completed: false,
    }
}

#[test]
fn languages_are_normalised_and_distinct() {
    let p = put_preferences(&request(&[" French", "ENGLISH", "french"], &[])).unwrap();
    assert_eq!(p.languages, ["french", "english"]);
    assert!(p.include_anime && !p.onboarding_completed);
}

#[test]
fn unknown_language_is_refused_as_it_was_written() {
    match put_preferences(&request(&["french", " Klingon "], &[])) {
        Err(ApiError::BadRequest(m)) => assert_eq!(m, "unknown language:  Klingon "),
        other => panic!("unexpected {other:?}"),
    }
}

#[test]
fn every_offered_language_is_accepted() {
    for l in languages() {
        assert!(put_preferences(&request(&[l.value.as_str()], &[])).is_ok());
        assert_eq!(l.value, l.label.to_lowercase());
    }
}

#[test]
fn genres_are_positive_and_distinct() {
    assert_eq!(chosen_genres(&vec![3, -1, 0, 3, 2, 2]), [3, 2]);
    let p = put_preferences(&request(&[], &[5, 5])).unwrap();
    assert_eq!(p.genres, [5]);
}

fn genre(id: u32, name: &str) -> Genre {
    Genre { id, name: name.to_string() }
}

#[test]
fn genres_are_merged_by_number_and_sorted_by_name() {
    let movies = vec![genre(2, "War"), genre(1, "Action")];
    let shows = vec![genre(2, "War & Politics"), genre(3, "Kids")];
    let all: Vec<(i64, String)> =
        genres(&movies, &shows).into_iter().map(|g| (g.id, g.name)).collect();
    assert_eq!(
        all,
        [(1, "Action".to_string()), (3, "Kids".to_string()), (2, "War".to_string())],
    );
    assert!(genres(&Vec::new(), &Vec::new()).is_empty());
}

#[test]
fn playback_languages_are_normalised() {
    assert_eq!(norm(&Some(" FR-ca ".to_string())).as_deref(), Some("fr-ca"));
    assert_eq!(norm(&Some("ÉÑ".to_string())).as_deref(), Some("éñ"));
    assert_eq!(norm(&Some("  ".to_string())), None);
    assert_eq!(norm(&None), None);
    let p = put_prefs(&PlaybackPreferences {
        audio_language: Some("EN".to_string()),
        subtitle_language: Some("Off".to_string()),
    });
    assert_eq!(p.audio_language.as_deref(), Some("en"));
    assert_eq!(p.subtitle_language.as_deref(), Some("off"));
}
