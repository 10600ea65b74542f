use std::cmp::Ordering;

use iris::ranking::{recommended_cmp, Candidate};

const GIB: i64 = 1_073_741_824;

fn c(seeders: i64, size_gib: i64, is_multi: bool) -> Candidate {
    Candidate {
        seeders: Some(seeders),
        size_bytes: Some(size_gib * GIB),
        is_multi,
    }
}

/// Returns the candidate that should be offered first.
fn best(a: Candidate, b: Candidate) -> Candidate {
    if recommended_cmp(&a, &b) == Ordering::Less {
        a
    } else {
        b
    }
}

#[test]
fn smaller_alive_beats_bigger_with_more_seeders() {
    // 6 GB / 50 seeders must beat 8 GB / 200 and 51 GB / 500.
    let light = c(50, 6, false);
    let mid = c(200, 8, false);
    let monster = c(500, 51, false);
    assert_eq!(best(light, mid).size_bytes, light.size_bytes);
    assert_eq!(best(light, monster).size_bytes, light.size_bytes);
    assert_eq!(best(mid, monster).size_bytes, mid.size_bytes);
}

#[test]
fn near_dead_loses_despite_being_smaller() {
    // 6 GB but only 1 seeder (below floor) loses to a healthy 8 GB.
    let near_dead = c(1, 6, false);
    let healthy = c(200, 8, false);
    assert_eq!(best(near_dead, healthy).seeders, healthy.seeders);
}

#[test]
fn junk_sized_loses_despite_being_smallest() {
    let junk = Candidate {
        seeders: Some(500),
        size_bytes: Some(10 * 1024 * 1024), // 10 MB < floor
        is_multi: false,
    };
    let real = c(50, 6, false);
    assert_eq!(best(junk, real).size_bytes, real.size_bytes);
}

#[test]
fn multi_edges_same_size_single_language() {
    let multi = c(50, 8, true);
    let single = c(50, 8, false);
    // 8 GB MULTi ranks as ~5.3 GB → beats 8 GB single-language.
    assert!(best(multi, single).is_multi);
}

#[test]
fn much_lighter_single_language_still_beats_multi() {
    let multi = c(50, 12, true); // effective ~8 GB
    let light_single = c(50, 6, false);
    assert!(!best(multi, light_single).is_multi);
}

#[test]
fn more_seeders_breaks_exact_size_tie() {
    let a = c(50, 8, false);
    let b = c(200, 8, false);
    assert_eq!(best(a, b).seeders, b.seeders);
}

#[test]
fn unknown_size_sorts_last() {
    let sized = c(50, 40, false);
    let no_size = Candidate {
        seeders: Some(500),
        size_bytes: None,
        is_multi: false,
    };
    assert_eq!(best(sized, no_size).size_bytes, sized.size_bytes);
}

#[test]
fn multi_of_one_and_a_half_the_size_is_a_tie_on_size() {
    // 9 GiB in several languages count as 6 GiB: seeders decide.
    let multi = c(50, 9, true);
    let single = c(50, 6, false);
    assert_eq!(recommended_cmp(&multi, &single), Ordering::Equal);
    assert_eq!(recommended_cmp(&c(51, 9, true), &single), Ordering::Less);
    assert_eq!(recommended_cmp(&c(49, 9, true), &single), Ordering::Greater);
}

#[test]
fn order_of_candidates_is_antisymmetric() {
    let all = [c(1, 1, false), c(50, 6, false), c(200, 8, true), c(3, 40, false)];
    for a in &all {
        assert_eq!(recommended_cmp(a, a), Ordering::Equal);
        for b in &all {
            assert_eq!(recommended_cmp(a, b), recommended_cmp(b, a).reverse());
        }
    }
}
