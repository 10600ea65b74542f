//! The recommended order of release candidates.
//!
//! Smallest first, with seeders as a safeguard: a release has to look alive
//! (at least [`SEED_FLOOR`] seeders, or an unknown number) and sane (at least
//! [`MIN_SANE_BYTES`]) before it can win on size. Among equals, more seeders
//! win. A multi-language release counts as one and a half times smaller than
//! it is, so it edges out a single-language release of its own size while a
//! markedly lighter one stays ahead.

use std::cmp::Ordering;

use vstd::prelude::*;

verus! {

/// Fewest seeders of a release that counts as alive.
pub const SEED_FLOOR: i64 = 3;

/// Smallest size that is not taken for a sample: 50 MiB.
pub const MIN_SANE_BYTES: i64 = 52_428_800;

/// A multi-language release counts as `MULTI_SIZE_DISCOUNT_NUM /
/// MULTI_SIZE_DISCOUNT_DEN` times smaller than it is.
pub const MULTI_SIZE_DISCOUNT_NUM: i128 = 3;

pub const MULTI_SIZE_DISCOUNT_DEN: i128 = 2;

/// What the recommended order needs to know of a release.
#[derive(Debug, Clone, Copy, PartialEq, Eq, Structural)]
pub struct Candidate {
    pub seeders: Option<i64>,
    pub size_bytes: Option<i64>,
    /// The release is tagged as multi-audio.
    pub is_multi: bool,
}

/// At least [`SEED_FLOOR`] seeders, or an unknown number.
pub open spec fn is_alive(c: Candidate) -> bool {
    c.seeders matches Some(s) ==> s >= SEED_FLOOR
}

/// At least [`MIN_SANE_BYTES`], or an unknown size.
pub open spec fn is_big_enough(c: Candidate) -> bool {
    c.size_bytes matches Some(b) ==> b >= MIN_SANE_BYTES
}

pub open spec fn is_sane(c: Candidate) -> bool {
    is_alive(c) && is_big_enough(c)
}

/// Three times the effective size in bytes; `None` for an unknown size, which
/// is larger than any other.
pub open spec fn effective_size(c: Candidate) -> Option<int> {
    match c.size_bytes {
        None => None,
        Some(b) => {
            let bytes: int = if b < 0 {
                0
            } else {
                b as int
            };
            Some(
                if c.is_multi {
                    bytes * MULTI_SIZE_DISCOUNT_DEN
                } else {
                    bytes * MULTI_SIZE_DISCOUNT_NUM
                },
            )
        },
    }
}

pub open spec fn smaller(a: Option<int>, b: Option<int>) -> bool {
    match (a, b) {
        (Some(x), Some(y)) => x < y,
        (Some(_), None) => true,
        (None, _) => false,
    }
}

/// Seeders, none when unknown.
pub open spec fn counted_seeders(c: Candidate) -> i64 {
    match c.seeders {
        Some(s) => s,
        None => 0,
    }
}

/// `a` is recommended over `b`.
pub open spec fn recommended(a: Candidate, b: Candidate) -> bool {
    if is_sane(a) != is_sane(b) {
        is_sane(a)
    } else if effective_size(a) != effective_size(b) {
        smaller(effective_size(a), effective_size(b))
    } else {
        counted_seeders(a) > counted_seeders(b)
    }
}

impl Candidate {
    /// Looks alive.
    pub fn alive(self) -> (r: bool)
        ensures
            r == is_alive(self),
    {
        match self.seeders {
            Some(s) => s >= SEED_FLOOR,
            None => true,
        }
    }

    /// Not the size of a sample.
    pub fn big_enough(self) -> (r: bool)
        ensures
            r == is_big_enough(self),
    {
        match self.size_bytes {
            Some(b) => b >= MIN_SANE_BYTES,
            None => true,
        }
    }

    /// Alive and not the size of a sample.
    pub fn sane(self) -> (r: bool)
        ensures
            r == is_sane(self),
    {
        self.alive() && self.big_enough()
    }

    fn eff_size(self) -> (r: Option<i128>)
        ensures
            match r {
                Some(n) => effective_size(self) == Some(n as int),
                None => effective_size(self) is None,
            },
    {
        match self.size_bytes {
            None => None,
            Some(b) => {
                let bytes: i128 = if b < 0 {
                    0
                } else {
                    b as i128
                };
                Some(
                    if self.is_multi {
                        bytes * MULTI_SIZE_DISCOUNT_DEN
                    } else {
                        bytes * MULTI_SIZE_DISCOUNT_NUM
                    },
                )
            },
        }
    }

    fn seeder_count(self) -> (r: i64)
        ensures
            r == counted_seeders(self),
    {
        match self.seeders {
            Some(s) => s,
            None => 0,
        }
    }

    /// Whether this candidate is recommended over `other`.
    pub fn beats(self, other: Candidate) -> (r: bool)
        ensures
            r == recommended(self, other),
    {
        if self.sane() != other.sane() {
            return self.sane();
        }
        match (self.eff_size(), other.eff_size()) {
            (Some(x), Some(y)) => {
                if x != y {
                    return x < y;
                }
            },
            (Some(_), None) => {
                return true;
            },
            (None, Some(_)) => {
                return false;
            },
            (None, None) => {},
        }
        self.seeder_count() > other.seeder_count()
    }
}

/// Compares by the recommended order: the better candidate is the lesser.
pub fn recommended_cmp(a: &Candidate, b: &Candidate) -> (r: Ordering)
    ensures
        r == Ordering::Less <==> recommended(*a, *b),
        r == Ordering::Greater <==> recommended(*b, *a),
{
    if a.beats(*b) {
        Ordering::Less
    } else if b.beats(*a) {
        Ordering::Greater
    } else {
        Ordering::Equal
    }
}

/// The recommended order is a strict weak order: sorting by it is well
/// defined whatever the candidates are.
pub proof fn recommended_is_strict_weak_order(a: Candidate, b: Candidate, c: Candidate)
    ensures
        !recommended(a, a),
        recommended(a, b) ==> !recommended(b, a),
        recommended(a, b) && recommended(b, c) ==> recommended(a, c),
        !recommended(a, b) && !recommended(b, c) ==> !recommended(a, c),
{
}

/// A sane candidate is recommended over every other one, whatever the sizes.
pub proof fn sane_beats_dodgy(a: Candidate, b: Candidate)
    requires
        is_sane(a),
        !is_sane(b),
    ensures
        recommended(a, b),
{
}

/// Between two sane candidates of known size, both with several languages or
/// both with one, the smaller one is recommended, whatever the seeders.
pub proof fn smaller_sane_wins(a: Candidate, b: Candidate)
    requires
        is_sane(a),
        is_sane(b),
        a.is_multi == b.is_multi,
        a.size_bytes is Some,
        b.size_bytes is Some,
        a.size_bytes->0 < b.size_bytes->0,
    ensures
        recommended(a, b),
{
}

/// Between equally sane candidates, a known size is recommended over an
/// unknown one.
pub proof fn unknown_size_loses(a: Candidate, b: Candidate)
    requires
        is_sane(a) == is_sane(b),
        a.size_bytes is Some,
        b.size_bytes is None,
    ensures
        recommended(a, b),
{
}

/// A multi-language candidate is recommended over a single-language one of
/// the same size and sanity.
pub proof fn multi_wins_at_equal_size(a: Candidate, b: Candidate)
    requires
        is_sane(a) == is_sane(b),
        a.is_multi,
        !b.is_multi,
        a.size_bytes is Some,
        a.size_bytes == b.size_bytes,
        a.size_bytes->0 > 0,
    ensures
        recommended(a, b),
{
}

/// At equal effective size and sanity, more seeders win.
pub proof fn more_seeders_break_ties(a: Candidate, b: Candidate)
    requires
        is_sane(a) == is_sane(b),
        effective_size(a) == effective_size(b),
        counted_seeders(a) > counted_seeders(b),
    ensures
        recommended(a, b),
{
}

// ---------------------------------------------------------------------------
// Laws
// ---------------------------------------------------------------------------

/// A release is alive with three seeders or more or where their number is
/// unknown, and no sample from 50 MiB on or where its size is unknown; it is
/// sane where both hold.
pub proof fn three_seeders_and_fifty_megabytes(c: Candidate, alive: bool, big: bool, sane: bool)
    requires
        call_ensures(Candidate::alive, (c,), alive),
        call_ensures(Candidate::big_enough, (c,), big),
        call_ensures(Candidate::sane, (c,), sane),
    ensures
        c.seeders is None ==> alive,
        c.seeders is Some ==> alive == (c.seeders->0 > 2),
        c.size_bytes is None ==> big,
        c.size_bytes is Some ==> big == (c.size_bytes->0 >= 50 * 1024 * 1024),
        sane == (alive && big),
{
}

/// Sane releases come first. Among releases of the same sanity the smaller comes
/// first, where one in several languages counts for two thirds of its size and
/// one of unknown size for more than any other; among those of one size the one
/// with more seeders does, where an unknown number counts for none.
pub proof fn order_is_by_sanity_size_and_seeders(
    a: Candidate,
    b: Candidate,
    sane_a: bool,
    sane_b: bool,
    r: bool,
)
    requires
        call_ensures(Candidate::sane, (a,), sane_a),
        call_ensures(Candidate::sane, (b,), sane_b),
        call_ensures(Candidate::beats, (a, b), r),
    ensures
        sane_a && !sane_b ==> r,
        !sane_a && sane_b ==> !r,
        sane_a == sane_b && a.size_bytes is Some && b.size_bytes is None ==> r,
        sane_a == sane_b && a.size_bytes is None && b.size_bytes is Some ==> !r,
        sane_a == sane_b && a.size_bytes is Some && b.size_bytes is Some && a.size_bytes->0 >= 0
            && b.size_bytes->0 >= 0 && a.is_multi == b.is_multi ==> (a.size_bytes->0
            < b.size_bytes->0 ==> r) && (a.size_bytes->0 > b.size_bytes->0 ==> !r),
        sane_a == sane_b && a.size_bytes is Some && b.size_bytes is Some && a.size_bytes->0 >= 0
            && b.size_bytes->0 >= 0 && a.is_multi && !b.is_multi ==> (2 * a.size_bytes->0 < 3
            * b.size_bytes->0 ==> r) && (2 * a.size_bytes->0 > 3 * b.size_bytes->0 ==> !r),
        sane_a == sane_b && a.size_bytes == b.size_bytes && a.is_multi == b.is_multi && a.seeders
            is Some && b.seeders is Some ==> r == (a.seeders->0 > b.seeders->0),
        sane_a == sane_b && a.size_bytes == b.size_bytes && a.is_multi == b.is_multi && a.seeders
            is Some && b.seeders is None ==> r == (a.seeders->0 > 0),
        sane_a == sane_b && a.size_bytes is None && b.size_bytes is None && a.seeders is Some
            && b.seeders is Some ==> r == (a.seeders->0 > b.seeders->0),
{
}

/// Comparing puts first what is recommended.
pub proof fn recommended_is_the_lesser(
    a: Candidate,
    b: Candidate,
    ab: bool,
    ba: bool,
    r: Ordering,
)
    requires
        call_ensures(Candidate::beats, (a, b), ab),
        call_ensures(Candidate::beats, (b, a), ba),
        call_ensures(recommended_cmp, (&a, &b), r),
    ensures
        r is Less == ab,
        r is Greater == ba,
        r is Equal == (!ab && !ba),
{
}

} // verus!
