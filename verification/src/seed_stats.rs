//! Bookkeeping of uploads, and leaving the swarm.

use vstd::prelude::*;

use crate::text;

verus! {

/// A torrent in the library.
#[derive(Debug)]
pub struct ActiveTorrent {
    pub infohash: String,
    pub source_provider: Option<String>,
}

/// A provider, and whether its torrents are shared after the download.
#[derive(Debug)]
pub struct SeedPolicy {
    pub provider: String,
    pub seeds: bool,
}

/// The policy of a provider, from `from` on.
pub open spec fn policy_of(policies: Seq<SeedPolicy>, provider: Seq<char>, from: int) -> Option<
    bool,
>
    decreases policies.len() - from,
{
    if from < 0 || from >= policies.len() {
        None
    } else if policies[from].provider@ == provider {
        Some(policies[from].seeds)
    } else {
        policy_of(policies, provider, from + 1)
    }
}

/// Whether a torrent comes from a provider whose torrents are shared, or are
/// not.
pub open spec fn has_policy(row: ActiveTorrent, policies: Seq<SeedPolicy>, seeds: bool) -> bool {
    match row.source_provider {
        Some(p) => policy_of(policies, p@, 0) == Some(seeds),
        None => false,
    }
}

/// The torrents with a policy.
pub open spec fn with_policy(
    rows: Seq<ActiveTorrent>,
    policies: Seq<SeedPolicy>,
    seeds: bool,
) -> Seq<Seq<char>>
    decreases rows.len(),
{
    if rows.len() == 0 {
        seq![]
    } else {
        let before = with_policy(rows.drop_last(), policies, seeds);
        if has_policy(rows.last(), policies, seeds) {
            before.push(rows.last().infohash@)
        } else {
            before
        }
    }
}

fn find_policy(policies: &Vec<SeedPolicy>, provider: &str) -> (r: Option<bool>)
    ensures
        r == policy_of(policies@, provider@, 0),
{
    let mut i: usize = 0;
    while i < policies.len()
        invariant
            i <= policies.len(),
            policy_of(policies@, provider@, 0) == policy_of(policies@, provider@, i as int),
        decreases policies.len() - i,
    {
        if text::same_text(policies[i].provider.as_str(), provider) {
            return Some(policies[i].seeds);
        }
        i = i + 1;
    }
    None
}

/// The providers of torrents, each once, in the order in which they occur.
pub open spec fn providers_of(rows: Seq<ActiveTorrent>) -> Seq<Seq<char>>
    decreases rows.len(),
{
    if rows.len() == 0 {
        seq![]
    } else {
        let before = providers_of(rows.drop_last());
        match rows.last().source_provider {
            Some(p) => if before.contains(p@) {
                before
            } else {
                before.push(p@)
            },
            None => before,
        }
    }
}

/// The providers of torrents, each once: those whose policy is looked up.
pub fn distinct_providers(rows: &Vec<ActiveTorrent>) -> (r: Vec<String>)
    ensures
        text::views(r@) == providers_of(rows@),
{
    let mut out: Vec<String> = Vec::new();
    assert(text::views(out@) =~= providers_of(rows@.take(0)));
    for i in 0..rows.len()
        invariant
            text::views(out@) == providers_of(rows@.take(i as int)),
    {
        proof {
            assert(rows@.take(i + 1).drop_last() =~= rows@.take(i as int));
            assert(rows@.take(i + 1).last() == rows@[i as int]);
        }
        match &rows[i].source_provider {
            Some(p) => {
                if !text::holds(&out, p.as_str()) {
                    let ghost before = out@;
                    out.push(p.clone());
                    assert(text::views(out@) =~= text::views(before).push(p@));
                }
            },
            None => {},
        }
    }
    assert(rows@.take(rows@.len() as int) =~= rows@);
    out
}

/// The policy of every provider of a torrent is looked up.
pub proof fn every_provider_is_looked_up(rows: Seq<ActiveTorrent>, i: int)
    requires
        0 <= i < rows.len(),
        rows[i].source_provider is Some,
    ensures
        providers_of(rows).contains(rows[i].source_provider->0@),
    decreases rows.len(),
{
    let before = providers_of(rows.drop_last());
    if i < rows.len() - 1 {
        every_provider_is_looked_up(rows.drop_last(), i);
        let w = rows[i].source_provider->0@;
        let k = choose|k: int| 0 <= k < before.len() && before[k] == w;
        assert(before.contains(w));
        assert(providers_of(rows)[k] == w);
    } else if !before.contains(rows[i].source_provider->0@) {
        assert(providers_of(rows)[before.len() as int] == rows[i].source_provider->0@);
    }
}

fn collect(rows: &Vec<ActiveTorrent>, policies: &Vec<SeedPolicy>, seeds: bool) -> (r: Vec<String>)
    ensures
        text::views(r@) == with_policy(rows@, policies@, seeds),
{
    let mut out: Vec<String> = Vec::new();
    assert(text::views(out@) =~= with_policy(rows@.take(0), policies@, seeds));
    for i in 0..rows.len()
        invariant
            text::views(out@) == with_policy(rows@.take(i as int), policies@, seeds),
    {
        proof {
            assert(rows@.take(i + 1).drop_last() =~= rows@.take(i as int));
            assert(rows@.take(i + 1).last() == rows@[i as int]);
        }
        let fits = match &rows[i].source_provider {
            Some(p) => match find_policy(policies, p.as_str()) {
                Some(s) => s == seeds,
                None => false,
            },
            None => false,
        };
        if fits {
            let ghost before = out@;
            out.push(rows[i].infohash.clone());
            assert(text::views(out@) =~= text::views(before).push(rows@[i as int].infohash@));
        }
    }
    assert(rows@.take(rows@.len() as int) =~= rows@);
    out
}

/// The torrents that are not shared.
pub fn no_seed_infohashes(rows: &Vec<ActiveTorrent>, policies: &Vec<SeedPolicy>) -> (r: Vec<String>)
    ensures
        text::views(r@) == with_policy(rows@, policies@, false),
{
    collect(rows, policies, false)
}

/// The torrents that are shared by policy.
pub fn seed_infohashes(rows: &Vec<ActiveTorrent>, policies: &Vec<SeedPolicy>) -> (r: Vec<String>)
    ensures
        text::views(r@) == with_policy(rows@, policies@, true),
{
    collect(rows, policies, true)
}

/// What the engine says of a torrent.
#[derive(Debug)]
pub struct Snapshot {
    pub infohash: String,
    pub finished: bool,
    pub paused: bool,
}

/// What there is to do for a torrent, besides merging its counters.
#[derive(Debug, Clone, Copy, PartialEq, Eq, Structural)]
pub struct Reconciliation {
    /// Remember that the download is complete.
    pub mark_finished: bool,
    /// Leave the swarm.
    pub pause: bool,
    /// Return to the swarm.
    pub resume: bool,
}

/// What there is to do for a torrent: a finished one is remembered as such,
/// leaves the swarm where it is not shared, and returns to it once it is.
pub open spec fn todo_for(
    finished: bool,
    paused: bool,
    infohash: Seq<char>,
    no_seed: Seq<Seq<char>>,
    seed: Seq<Seq<char>>,
) -> Reconciliation {
    Reconciliation {
        mark_finished: finished,
        pause: finished && !paused && no_seed.contains(infohash),
        resume: finished && paused && seed.contains(infohash) && !no_seed.contains(infohash),
    }
}

/// What there is to do for a torrent, with those that are not shared and those
/// that are.
pub fn reconcile_once(snap: &Snapshot, no_seed: &Vec<String>, seed: &Vec<String>) -> (r:
    Reconciliation)
    ensures
        r == todo_for(
            snap.finished,
            snap.paused,
            snap.infohash@,
            text::views(no_seed@),
            text::views(seed@),
        ),
{
    if !snap.finished {
        return Reconciliation { mark_finished: false, pause: false, resume: false };
    }
    let leaves = text::holds(no_seed, snap.infohash.as_str());
    let stays = text::holds(seed, snap.infohash.as_str());
    Reconciliation {
        mark_finished: true,
        pause: !snap.paused && leaves,
        resume: snap.paused && stays && !leaves,
    }
}

/// A torrent that is listed once is among those with a policy exactly where its
/// provider has it.
proof fn lemma_policy_of_row(
    rows: Seq<ActiveTorrent>,
    policies: Seq<SeedPolicy>,
    seeds: bool,
    i: int,
)
    requires
        0 <= i < rows.len(),
        forall|j: int|
            0 <= j < rows.len() && j != i ==> (#[trigger] rows[j]).infohash@ != rows[i].infohash@,
    ensures
        with_policy(rows, policies, seeds).contains(rows[i].infohash@) == has_policy(
            rows[i],
            policies,
            seeds,
        ),
    decreases rows.len(),
{
    let rest = rows.drop_last();
    let before = with_policy(rest, policies, seeds);
    let all = with_policy(rows, policies, seeds);
    let h = rows[i].infohash@;
    if i < rest.len() {
        assert forall|j: int| 0 <= j < rest.len() && j != i implies (#[trigger] rest[j]).infohash@
            != rest[i].infohash@ by {
            assert(rows[j].infohash@ != rows[i].infohash@);
        }
        lemma_policy_of_row(rest, policies, seeds, i);
        assert(rows[rows.len() - 1].infohash@ != h);
        if before.contains(h) {
            let k = choose|k: int| 0 <= k < before.len() && before[k] == h;
            assert(all[k] == h);
        }
        if all.contains(h) {
            let k = choose|k: int| 0 <= k < all.len() && all[k] == h;
            assert(before[k] == h);
        }
    } else {
        assert forall|j: int| 0 <= j < rest.len() implies (#[trigger] rest[j]).infohash@ != h by {
            assert(rows[j].infohash@ != rows[i].infohash@);
        }
        lemma_unlisted(rest, policies, seeds, h);
        if has_policy(rows[i], policies, seeds) {
            assert(all[before.len() as int] == h);
        }
    }
}

proof fn lemma_unlisted(
    rows: Seq<ActiveTorrent>,
    policies: Seq<SeedPolicy>,
    seeds: bool,
    h: Seq<char>,
)
    requires
        forall|j: int| 0 <= j < rows.len() ==> (#[trigger] rows[j]).infohash@ != h,
    ensures
        !with_policy(rows, policies, seeds).contains(h),
    decreases rows.len(),
{
    if rows.len() > 0 {
        assert(rows[rows.len() - 1].infohash@ != h);
        lemma_unlisted(rows.drop_last(), policies, seeds, h);
        let before = with_policy(rows.drop_last(), policies, seeds);
        let all = with_policy(rows, policies, seeds);
        if all.contains(h) {
            let k = choose|k: int| 0 <= k < all.len() && all[k] == h;
            assert(before[k] == h);
        }
    }
}

/// The policy of a provider takes effect on what is already on disk: a finished
/// torrent leaves the swarm where its provider is not to be shared, and returns
/// once it is.
pub proof fn policy_takes_effect(
    rows: Seq<ActiveTorrent>,
    policies: Seq<SeedPolicy>,
    i: int,
    paused: bool,
)
    requires
        0 <= i < rows.len(),
        forall|j: int|
            0 <= j < rows.len() && j != i ==> (#[trigger] rows[j]).infohash@ != rows[i].infohash@,
    ensures
        ({
            let todo = todo_for(
                true,
                paused,
                rows[i].infohash@,
                with_policy(rows, policies, false),
                with_policy(rows, policies, true),
            );
            &&& todo.pause == (!paused && has_policy(rows[i], policies, false))
            &&& todo.resume == (paused && has_policy(rows[i], policies, true))
        }),
{
    lemma_policy_of_row(rows, policies, false, i);
    lemma_policy_of_row(rows, policies, true, i);
}

// ---------------------------------------------------------------------------
// Laws
// ---------------------------------------------------------------------------

proof fn lemma_providers(rows: Seq<ActiveTorrent>, p: Seq<char>)
    ensures
        providers_of(rows).no_duplicates(),
        providers_of(rows).contains(p) == exists|i: int|
            0 <= i < rows.len() && (#[trigger] rows[i]).source_provider is Some
                && rows[i].source_provider->0@ == p,
    decreases rows.len(),
{
    if rows.len() > 0 {
        let t = rows.drop_last();
        let n = t.len() as int;
        let before = providers_of(t);
        let all = providers_of(rows);
        lemma_providers(t, p);
        assert forall|i: int| 0 <= i < n implies #[trigger] t[i] == rows[i] by {}
        assert(rows[n] == rows.last());
        if all.len() > before.len() {
            assert(all[before.len() as int] == rows[n].source_provider->0@);
        }
        if before.contains(p) {
            let k = choose|k: int| 0 <= k < before.len() && before[k] == p;
            assert(all[k] == p);
            let i = choose|i: int|
                0 <= i < t.len() && (#[trigger] t[i]).source_provider is Some
                    && t[i].source_provider->0@ == p;
            assert(rows[i].source_provider is Some);
        } else {
            if all.contains(p) {
                let k = choose|k: int| 0 <= k < all.len() && all[k] == p;
                if k < before.len() {
                    assert(before[k] == p);
                }
                assert(rows[n].source_provider is Some);
            }
            if exists|i: int|
                0 <= i < rows.len() && (#[trigger] rows[i]).source_provider is Some
                    && rows[i].source_provider->0@ == p {
                let i = choose|i: int|
                    0 <= i < rows.len() && (#[trigger] rows[i]).source_provider is Some
                        && rows[i].source_provider->0@ == p;
                if i < n {
                    assert(t[i].source_provider is Some);
                }
            }
        }
    }
}

/// Each provider of a torrent is looked up, once, and no other is.
pub proof fn providers_are_looked_up_once(
    rows: &Vec<ActiveTorrent>,
    r: Vec<String>,
    p: Seq<char>,
)
    requires
        call_ensures(distinct_providers, (rows,), r),
    ensures
        text::views(r@).no_duplicates(),
        text::views(r@).contains(p) == exists|i: int|
            0 <= i < rows@.len() && (#[trigger] rows@[i]).source_provider is Some
                && rows@[i].source_provider->0@ == p,
{
    lemma_providers(rows@, p);
}

/// Torrents of a provider whose first policy is to share, or not to.
pub open spec fn under_policy(policies: Seq<SeedPolicy>, seeds: bool) -> spec_fn(
    ActiveTorrent,
) -> bool {
    |t: ActiveTorrent|
        t.source_provider is Some && exists|i: int|
            0 <= i < policies.len() && (#[trigger] policies[i]).provider@
                == t.source_provider->0@ && policies[i].seeds == seeds && forall|j: int|
                0 <= j < i ==> (#[trigger] policies[j]).provider@ != t.source_provider->0@
}

proof fn lemma_policy_of(policies: Seq<SeedPolicy>, provider: Seq<char>, from: int)
    requires
        0 <= from,
    ensures
        match policy_of(policies, provider, from) {
            Some(s) => exists|i: int|
                from <= i < policies.len() && (#[trigger] policies[i]).provider@ == provider
                    && policies[i].seeds == s && forall|j: int|
                    from <= j < i ==> (#[trigger] policies[j]).provider@ != provider,
            None => forall|j: int|
                from <= j < policies.len() ==> (#[trigger] policies[j]).provider@ != provider,
        },
    decreases policies.len() - from,
{
    if from < policies.len() {
        if policies[from].provider@ == provider {
            assert(policies[from].provider@ == provider);
        } else {
            lemma_policy_of(policies, provider, from + 1);
        }
    }
}

proof fn lemma_under_policy(t: ActiveTorrent, policies: Seq<SeedPolicy>, seeds: bool)
    ensures
        has_policy(t, policies, seeds) == under_policy(policies, seeds)(t),
{
    if t.source_provider is Some {
        let p = t.source_provider->0@;
        lemma_policy_of(policies, p, 0);
        if under_policy(policies, seeds)(t) {
            let i = choose|i: int|
                0 <= i < policies.len() && (#[trigger] policies[i]).provider@ == p
                    && policies[i].seeds == seeds && forall|j: int|
                    0 <= j < i ==> (#[trigger] policies[j]).provider@ != p;
            let s = policy_of(policies, p, 0)->0;
            let k = choose|k: int|
                0 <= k < policies.len() && (#[trigger] policies[k]).provider@ == p
                    && policies[k].seeds == s && forall|j: int|
                    0 <= j < k ==> (#[trigger] policies[j]).provider@ != p;
            assert(i == k);
        }
    }
}

proof fn lemma_with_policy(rows: Seq<ActiveTorrent>, policies: Seq<SeedPolicy>, seeds: bool)
    ensures
        with_policy(rows, policies, seeds) == rows.filter(
            under_policy(policies, seeds),
        ).map_values(|t: ActiveTorrent| t.infohash@),
    decreases rows.len(),
{
    reveal(Seq::filter);
    if rows.len() > 0 {
        lemma_with_policy(rows.drop_last(), policies, seeds);
        lemma_under_policy(rows.last(), policies, seeds);
    }
    assert(with_policy(rows, policies, seeds) =~= rows.filter(
        under_policy(policies, seeds),
    ).map_values(|t: ActiveTorrent| t.infohash@));
}

/// The torrents of providers that are not to be shared are those that are not,
/// the torrents of providers that are to be shared those that are; a provider
/// without a policy is in neither list.
pub proof fn policy_is_the_providers(
    rows: &Vec<ActiveTorrent>,
    policies: &Vec<SeedPolicy>,
    off: Vec<String>,
    on: Vec<String>,
)
    requires
        call_ensures(no_seed_infohashes, (rows, policies), off),
        call_ensures(seed_infohashes, (rows, policies), on),
    ensures
        text::views(off@) == rows@.filter(under_policy(policies@, false)).map_values(
            |t: ActiveTorrent| t.infohash@,
        ),
        text::views(on@) == rows@.filter(under_policy(policies@, true)).map_values(
            |t: ActiveTorrent| t.infohash@,
        ),
{
    lemma_with_policy(rows@, policies@, false);
    lemma_with_policy(rows@, policies@, true);
}

/// Nothing is done for an unfinished torrent. A finished one is remembered, it
/// leaves the swarm where it is not to be shared and has not left, and returns
/// where it is to be shared and has; never both.
pub proof fn only_finished_torrents_leave_or_return(
    snap: &Snapshot,
    no_seed: &Vec<String>,
    seed: &Vec<String>,
    off: bool,
    on: bool,
    r: Reconciliation,
)
    requires
        off == exists|i: int| 0 <= i < no_seed@.len() && (#[trigger] no_seed@[i])@
            == snap.infohash@,
        on == exists|i: int| 0 <= i < seed@.len() && (#[trigger] seed@[i])@ == snap.infohash@,
        call_ensures(reconcile_once, (snap, no_seed, seed), r),
    ensures
        r.mark_finished == snap.finished,
        r.pause == (snap.finished && off && !snap.paused),
        r.resume == (snap.finished && on && snap.paused && !off),
        !(r.pause && r.resume),
{
    let a = text::views(no_seed@);
    let b = text::views(seed@);
    assert forall|i: int| 0 <= i < no_seed@.len() implies a[i] == (#[trigger] no_seed@[i])@ by {}
    assert forall|i: int| 0 <= i < seed@.len() implies b[i] == (#[trigger] seed@[i])@ by {}
    if a.contains(snap.infohash@) {
        let i = choose|i: int| 0 <= i < a.len() && a[i] == snap.infohash@;
        assert(no_seed@[i]@ == snap.infohash@);
    }
    if b.contains(snap.infohash@) {
        let i = choose|i: int| 0 <= i < b.len() && b[i] == snap.infohash@;
        assert(seed@[i]@ == snap.infohash@);
    }
    if off {
        let i = choose|i: int| 0 <= i < no_seed@.len() && (#[trigger] no_seed@[i])@
            == snap.infohash@;
        assert(a[i] == snap.infohash@);
    }
    if on {
        let i = choose|i: int| 0 <= i < seed@.len() && (#[trigger] seed@[i])@ == snap.infohash@;
        assert(b[i] == snap.infohash@);
    }
}

} // verus!
