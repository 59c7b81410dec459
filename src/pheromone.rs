//! Trail markers: the two-letter pheromone alphabet ants leave behind, and
//! their decay.
use crate::common::{Age, Pheromone, Player};
use crate::geometry::Point;
use vstd::prelude::*;

verus! {

/// Age in milliseconds past which a marker is removed.
pub const MARKER_LIFETIME: u64 = 3000;

/// A trail marker left by an ant.
#[derive(Clone, Copy, Debug, PartialEq, Eq)]
pub struct TrailMarker {
    pub position: Point,
    pub pheromone: Pheromone,
    pub player: Player,
    pub age: Age,
}

impl Pheromone {
    /// A fresh marker of kind `pheromone`, owned by `player`, at `position`.
    pub fn spawn(pheromone: Pheromone, player: Player, position: Point) -> (r: TrailMarker)
        ensures
            r == (TrailMarker { position, pheromone, player, age: Age(0) }),
    {
        TrailMarker { position, pheromone, player, age: Age(0) }
    }
}

impl TrailMarker {
    /// Whether the marker is still within its lifetime.
    pub open spec fn fresh(self) -> bool {
        self.age.0 <= MARKER_LIFETIME
    }
}

/// The markers of `s` still within their lifetime, in order.
pub open spec fn fresh_markers(s: Seq<TrailMarker>) -> Seq<TrailMarker>
    decreases s.len(),
{
    if s.len() == 0 {
        Seq::empty()
    } else if s.last().fresh() {
        fresh_markers(s.drop_last()).push(s.last())
    } else {
        fresh_markers(s.drop_last())
    }
}

/// The markers of `s`, each `elapsed` milliseconds older.
pub open spec fn aged_markers(s: Seq<TrailMarker>, elapsed: u32) -> Seq<TrailMarker> {
    s.map_values(|m: TrailMarker| TrailMarker { age: Age(m.age.after(elapsed)), ..m })
}

/// Registers the systems that age and remove trail markers.
pub struct PheromonePlugin;

impl PheromonePlugin {
    /// Removes every marker older than `MARKER_LIFETIME`, keeping the order
    /// of the rest.
    pub fn pheromone_removal(markers: &mut Vec<TrailMarker>)
        ensures
            final(markers)@ == fresh_markers(old(markers)@),
    {
        let ghost s = markers@;
        let mut kept: Vec<TrailMarker> = Vec::new();
        let mut i: usize = 0;
        while i < markers.len()
            invariant
                markers@ == s,
                i <= s.len(),
                kept@ == fresh_markers(s.subrange(0, i as int)),
            decreases s.len() - i,
        {
            let m = markers[i];
            assert(s.subrange(0, i + 1).drop_last() == s.subrange(0, i as int));
            if m.age.0 <= MARKER_LIFETIME {
                kept.push(m);
            }
            i = i + 1;
        }
        assert(s.subrange(0, s.len() as int) == s);
        *markers = kept;
    }

    /// Ages every marker by `elapsed` milliseconds.
    pub fn increase_age(markers: &mut Vec<TrailMarker>, elapsed: u32)
        ensures
            final(markers)@ == aged_markers(old(markers)@, elapsed),
    {
        let ghost s = markers@;
        let mut i: usize = 0;
        while i < markers.len()
            invariant
                markers@.len() == s.len(),
                i <= s.len(),
                forall|j: int| 0 <= j < i ==> markers@[j] == aged_markers(s, elapsed)[j],
                forall|j: int| i <= j < s.len() ==> markers@[j] == s[j],
            decreases s.len() - i,
        {
            let mut m = markers[i];
            m.age.advance(elapsed);
            markers.set(i, m);
            i = i + 1;
        }
        assert(markers@ == aged_markers(s, elapsed));
    }
}

/// Every marker left by removal is within its lifetime.
pub proof fn lemma_fresh_markers_fresh(s: Seq<TrailMarker>)
    ensures
        forall|i: int| 0 <= i < fresh_markers(s).len() ==> (#[trigger] fresh_markers(s)[i]).fresh(),
    decreases s.len(),
{
    if s.len() > 0 {
        lemma_fresh_markers_fresh(s.drop_last());
        let prev = fresh_markers(s.drop_last());
        if s.last().fresh() {
            assert forall|i: int| 0 <= i < fresh_markers(s).len() implies (#[trigger] fresh_markers(s)[i]).fresh() by {
                if i < prev.len() {
                    assert(fresh_markers(s)[i] == prev[i]);
                }
            }
        }
    }
}

/// Removal keeps exactly the fresh markers: it is `kept` with each
/// marker's own freshness as its flag.
proof fn lemma_fresh_markers_kept(t: Seq<TrailMarker>)
    ensures
        fresh_markers(t) == crate::food::kept(t, t.map_values(|m: TrailMarker| m.fresh())),
    decreases t.len(),
{
    if t.len() > 0 {
        lemma_fresh_markers_kept(t.drop_last());
        assert(t.drop_last().map_values(|m: TrailMarker| m.fresh()) =~= t.map_values(
            |m: TrailMarker| m.fresh(),
        ).drop_last());
        lemma_kept_prefix_flags(t.drop_last(), t.map_values(|m: TrailMarker| m.fresh()));
    }
}

/// `kept` reads only the flags of the elements it has.
proof fn lemma_kept_prefix_flags(s: Seq<TrailMarker>, flags: Seq<bool>)
    requires
        s.len() < flags.len(),
    ensures
        crate::food::kept(s, flags) == crate::food::kept(s, flags.subrange(0, s.len() as int)),
    decreases s.len(),
{
    if s.len() > 0 {
        lemma_kept_prefix_flags(s.drop_last(), flags);
        lemma_kept_prefix_flags(s.drop_last(), flags.subrange(0, s.len() as int));
        assert(flags.subrange(0, s.len() as int).subrange(0, s.len() - 1) =~= flags.subrange(
            0,
            s.len() - 1,
        ));
    }
}

/// Every tick each marker's age grows by exactly the elapsed time (so
/// strictly, when time passed), and removal then keeps, in order, exactly
/// the markers whose new age is within `MARKER_LIFETIME`: a marker goes in
/// the first tick that takes its age past it, never earlier.
pub proof fn lemma_markers_age_and_expire(s: Seq<TrailMarker>, elapsed: u32)
    requires
        forall|i: int| 0 <= i < s.len() ==> #[trigger] s[i].age.0 + elapsed <= u64::MAX,
    ensures
        aged_markers(s, elapsed).len() == s.len(),
        forall|i: int|
            0 <= i < s.len() ==> #[trigger] aged_markers(s, elapsed)[i].age.0 == s[i].age.0 + elapsed,
        elapsed > 0 ==> forall|i: int|
            0 <= i < s.len() ==> #[trigger] aged_markers(s, elapsed)[i].age.0 > s[i].age.0,
        fresh_markers(aged_markers(s, elapsed)) == crate::food::kept(
            aged_markers(s, elapsed),
            Seq::new(s.len(), |i: int| s[i].age.0 + elapsed <= MARKER_LIFETIME),
        ),
{
    let t = aged_markers(s, elapsed);
    lemma_fresh_markers_kept(t);
    assert(t.map_values(|m: TrailMarker| m.fresh()) =~= Seq::new(
        s.len(),
        |i: int| s[i].age.0 + elapsed <= MARKER_LIFETIME,
    ));
}

} // verus!
