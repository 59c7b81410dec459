//! Home bases: where carried resources end up as colony wealth.
use crate::common::{Age, Food, Player};
use crate::food::{kept, retain_flagged, FoodSource};
use crate::geometry::Point;
use std::sync::atomic::Ordering;
use vstd::prelude::*;

verus! {

/// Distance within which a home base absorbs a resource node, in length
/// units.
pub const ABSORB_RADIUS: u64 = 10 * 1000;

/// Accumulated quantity per resource kind; each kind appears at most once.
pub struct FoodStorage(pub Vec<(Food, u64)>);

impl FoodStorage {
    /// Each kind appears at most once.
    pub open spec fn wf(self) -> bool {
        forall|i: int, j: int|
            0 <= i < j < self.0@.len() ==> #[trigger] self.0@[i].0 != #[trigger] self.0@[j].0
    }

    /// Whether `kind` has an entry.
    pub open spec fn has(self, kind: Food) -> bool {
        exists|i: int| 0 <= i < self.0@.len() && #[trigger] self.0@[i].0 == kind
    }

    /// The quantity stored of `kind`, zero when it has no entry.
    pub open spec fn stored(self, kind: Food) -> int {
        if self.has(kind) {
            self.0@[choose|i: int| 0 <= i < self.0@.len() && #[trigger] self.0@[i].0 == kind].1 as int
        } else {
            0
        }
    }

    /// An empty storage.
    pub fn new() -> (r: FoodStorage)
        ensures
            r.wf(),
            forall|k: Food| r.stored(k) == 0,
    {
        FoodStorage(Vec::new())
    }

    /// The quantity stored of `kind`.
    pub fn get(&self, kind: Food) -> (r: u64)
        requires
            self.wf(),
        ensures
            r == self.stored(kind),
    {
        let mut i: usize = 0;
        while i < self.0.len()
            invariant
                self.wf(),
                i <= self.0@.len(),
                forall|j: int| 0 <= j < i ==> #[trigger] self.0@[j].0 != kind,
            decreases self.0@.len() - i,
        {
            if self.0[i].0 == kind {
                proof {
                    assert(self.0@[i as int].0 == kind);
                    let c = choose|j: int| 0 <= j < self.0@.len() && #[trigger] self.0@[j].0 == kind;
                    if c != i as int {
                        assert(self.0@[c].0 == self.0@[i as int].0);
                    }
                }
                return self.0[i].1;
            }
            i = i + 1;
        }
        0
    }

    /// Adds `quantity` to the entry of `kind`, creating it when missing.
    /// Fails, changing nothing, when the sum would not fit in a `u64`.
    pub fn deposit(&mut self, kind: Food, quantity: u64) -> (r: bool)
        requires
            old(self).wf(),
        ensures
            final(self).wf(),
            r == (old(self).stored(kind) + quantity <= u64::MAX),
            r ==> final(self).stored(kind) == old(self).stored(kind) + quantity,
            r ==> forall|k: Food| k != kind ==> final(self).stored(k) == old(self).stored(k),
            !r ==> final(self)@ == old(self)@,
    {
        let ghost s = self.0@;
        let mut i: usize = 0;
        while i < self.0.len()
            invariant
                self.0@ == s,
                old(self).0@ == s,
                old(self).wf(),
                i <= s.len(),
                forall|j: int| 0 <= j < i ==> #[trigger] s[j].0 != kind,
            decreases s.len() - i,
        {
            if self.0[i].0 == kind {
                let have = self.0[i].1;
                proof {
                    assert(s[i as int].0 == kind);
                    let c = choose|j: int| 0 <= j < s.len() && #[trigger] s[j].0 == kind;
                    if c != i as int {
                        assert(s[c].0 == s[i as int].0);
                    }
                }
                if have > u64::MAX - quantity {
                    return false;
                }
                self.0.set(i, (kind, have + quantity));
                proof {
                    let t = self.0@;
                    assert(t[i as int].0 == kind);
                    assert forall|k: Food| k != kind implies #[trigger] self.stored(k) == old(self).stored(k) by {
                        if old(self).has(k) {
                            let c = choose|j: int| 0 <= j < s.len() && #[trigger] s[j].0 == k;
                            assert(t[c].0 == k);
                            let d = choose|j: int| 0 <= j < t.len() && #[trigger] t[j].0 == k;
                            assert(c == d);
                        } else {
                            assert forall|j: int| 0 <= j < t.len() implies #[trigger] t[j].0 != k by {
                                assert(s[j].0 != k);
                            }
                        }
                    }
                    let d = choose|j: int| 0 <= j < t.len() && #[trigger] t[j].0 == kind;
                    assert(d == i as int);
                }
                return true;
            }
            i = i + 1;
        }
        self.0.push((kind, quantity));
        proof {
            let t = self.0@;
            assert(t[s.len() as int].0 == kind);
            let d = choose|j: int| 0 <= j < t.len() && #[trigger] t[j].0 == kind;
            assert(d == s.len() as int);
            assert forall|k: Food| k != kind implies #[trigger] self.stored(k) == old(self).stored(k) by {
                if old(self).has(k) {
                    let c = choose|j: int| 0 <= j < s.len() && #[trigger] s[j].0 == k;
                    assert(t[c].0 == k);
                    let d = choose|j: int| 0 <= j < t.len() && #[trigger] t[j].0 == k;
                    assert(c == d);
                } else {
                    assert forall|j: int| 0 <= j < t.len() implies #[trigger] t[j].0 != k by {
                        if j < s.len() {
                            assert(s[j].0 != k);
                        }
                    }
                }
            }
        }
        true
    }
}

impl View for FoodStorage {
    type V = Seq<(Food, u64)>;

    open spec fn view(&self) -> Seq<(Food, u64)> {
        self.0@
    }
}

/// A home base.
pub struct Colony {
    pub position: Point,
    pub player: Player,
    pub age: Age,
    pub food_storage: FoodStorage,
}

impl Colony {
    /// A home base of `player` at `position` with nothing stored.
    pub fn new(position: Point, player: Player) -> (r: Colony)
        ensures
            r.position == position,
            r.player == player,
            r.age == Age(0),
            r.food_storage.wf(),
            forall|k: Food| r.food_storage.stored(k) == 0,
    {
        Colony { position, player, age: Age(0), food_storage: FoodStorage::new() }
    }
}

/// The first of the home-base positions `ps`, from index `k` on, within
/// `ABSORB_RADIUS` of `p`.
pub open spec fn absorber_from(ps: Seq<Point>, p: Point, k: int) -> Option<int>
    decreases ps.len() - k,
{
    if k < 0 || k >= ps.len() {
        None
    } else if ps[k].within(p, ABSORB_RADIUS) {
        Some(k)
    } else {
        absorber_from(ps, p, k + 1)
    }
}

/// An absorber found from `k` on lies in `k..ps.len()`.
pub proof fn lemma_absorber_in_range(ps: Seq<Point>, p: Point, k: int)
    ensures
        absorber_from(ps, p, k) is Some ==> 0 <= k <= absorber_from(ps, p, k)->0 < ps.len(),
    decreases ps.len() - k,
{
    if 0 <= k < ps.len() && !ps[k].within(p, ABSORB_RADIUS) {
        lemma_absorber_in_range(ps, p, k + 1);
    }
}

/// The index of the first home base of `colonies` within `ABSORB_RADIUS` of
/// `p`: the one that absorbs a node there.
pub open spec fn absorber(colonies: Seq<Colony>, p: Point) -> Option<int> {
    absorber_from(colonies.map_values(|c: Colony| c.position), p, 0)
}

/// What the nodes `fs` hand to colony `c` in resource `k`, when node `i`
/// was drained of `q[i]` and kept (its drain refused) when `keep[i]`.
pub open spec fn delivered(
    colonies: Seq<Colony>,
    fs: Seq<FoodSource>,
    q: Seq<u64>,
    keep: Seq<bool>,
    c: int,
    k: Food,
) -> int
    decreases fs.len(),
{
    if fs.len() == 0 {
        0
    } else {
        delivered(colonies, fs.drop_last(), q.drop_last(), keep.drop_last(), c, k) + if !keep.last()
            && absorber(colonies, fs.last().position) == Some(c) && fs.last().food == k {
            q.last() as int
        } else {
            0
        }
    }
}

/// `delivered` reads the home bases only through their positions.
pub proof fn lemma_delivered_by_positions(
    a: Seq<Colony>,
    b: Seq<Colony>,
    fs: Seq<FoodSource>,
    q: Seq<u64>,
    keep: Seq<bool>,
    c: int,
    k: Food,
)
    requires
        a.map_values(|x: Colony| x.position) == b.map_values(|x: Colony| x.position),
    ensures
        delivered(a, fs, q, keep, c, k) == delivered(b, fs, q, keep, c, k),
    decreases fs.len(),
{
    if fs.len() > 0 {
        lemma_delivered_by_positions(a, b, fs.drop_last(), q.drop_last(), keep.drop_last(), c, k);
    }
}

/// Registers the system that moves resource nodes into home bases.
pub struct ColonyPlugin;

impl ColonyPlugin {
    /// The first colony within `ABSORB_RADIUS` of `p`.
    pub fn absorbing_colony(colonies: &Vec<Colony>, p: &Point) -> (r: Option<usize>)
        ensures
            r matches Some(c) ==> absorber(colonies@, *p) == Some(c as int) && c < colonies@.len(),
            r is None ==> absorber(colonies@, *p) is None,
    {
        let ghost ps = colonies@.map_values(|c: Colony| c.position);
        let mut i: usize = 0;
        while i < colonies.len()
            invariant
                ps == colonies@.map_values(|c: Colony| c.position),
                i <= colonies@.len(),
                absorber_from(ps, *p, 0) == absorber_from(ps, *p, i as int),
            decreases colonies@.len() - i,
        {
            assert(ps[i as int] == colonies@[i as int].position);
            if colonies[i].position.is_within(p, ABSORB_RADIUS) {
                return Some(i);
            }
            i = i + 1;
        }
        None
    }

    /// Drains every resource node within `ABSORB_RADIUS` of a home base
    /// into the storage of the first such base, insert-or-accumulate, and
    /// removes it, so a node counts towards one base only. A node whose
    /// quantity the storage cannot take without overflow is left as it was.
    /// The drained quantities `q` are read from the nodes' counters.
    pub fn fill_colony_storage(colonies: &mut Vec<Colony>, foods: &mut Vec<FoodSource>)
        requires
            forall|c: int| 0 <= c < old(colonies)@.len() ==> (#[trigger] old(colonies)@[c]).food_storage.wf(),
        ensures
            final(colonies)@.len() == old(colonies)@.len(),
            forall|c: int|
                0 <= c < final(colonies)@.len() ==> (#[trigger] final(colonies)@[c]).food_storage.wf()
                    && final(colonies)@[c].position == old(colonies)@[c].position
                    && final(colonies)@[c].player == old(colonies)@[c].player
                    && final(colonies)@[c].age == old(colonies)@[c].age,
            exists|q: Seq<u64>, keep: Seq<bool>|
                #![trigger kept(old(foods)@, keep), q.len()]
                {
                    &&& q.len() == old(foods)@.len()
                    &&& keep.len() == old(foods)@.len()
                    &&& final(foods)@ == kept(old(foods)@, keep)
                    &&& forall|i: int|
                        0 <= i < keep.len() && absorber(old(colonies)@, old(foods)@[i].position) is None
                            ==> #[trigger] keep[i]
                    &&& forall|i: int|
                        0 <= i < keep.len() && #[trigger] keep[i] && absorber(
                            old(colonies)@,
                            old(foods)@[i].position,
                        ) is Some ==> final(colonies)@[absorber(
                            old(colonies)@,
                            old(foods)@[i].position,
                        )->0].food_storage.stored(old(foods)@[i].food) + q[i] > u64::MAX
                    &&& forall|c: int, k: Food|
                        0 <= c < final(colonies)@.len() ==> #[trigger] final(colonies)@[c].food_storage.stored(k)
                            == old(colonies)@[c].food_storage.stored(k) + delivered(
                            old(colonies)@,
                            old(foods)@,
                            q,
                            keep,
                            c,
                            k,
                        )
                },
    {
        let ghost cs = colonies@;
        let ghost fs = foods@;
        let ghost mut q: Seq<u64> = Seq::empty();
        let mut keep: Vec<bool> = Vec::new();
        let mut i: usize = 0;
        while i < foods.len()
            invariant
                foods@ == fs,
                i <= fs.len(),
                keep@.len() == i,
                q.len() == i,
                colonies@.len() == cs.len(),
                colonies@.map_values(|c: Colony| c.position) == cs.map_values(|c: Colony| c.position),
                forall|c: int|
                    0 <= c < colonies@.len() ==> (#[trigger] colonies@[c]).food_storage.wf()
                        && colonies@[c].position == cs[c].position && colonies@[c].player
                        == cs[c].player && colonies@[c].age == cs[c].age,
                forall|j: int| 0 <= j < i && absorber(cs, fs[j].position) is None ==> #[trigger] keep@[j],
                forall|j: int|
                    0 <= j < i && #[trigger] keep@[j] && absorber(cs, fs[j].position) is Some
                        ==> colonies@[absorber(cs, fs[j].position)->0].food_storage.stored(fs[j].food)
                        + q[j] > u64::MAX,
                forall|c: int, k: Food|
                    0 <= c < colonies@.len() ==> #[trigger] colonies@[c].food_storage.stored(k)
                        == cs[c].food_storage.stored(k) + delivered(
                        cs,
                        fs.subrange(0, i as int),
                        q,
                        keep@,
                        c,
                        k,
                    ),
            decreases fs.len() - i,
        {
            let ghost before = colonies@;
            let ghost prev_keep = keep@;
            let ghost prev_q = q;
            let ghost f = fs[i as int];
            let ghost kind = f.food;
            proof {
                assert(absorber(colonies@, f.position) == absorber(cs, f.position));
                lemma_absorber_in_range(cs.map_values(|c: Colony| c.position), f.position, 0);
            }
            match ColonyPlugin::absorbing_colony(colonies, &foods[i].position) {
                Some(c) => {
                    let v = foods[i].amount.0.swap(0, Ordering::SeqCst);
                    let mut colony = colonies.remove(c);
                    let stored = colony.food_storage.deposit(foods[i].food, v);
                    colonies.insert(c, colony);
                    if !stored {
                        foods[i].amount.0.store(v, Ordering::SeqCst);
                    }
                    keep.push(!stored);
                    proof {
                        q = prev_q.push(v);
                        assert(colonies@ =~= before.update(c as int, colony));
                        assert forall|c2: int, k: Food| 0 <= c2 < colonies@.len() implies #[trigger] colonies@[c2].food_storage.stored(k)
                            >= before[c2].food_storage.stored(k) by {
                            if c2 == c as int && k != kind && stored {
                                assert(colony.food_storage.stored(k) == before[c2].food_storage.stored(k));
                            }
                        }
                        assert(colonies@.map_values(|c: Colony| c.position) =~= cs.map_values(|c: Colony| c.position));
                    }
                },
                None => {
                    keep.push(true);
                    proof {
                        q = prev_q.push(0);
                        assert(colonies@ == before);
                        assert forall|c2: int, k: Food| 0 <= c2 < colonies@.len() implies #[trigger] colonies@[c2].food_storage.stored(k)
                            >= before[c2].food_storage.stored(k) by {}
                    }
                },
            }
            proof {
                let fi = fs.subrange(0, i + 1);
                assert(fi.drop_last() =~= fs.subrange(0, i as int));
                assert(fi.last() == f);
                assert(q.drop_last() =~= prev_q);
                assert(keep@.drop_last() =~= prev_keep);
                assert forall|j: int| 0 <= j < i implies #[trigger] keep@[j] == prev_keep[j] && q[j] == prev_q[j] by {}
                assert forall|c: int, k: Food| 0 <= c < colonies@.len() implies #[trigger] colonies@[c].food_storage.stored(k)
                    == cs[c].food_storage.stored(k) + delivered(cs, fi, q, keep@, c, k) by {
                    assert(before[c].food_storage.stored(k) == cs[c].food_storage.stored(k) + delivered(
                        cs,
                        fs.subrange(0, i as int),
                        prev_q,
                        prev_keep,
                        c,
                        k,
                    ));
                }
                assert forall|j: int|
                    0 <= j < i + 1 && #[trigger] keep@[j] && absorber(cs, fs[j].position) is Some
                        implies colonies@[absorber(cs, fs[j].position)->0].food_storage.stored(fs[j].food)
                        + q[j] > u64::MAX by {
                    if j < i {
                        let c = absorber(cs, fs[j].position)->0;
                        assert(before[c].food_storage.stored(fs[j].food) + prev_q[j] > u64::MAX);
                        lemma_absorber_in_range(cs.map_values(|c: Colony| c.position), fs[j].position, 0);
                        assert(0 <= c < colonies@.len());
                        assert(colonies@[c].food_storage.stored(fs[j].food) >= before[c].food_storage.stored(fs[j].food));
                    }
                }
            }
            i = i + 1;
        }
        assert(fs.subrange(0, fs.len() as int) == fs);
        retain_flagged(foods, &keep);
        assert(q.len() == keep@.len());
    }
}

} // verus!

verus! {

impl ColonyPlugin {
    /// Ages every home base by `elapsed` milliseconds.
    pub fn increase_age(colonies: &mut Vec<Colony>, elapsed: u32)
        ensures
            final(colonies)@.len() == old(colonies)@.len(),
            forall|i: int|
                0 <= i < final(colonies)@.len() ==> (#[trigger] final(colonies)@[i]).age.0 == old(
                    colonies,
                )@[i].age.after(elapsed) && final(colonies)@[i].position == old(colonies)@[i].position
                    && final(colonies)@[i].player == old(colonies)@[i].player
                    && final(colonies)@[i].food_storage@ == old(colonies)@[i].food_storage@,
    {
        let ghost s = colonies@;
        let mut i: usize = 0;
        while i < colonies.len()
            invariant
                colonies@.len() == s.len(),
                i <= s.len(),
                forall|j: int|
                    0 <= j < i ==> (#[trigger] colonies@[j]).age.0 == s[j].age.after(elapsed)
                        && colonies@[j].position == s[j].position && colonies@[j].player == s[j].player
                        && colonies@[j].food_storage@ == s[j].food_storage@,
                forall|j: int| i <= j < s.len() ==> #[trigger] colonies@[j] == s[j],
            decreases s.len() - i,
        {
            let mut c = colonies.remove(i);
            c.age.advance(elapsed);
            colonies.insert(i, c);
            i = i + 1;
        }
    }
}

} // verus!
