//! Resource nodes: located, depletable stocks of one kind of resource.
use crate::amount::Amount;
use crate::common::{Age, Food};
use crate::geometry::Point;
use std::sync::atomic::Ordering;
use vstd::prelude::*;

verus! {

/// A resource node.
pub struct FoodSource {
    pub position: Point,
    pub food: Food,
    pub amount: Amount,
    pub age: Age,
}

impl FoodSource {
    /// A fresh node of `food` holding `amount` at `position`.
    pub fn new(position: Point, food: Food, amount: u64) -> (r: FoodSource)
        ensures
            r.position == position,
            r.food == food,
            r.age == Age(0),
    {
        FoodSource { position, food, amount: Amount::new(amount), age: Age(0) }
    }
}

/// The elements of `s` whose flag in `keep` is set, in order.
pub open spec fn kept<T>(s: Seq<T>, keep: Seq<bool>) -> Seq<T>
    decreases s.len(),
{
    if s.len() == 0 {
        Seq::empty()
    } else if keep[s.len() - 1] {
        kept(s.drop_last(), keep).push(s.last())
    } else {
        kept(s.drop_last(), keep)
    }
}

/// Which of the quantities read from the nodes leave a node standing.
pub open spec fn stocked(remaining: Seq<u64>) -> Seq<bool> {
    remaining.map_values(|q: u64| q != 0)
}

/// Keeps, in order, the nodes of `foods` whose flag in `keep` is set.
pub fn retain_flagged(foods: &mut Vec<FoodSource>, keep: &Vec<bool>)
    requires
        old(foods)@.len() == keep@.len(),
    ensures
        final(foods)@ == kept(old(foods)@, keep@),
{
    let ghost s = foods@;
    let n = foods.len();
    let mut rest = foods.split_off(0);
    let mut i: usize = 0;
    while rest.len() > 0
        invariant
            s.len() == n,
            s.len() == keep@.len(),
            i + rest@.len() == s.len(),
            rest@ == s.subrange(i as int, s.len() as int),
            foods@ == kept(s.subrange(0, i as int), keep@),
        decreases rest@.len(),
    {
        let item = rest.remove(0);
        assert(i < s.len());
        assert(s.subrange(0, i + 1).drop_last() == s.subrange(0, i as int));
        assert(s.subrange(0, i + 1).last() == s[i as int]);
        if keep[i] {
            foods.push(item);
        }
        i = i + 1;
        assert(rest@ == s.subrange(i as int, s.len() as int));
    }
    assert(s.subrange(0, s.len() as int) == s);
}

/// Registers the system that removes depleted resource nodes.
pub struct FoodPlugin;

impl FoodPlugin {
    /// Removes, keeping the order of the rest, the nodes whose quantity
    /// read in `remaining` is zero.
    pub fn remove_depleted(foods: &mut Vec<FoodSource>, remaining: &Vec<u64>)
        requires
            old(foods)@.len() == remaining@.len(),
        ensures
            final(foods)@ == kept(old(foods)@, stocked(remaining@)),
    {
        let mut keep: Vec<bool> = Vec::new();
        let mut i: usize = 0;
        while i < remaining.len()
            invariant
                i <= remaining@.len(),
                keep@ == stocked(remaining@).subrange(0, i as int),
            decreases remaining@.len() - i,
        {
            keep.push(remaining[i] != 0);
            i = i + 1;
        }
        assert(keep@ == stocked(remaining@));
        retain_flagged(foods, &keep);
    }

    /// Reads every node's remaining quantity and removes the nodes that
    /// have run out; the others keep their order.
    pub fn food_removal(foods: &mut Vec<FoodSource>)
        ensures
            exists|remaining: Seq<u64>|
                remaining.len() == old(foods)@.len() && final(foods)@ == #[trigger] kept(
                    old(foods)@,
                    stocked(remaining),
                ),
    {
        let mut remaining: Vec<u64> = Vec::new();
        let mut i: usize = 0;
        while i < foods.len()
            invariant
                i <= foods@.len(),
                remaining@.len() == i,
            decreases foods@.len() - i,
        {
            remaining.push(foods[i].amount.0.load(Ordering::SeqCst));
            i = i + 1;
        }
        FoodPlugin::remove_depleted(foods, &remaining);
    }
}

} // verus!

verus! {

impl FoodPlugin {
    /// Ages every resource node by `elapsed` milliseconds.
    pub fn increase_age(foods: &mut Vec<FoodSource>, elapsed: u32)
        ensures
            final(foods)@.len() == old(foods)@.len(),
            forall|i: int|
                0 <= i < final(foods)@.len() ==> (#[trigger] final(foods)@[i]).age.0 == old(
                    foods,
                )@[i].age.after(elapsed) && final(foods)@[i].position == old(foods)@[i].position
                    && final(foods)@[i].food == old(foods)@[i].food,
    {
        let ghost s = foods@;
        let mut i: usize = 0;
        while i < foods.len()
            invariant
                foods@.len() == s.len(),
                i <= s.len(),
                forall|j: int|
                    0 <= j < i ==> (#[trigger] foods@[j]).age.0 == s[j].age.after(elapsed)
                        && foods@[j].position == s[j].position && foods@[j].food == s[j].food,
                forall|j: int| i <= j < s.len() ==> #[trigger] foods@[j] == s[j],
            decreases s.len() - i,
        {
            let mut f = foods.remove(i);
            f.age.advance(elapsed);
            foods.insert(i, f);
            i = i + 1;
        }
    }
}

} // verus!
