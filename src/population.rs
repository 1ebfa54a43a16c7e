//! The whole-number side of a simulation tick: which food a bot eats, which
//! bots survive, and how many must be spawned to keep the population up.
use vstd::prelude::*;

verus! {

/// `p` is the first position whose flag is set.
pub open spec fn is_first_set(flags: Seq<bool>, p: int) -> bool {
    &&& 0 <= p < flags.len()
    &&& flags[p]
    &&& forall|j: int| 0 <= j < p ==> !flags[j]
}

/// `s` with the element at `p` replaced by the last one, and the last slot dropped.
pub open spec fn swap_removed<T>(s: Seq<T>, p: int) -> Seq<T> {
    s.update(p, s.last()).drop_last()
}

/// The elements of `s` whose flag in `keep` is set, in their original order.
pub open spec fn kept<T>(s: Seq<T>, keep: Seq<bool>) -> Seq<T>
    decreases s.len(),
{
    if s.len() == 0 {
        Seq::empty()
    } else {
        let rest = kept(s.subrange(1, s.len() as int), keep.subrange(1, keep.len() as int));
        if keep[0] {
            seq![s[0]].add(rest)
        } else {
            rest
        }
    }
}

/// Number of set flags.
pub open spec fn count_set(flags: Seq<bool>) -> nat
    decreases flags.len(),
{
    if flags.len() == 0 {
        0
    } else {
        count_set(flags.drop_last()) + if flags.last() {
            1nat
        } else {
            0nat
        }
    }
}

/// Number of bots to spawn so that `count` bots become at least `min_count`.
pub open spec fn spec_shortfall(count: nat, min_count: nat) -> nat {
    if count < min_count {
        (min_count - count) as nat
    } else {
        0
    }
}

/// A bot stays in the population while it is inside the field and has energy left.
pub open spec fn spec_survives(in_field: bool, energy: u32) -> bool {
    in_field && energy > 0
}

/// Removes and returns the first food whose flag in `reachable` is set (a bot's
/// centre lies within that food's radius). The last food takes its slot. Returns
/// `None`, leaving `foods` as it was, when no flag is set.
pub fn take_first_reachable<F>(foods: &mut Vec<F>, reachable: &Vec<bool>) -> (r: Option<F>)
    requires
        reachable@.len() == old(foods)@.len(),
    ensures
        final(foods)@.len() + (if r is Some { 1int } else { 0int }) == old(foods)@.len(),
        r is None ==> final(foods)@ == old(foods)@,
        r is None ==> forall|j: int| 0 <= j < reachable@.len() ==> !reachable@[j],
        r is Some ==> exists|p: int|
            {
                &&& is_first_set(reachable@, p)
                &&& r->0 == old(foods)@[p]
                &&& final(foods)@ == swap_removed(old(foods)@, p)
            },
{
    let n = reachable.len();
    let mut i: usize = 0;
    while i < n
        invariant
            n == reachable@.len(),
            foods@ == old(foods)@,
            n == foods@.len(),
            i <= n,
            forall|j: int| 0 <= j < i ==> !reachable@[j],
        decreases n - i,
    {
        if reachable[i] {
            let f = foods.swap_remove(i);
            assert(is_first_set(reachable@, i as int));
            return Some(f);
        }
        i = i + 1;
    }
    None
}

/// Whether a bot stays in the population: it is inside the field and its energy
/// is not used up.
pub fn survives(in_field: bool, energy: u32) -> (r: bool)
    ensures
        r == spec_survives(in_field, energy),
{
    in_field && energy > 0
}

/// Removes from `items` every element whose flag in `keep` is clear; the others
/// keep their order.
pub fn retain_flagged<T>(items: &mut Vec<T>, keep: &Vec<bool>)
    requires
        keep@.len() == old(items)@.len(),
    ensures
        final(items)@ == kept(old(items)@, keep@),
{
    let ghost orig = items@;
    let n = keep.len();
    let mut i: usize = n;
    assert(orig.subrange(0, n as int) =~= orig);
    assert(orig.subrange(n as int, n as int) =~= Seq::<T>::empty());
    while i > 0
        invariant
            n == keep@.len(),
            n == orig.len(),
            i <= n,
            items@ == orig.subrange(0, i as int).add(
                kept(orig.subrange(i as int, n as int), keep@.subrange(i as int, n as int)),
            ),
        decreases i,
    {
        let j = i - 1;
        let ghost tail = orig.subrange(i as int, n as int);
        let ghost ktail = keep@.subrange(i as int, n as int);
        let ghost s = orig.subrange(j as int, n as int);
        let ghost ks = keep@.subrange(j as int, n as int);
        assert(s.subrange(1, s.len() as int) =~= tail);
        assert(ks.subrange(1, ks.len() as int) =~= ktail);
        assert(s[0] == orig[j as int]);
        assert(ks[0] == keep@[j as int]);
        if keep[j] {
            assert(orig.subrange(0, i as int) =~= orig.subrange(0, j as int).push(orig[j as int]));
            assert(items@ =~= orig.subrange(0, j as int).add(seq![orig[j as int]].add(kept(tail, ktail))));
        } else {
            items.remove(j);
            assert(items@ =~= orig.subrange(0, j as int).add(kept(tail, ktail)));
        }
        i = j;
    }
    assert(orig.subrange(0, 0) =~= Seq::<T>::empty());
    assert(keep@.subrange(0, n as int) =~= keep@);
    assert(items@ =~= kept(orig, keep@));
}

/// Number of bots to spawn so that a population of `count` reaches `min_count`.
pub fn shortfall(count: usize, min_count: usize) -> (r: usize)
    ensures
        r == spec_shortfall(count as nat, min_count as nat),
{
    if count < min_count {
        min_count - count
    } else {
        0
    }
}

/// After the cull, spawning the shortfall brings any population up to at least
/// its minimum size, whatever the survivors are.
pub proof fn lemma_population_floor<T>(bots: Seq<T>, keep: Seq<bool>, min_count: nat)
    ensures
        kept(bots, keep).len() + spec_shortfall(kept(bots, keep).len(), min_count) >= min_count,
{
}

/// Food is conserved over a tick. `sizes[i]` is the number of foods before the
/// `i`-th bot feeds and `eaten[i]` whether it ate; each meal removes exactly one
/// food. Spawning one food per meal afterwards restores the starting number.
pub proof fn lemma_food_conserved(sizes: Seq<nat>, eaten: Seq<bool>)
    requires
        sizes.len() == eaten.len() + 1,
        forall|i: int|
            0 <= i < eaten.len() ==> sizes[i] == sizes[i + 1] + if #[trigger] eaten[i] {
                1nat
            } else {
                0nat
            },
    ensures
        sizes.last() + count_set(eaten) == sizes[0],
    decreases eaten.len(),
{
    if eaten.len() > 0 {
        let k = eaten.len() - 1;
        lemma_food_conserved(sizes.drop_last(), eaten.drop_last());
        assert(sizes.drop_last().last() == sizes[k]);
        assert(eaten[k] == eaten.last());
    }
}

} // verus!
