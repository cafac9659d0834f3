use crate::chance::sums::{
    lemma_total_nonneg, lemma_total_nonpos, lemma_total_update, lemma_total_zeros, total,
};
use crate::chance::tables::{share, slot, weight_total, TableView};
use vstd::prelude::*;

verus! {

/// While a table is built: for each slot, how far what is left of its share is above the average.
/// A settled slot (class 0) has nothing left.
pub open spec fn excess(mass: Seq<u128>, class: Seq<int>, average: int) -> Seq<int> {
    Seq::new(
        mass.len(),
        |j: int|
            if class[j] != 0 {
                mass[j] as int - average
            } else {
                0
            },
    )
}

/// While a table is built: what the settled columns give to `outcome`.
pub open spec fn settled(
    cutoff: Seq<u128>,
    alias: Seq<usize>,
    class: Seq<int>,
    average: int,
    outcome: int,
) -> Seq<int> {
    Seq::new(
        cutoff.len(),
        |c: int|
            if class[c] == 0 {
                slot(cutoff[c] as int, alias[c] as int, average, c, outcome)
            } else {
                0
            },
    )
}

/// While a table is built: what is left of the share of slot `i`.
pub open spec fn pending(mass: Seq<u128>, class: Seq<int>, i: int) -> int {
    if class[i] != 0 {
        mass[i] as int
    } else {
        0
    }
}

/// The work stack `stack` holds exactly the slots of class `tag`, each once:
/// `place` gives the position of each of them.
pub open spec fn stack_holds(stack: Seq<usize>, tag: int, class: Seq<int>, place: Seq<int>) -> bool {
    &&& forall|a: int|
        0 <= a < stack.len() ==> (#[trigger] stack[a]) < class.len() && class[stack[a] as int]
            == tag && place[stack[a] as int] == a
    &&& forall|j: int|
        0 <= j < class.len() && #[trigger] class[j] == tag ==> 0 <= place[j] < stack.len()
            && stack[place[j]] == j
}

/// Every slot is settled (0), deficient (1) or in surplus (2); a deficient slot has less
/// than the average left, one in surplus has at least the average, and a settled one has
/// a cutoff and an alias that are in range.
pub open spec fn classes_fit(
    mass: Seq<u128>,
    cutoff: Seq<u128>,
    alias: Seq<usize>,
    class: Seq<int>,
    average: int,
) -> bool {
    forall|j: int|
        0 <= j < class.len() ==> {
            &&& 0 <= #[trigger] class[j] <= 2
            &&& class[j] == 1 ==> mass[j] < average
            &&& class[j] == 2 ==> mass[j] >= average
            &&& class[j] == 0 ==> cutoff[j] <= average
            &&& alias[j] < class.len()
        }
}

/// While a table is built, every slot's share is what the settled columns give it
/// and what it has left.
pub open spec fn shares_kept(
    weights: Seq<u64>,
    mass: Seq<u128>,
    cutoff: Seq<u128>,
    alias: Seq<usize>,
    class: Seq<int>,
    average: int,
) -> bool {
    forall|i: int|
        0 <= i < weights.len() ==> #[trigger] total(settled(cutoff, alias, class, average, i))
            + pending(mass, class, i) == weights[i] * weights.len()
}

/// Builds the cutoffs and aliases for weights that do not sum to zero, by pairing
/// deficient slots with slots in surplus.
///
/// Every slot starts with `weight * n` units, against an average of `sum` units.
/// A deficient slot keeps its units as its cutoff and takes the rest of the
/// average from a slot in surplus, which becomes its alias. The arithmetic is
/// exact, so when no deficient slot is left, every slot in surplus holds exactly
/// the average, and keeps every draw that hits it.
pub fn balance(weights: &Vec<u64>, sum: u128) -> (r: (Vec<u128>, Vec<usize>))
    requires
        weights.len() > 0,
        sum == weight_total(weights@),
        sum > 0,
    ensures
        (TableView { cutoffs: r.0@, aliases: r.1@, denominator: sum }).fair_for(weights@),
{
    let n: usize = weights.len();
    let ghost w: int = sum as int;
    let mut mass: Vec<u128> = Vec::new();
    let mut cutoff: Vec<u128> = Vec::new();
    let mut alias: Vec<usize> = Vec::new();
    let mut small: Vec<usize> = Vec::new();
    let mut large: Vec<usize> = Vec::new();
    let ghost mut class: Seq<int> = Seq::empty();
    let ghost mut place: Seq<int> = Seq::empty();
    let mut idx: usize = 0;
    while idx < n
        invariant
            n == weights.len(),
            w == sum,
            0 <= idx <= n,
            mass.len() == idx,
            cutoff.len() == idx,
            alias.len() == idx,
            class.len() == idx,
            place.len() == idx,
            stack_holds(small@, 1, class, place),
            stack_holds(large@, 2, class, place),
            forall|j: int|
                0 <= j < idx ==> {
                    &&& 1 <= #[trigger] class[j] <= 2
                    &&& class[j] == 1 ==> mass@[j] < w
                    &&& class[j] == 2 ==> mass@[j] >= w
                    &&& alias@[j] == 0
                    &&& mass@[j] == weights@[j] * n
                },
            total(excess(mass@, class, w)) == n * weight_total(weights@.take(idx as int)) - idx
                * w,
        decreases n - idx,
    {
        let weight: u64 = weights[idx];
        proof {
            assert(weight * n <= 0xffff_ffff_ffff_ffff * 0xffff_ffff_ffff_ffff)
                by (nonlinear_arith)
                requires
                    0 <= weight <= 0xffff_ffff_ffff_ffff,
                    0 <= n <= 0xffff_ffff_ffff_ffff,
            ;
        }
        let m: u128 = (weight as u128) * (n as u128);
        let ghost before = excess(mass@, class, w);
        mass.push(m);
        cutoff.push(0);
        alias.push(0);
        if m < sum {
            small.push(idx);
            proof {
                class = class.push(1);
                place = place.push(small.len() - 1);
            }
        } else {
            large.push(idx);
            proof {
                class = class.push(2);
                place = place.push(large.len() - 1);
            }
        }
        proof {
            assert(excess(mass@, class, w) =~= before.push(m - w));
            assert(excess(mass@, class, w).drop_last() =~= before);
            assert(weights@.take(idx + 1).drop_last() =~= weights@.take(idx as int));
            let sofar = weight_total(weights@.take(idx as int));
            assert(n * (sofar + weight) - (idx + 1) * w == n * sofar - idx * w + (weight * n
                - w)) by (nonlinear_arith);
        }
        idx = idx + 1;
    }
    proof {
        assert(weights@.take(n as int) =~= weights@);
        assert(n * w - n * w == 0);
        assert forall|i: int| 0 <= i < n implies #[trigger] total(
            settled(cutoff@, alias@, class, w, i),
        ) + pending(mass@, class, i) == weights@[i] * n by {
            lemma_total_zeros(settled(cutoff@, alias@, class, w, i));
        }
    }
    while small.len() > 0 && large.len() > 0
        invariant
            n == weights.len(),
            n > 0,
            w == sum,
            mass.len() == n,
            cutoff.len() == n,
            alias.len() == n,
            class.len() == n,
            place.len() == n,
            stack_holds(small@, 1, class, place),
            stack_holds(large@, 2, class, place),
            classes_fit(mass@, cutoff@, alias@, class, w),
            total(excess(mass@, class, w)) == 0,
            shares_kept(weights@, mass@, cutoff@, alias@, class, w),
        decreases small.len() + large.len(),
    {
        let ghost mass0 = mass@;
        let ghost cutoff0 = cutoff@;
        let ghost alias0 = alias@;
        let ghost class0 = class;
        let less: usize = small.pop().unwrap();
        let more: usize = large.pop().unwrap();
        let kept: u128 = mass[less];
        let rest: u128 = mass[more] - (sum - kept);
        cutoff.set(less, kept);
        alias.set(less, more);
        mass.set(more, rest);
        proof {
            class = class.update(less as int, 0);
        }
        if rest >= sum {
            large.push(more);
        } else {
            small.push(more);
            proof {
                class = class.update(more as int, 1);
                place = place.update(more as int, small.len() - 1);
            }
        }
        proof {
            assert forall|j: int| 0 <= j < n implies {
                &&& 0 <= #[trigger] class[j] <= 2
                &&& class[j] == 1 ==> mass@[j] < w
                &&& class[j] == 2 ==> mass@[j] >= w
                &&& class[j] == 0 ==> cutoff@[j] <= w
                &&& alias@[j] < n
            } by {
                assert(0 <= class0[j] <= 2);
                assert(alias0[j] < n);
            }
            let e0 = excess(mass0, class0, w);
            lemma_total_update(e0, less as int, 0);
            lemma_total_update(e0.update(less as int, 0), more as int, rest - w);
            assert(excess(mass@, class, w) =~= e0.update(less as int, 0).update(
                more as int,
                rest - w,
            ));
            assert forall|i: int| 0 <= i < n implies #[trigger] total(
                settled(cutoff@, alias@, class, w, i),
            ) + pending(mass@, class, i) == weights@[i] * n by {
                let s0 = settled(cutoff0, alias0, class0, w, i);
                let given = slot(kept as int, more as int, w, less as int, i);
                lemma_total_update(s0, less as int, given);
                assert(settled(cutoff@, alias@, class, w, i) =~= s0.update(less as int, given));
                assert(total(s0) + pending(mass0, class0, i) == weights@[i] * n);
            }
        }
    }
    proof {
        let e = excess(mass@, class, w);
        if small.len() > 0 {
            assert forall|j: int| 0 <= j < e.len() implies e[j] <= 0 by {
                assert(class[j] != 2);
            }
            lemma_total_nonpos(e);
            let j = small@[0] as int;
            assert(e[j] == 0);
            assert(false);
        }
        assert forall|j: int| 0 <= j < e.len() implies e[j] >= 0 by {
            assert(class[j] != 1);
        }
        lemma_total_nonneg(e);
        assert forall|j: int| 0 <= j < n && class[j] == 2 implies mass@[j] == w by {
            assert(e[j] == 0);
        }
    }
    while large.len() > 0
        invariant
            n == weights.len(),
            n > 0,
            w == sum,
            mass.len() == n,
            cutoff.len() == n,
            alias.len() == n,
            class.len() == n,
            place.len() == n,
            stack_holds(large@, 2, class, place),
            classes_fit(mass@, cutoff@, alias@, class, w),
            forall|j: int| 0 <= j < n ==> #[trigger] class[j] != 1,
            forall|j: int| 0 <= j < n && #[trigger] class[j] == 2 ==> mass@[j] == w,
            shares_kept(weights@, mass@, cutoff@, alias@, class, w),
        decreases large.len(),
    {
        let ghost cutoff0 = cutoff@;
        let ghost class0 = class;
        let last: usize = large.pop().unwrap();
        cutoff.set(last, sum);
        proof {
            class = class.update(last as int, 0);
            assert forall|j: int| 0 <= j < n implies {
                &&& 0 <= #[trigger] class[j] <= 2
                &&& class[j] == 1 ==> mass@[j] < w
                &&& class[j] == 2 ==> mass@[j] >= w
                &&& class[j] == 0 ==> cutoff@[j] <= w
                &&& alias@[j] < n
            } by {
                assert(0 <= class0[j] <= 2);
            }
            assert forall|i: int| 0 <= i < n implies #[trigger] total(
                settled(cutoff@, alias@, class, w, i),
            ) + pending(mass@, class, i) == weights@[i] * n by {
                let s0 = settled(cutoff0, alias@, class0, w, i);
                let given = slot(w, alias@[last as int] as int, w, last as int, i);
                lemma_total_update(s0, last as int, given);
                assert(settled(cutoff@, alias@, class, w, i) =~= s0.update(last as int, given));
                assert(total(s0) + pending(mass@, class0, i) == weights@[i] * n);
            }
        }
    }
    proof {
        let t = TableView { cutoffs: cutoff@, aliases: alias@, denominator: sum };
        assert forall|j: int| 0 <= j < n implies class[j] == 0 by {
            assert(class[j] != 1);
            assert(class[j] != 2);
        }
        assert forall|i: int| 0 <= i < n implies #[trigger] t.cutoffs[i] <= t.denominator by {
            assert(class[i] == 0);
        }
        assert forall|i: int| 0 <= i < n implies #[trigger] t.aliases[i] < t.len() by {
            assert(class[i] == 0);
        }
        assert forall|i: int| 0 <= i < n implies #[trigger] t.draws_to(i) == share(
            weights@,
            i,
        ) by {
            t.lemma_draws_counted(i);
            assert(t.outcome_masses(i) =~= settled(cutoff@, alias@, class, w, i));
            assert(total(settled(cutoff@, alias@, class, w, i)) + pending(mass@, class, i)
                == weights@[i] * n);
        }
    }
    (cutoff, alias)
}

} // verus!
