use crate::chance::sums::{lemma_total_update, lemma_total_zeros, total};
use vstd::prelude::*;

verus! {

/// The sum of all weights.
pub open spec fn weight_total(weights: Seq<u64>) -> int
    decreases weights.len(),
{
    if weights.len() == 0 {
        0
    } else {
        weight_total(weights.drop_last()) + weights.last()
    }
}

/// The denominator under which the cutoffs of a table for `weights` are read:
/// the sum of the weights, or 1 where every weight is zero.
pub open spec fn scale(weights: Seq<u64>) -> int {
    if weight_total(weights) > 0 {
        weight_total(weights)
    } else {
        1
    }
}

/// The number of draws owed to slot `i`, out of `weights.len() * scale(weights)`:
/// in proportion to its weight, or one for every slot where every weight is zero.
pub open spec fn share(weights: Seq<u64>, i: int) -> int {
    if weight_total(weights) > 0 {
        weights[i] * weights.len()
    } else {
        1
    }
}

/// Of the `denominator` coins that can fall on `column`, the number that end at `outcome`:
/// the coins below the cutoff stay on the column, the others go to its alias.
pub open spec fn slot(cutoff: int, alias: int, denominator: int, column: int, outcome: int) -> int {
    (if column == outcome {
        cutoff
    } else {
        0
    }) + (if alias == outcome {
        denominator - cutoff
    } else {
        0
    })
}

/// A sampling table as mathematical values: one cutoff and one alias per slot.
/// The cutoff of a slot is the numerator of a probability whose denominator
/// is `denominator`.
pub struct TableView {
    pub cutoffs: Seq<u128>,
    pub aliases: Seq<usize>,
    pub denominator: u128,
}

impl TableView {
    /// The number of slots.
    pub open spec fn len(self) -> nat {
        self.cutoffs.len()
    }

    /// There is at least one slot, every cutoff is a probability and every alias a slot.
    pub open spec fn valid(self) -> bool {
        &&& self.cutoffs.len() >= 1
        &&& self.aliases.len() == self.cutoffs.len()
        &&& self.denominator >= 1
        &&& forall|i: int|
            0 <= i < self.cutoffs.len() ==> #[trigger] self.cutoffs[i] <= self.denominator
        &&& forall|i: int| 0 <= i < self.aliases.len() ==> #[trigger] self.aliases[i] < self.len()
    }

    /// The slot that a draw ends at: `column` is the slot first hit, `coin` decides
    /// between it and its alias.
    pub open spec fn resolve(self, column: int, coin: int) -> int {
        if coin < self.cutoffs[column] {
            column
        } else {
            self.aliases[column] as int
        }
    }

    /// For each column, the number of coins below the denominator with which a
    /// draw that hits the column ends at `outcome`.
    pub open spec fn outcome_masses(self, outcome: int) -> Seq<int> {
        Seq::new(
            self.len(),
            |c: int|
                slot(
                    self.cutoffs[c] as int,
                    self.aliases[c] as int,
                    self.denominator as int,
                    c,
                    outcome,
                ),
        )
    }

    /// The sum of `outcome_masses(outcome)` over the columns.
    pub open spec fn outcome_mass(self, outcome: int) -> int {
        total(self.outcome_masses(outcome))
    }

    /// The number of coins below `k` with which a draw that hits `column` ends at `outcome`.
    pub open spec fn coins_to(self, column: int, outcome: int, k: int) -> int
        decreases k,
    {
        if k <= 0 {
            0
        } else {
            self.coins_to(column, outcome, k - 1) + if self.resolve(column, k - 1) == outcome {
                1int
            } else {
                0int
            }
        }
    }

    /// The number of draws `(column, coin)`, out of the `len() * denominator`
    /// draws with a column that is a slot and a coin below the denominator,
    /// that end at `outcome`. All these draws are equally likely, so this
    /// number over `len() * denominator` is the probability of `outcome`.
    pub open spec fn draws_to(self, outcome: int) -> int {
        total(Seq::new(self.len(), |c: int| self.coins_to(c, outcome, self.denominator as int)))
    }

    /// Of the coins below `k`, those below the cutoff keep the draw on the
    /// column and the others send it to the alias.
    pub proof fn lemma_coins_counted(self, column: int, outcome: int, k: int)
        requires
            0 <= k,
        ensures
            self.coins_to(column, outcome, k) == slot(
                if k <= self.cutoffs[column] {
                    k
                } else {
                    self.cutoffs[column] as int
                },
                self.aliases[column] as int,
                k,
                column,
                outcome,
            ),
        decreases k,
    {
        if k > 0 {
            self.lemma_coins_counted(column, outcome, k - 1);
        }
    }

    /// In a valid table, the draws that end at `outcome` are as many as the
    /// cutoffs and aliases give it.
    pub proof fn lemma_draws_counted(self, outcome: int)
        requires
            self.valid(),
        ensures
            self.draws_to(outcome) == self.outcome_mass(outcome),
    {
        let counted = Seq::new(
            self.len(),
            |c: int| self.coins_to(c, outcome, self.denominator as int),
        );
        assert forall|c: int| 0 <= c < self.len() implies counted[c] == self.outcome_masses(
            outcome,
        )[c] by {
            self.lemma_coins_counted(c, outcome, self.denominator as int);
        }
        assert(counted =~= self.outcome_masses(outcome));
    }

    /// The table samples in proportion to `weights`: it is valid, has one slot per
    /// weight, and every slot is the outcome of exactly its share of the draws.
    pub open spec fn fair_for(self, weights: Seq<u64>) -> bool {
        &&& self.valid()
        &&& self.len() == weights.len()
        &&& self.denominator == scale(weights)
        &&& forall|i: int|
            0 <= i < weights.len() ==> #[trigger] self.draws_to(i) == share(weights, i)
    }

    /// Slots of equal weight are drawn equally often.
    pub proof fn lemma_equal_weights_equal_draws(self, weights: Seq<u64>, i: int, j: int)
        requires
            self.fair_for(weights),
            0 <= i < weights.len(),
            0 <= j < weights.len(),
            weights[i] == weights[j],
        ensures
            self.draws_to(i) == self.draws_to(j),
    {
    }

    /// The draws of two slots are to each other as their weights, unless every weight is zero.
    pub proof fn lemma_draws_in_proportion(self, weights: Seq<u64>, i: int, j: int)
        requires
            self.fair_for(weights),
            0 <= i < weights.len(),
            0 <= j < weights.len(),
            weight_total(weights) > 0,
        ensures
            self.draws_to(i) * weights[j] == self.draws_to(j) * weights[i],
            self.draws_to(i) * weight_total(weights) == weights[i] * (self.len()
                * self.denominator),
    {
        let n = weights.len() as int;
        let a = weights[i] as int;
        let b = weights[j] as int;
        let w = weight_total(weights);
        assert((a * n) * b == (b * n) * a) by (nonlinear_arith);
        assert((a * n) * w == a * (n * w)) by (nonlinear_arith);
    }

    /// A slot of weight zero is never drawn, unless every weight is zero.
    pub proof fn lemma_zero_weight_no_draws(self, weights: Seq<u64>, i: int)
        requires
            self.fair_for(weights),
            0 <= i < weights.len(),
            weight_total(weights) > 0,
            weights[i] == 0,
        ensures
            self.draws_to(i) == 0,
    {
    }
}

/// No weight list of a length that fits the machine sums to more than a `u128` holds.
pub proof fn lemma_weight_total_bound(weights: Seq<u64>)
    ensures
        0 <= weight_total(weights) <= weights.len() * 0xffff_ffff_ffff_ffff,
    decreases weights.len(),
{
    if weights.len() > 0 {
        lemma_weight_total_bound(weights.drop_last());
        assert((weights.len() - 1) * 0xffff_ffff_ffff_ffff + 0xffff_ffff_ffff_ffff
            == weights.len() * 0xffff_ffff_ffff_ffff) by (nonlinear_arith);
    }
}

/// Adds up the weights.
pub fn sum_weights(weights: &Vec<u64>) -> (r: u128)
    ensures
        r == weight_total(weights@),
{
    let n: usize = weights.len();
    let mut acc: u128 = 0;
    let mut i: usize = 0;
    while i < n
        invariant
            n == weights.len(),
            0 <= i <= n,
            acc == weight_total(weights@.take(i as int)),
        decreases n - i,
    {
        proof {
            assert(weights@.take(i + 1).drop_last() =~= weights@.take(i as int));
            lemma_weight_total_bound(weights@.take(i + 1));
            assert((i + 1) * 0xffff_ffff_ffff_ffff <= 0xffff_ffff_ffff_ffff
                * 0xffff_ffff_ffff_ffff) by (nonlinear_arith)
                requires
                    0 <= i + 1 <= 0xffff_ffff_ffff_ffff,
            ;
        }
        acc = acc + weights[i] as u128;
        i = i + 1;
    }
    proof {
        assert(weights@.take(n as int) =~= weights@);
    }
    acc
}

/// The table for weights that are all zero: every slot keeps every draw that hits it.
pub fn uniform_tables(n: usize) -> (r: (Vec<u128>, Vec<usize>))
    requires
        n > 0,
    ensures
        r.0@.len() == n,
        r.1@.len() == n,
        forall|i: int| 0 <= i < n ==> r.0@[i] == 1 && r.1@[i] == 0,
{
    let mut cutoff: Vec<u128> = Vec::new();
    let mut alias: Vec<usize> = Vec::new();
    let mut i: usize = 0;
    while i < n
        invariant
            0 <= i <= n,
            cutoff.len() == i,
            alias.len() == i,
            forall|j: int| 0 <= j < i ==> cutoff@[j] == 1 && alias@[j] == 0,
        decreases n - i,
    {
        cutoff.push(1);
        alias.push(0);
        i = i + 1;
    }
    (cutoff, alias)
}

/// A table in which every slot keeps every draw gives each slot one draw per coin.
pub proof fn lemma_uniform_mass(t: TableView, outcome: int)
    requires
        0 <= outcome < t.len(),
        t.aliases.len() == t.len(),
        forall|i: int| 0 <= i < t.len() ==> t.cutoffs[i] == t.denominator,
    ensures
        t.outcome_mass(outcome) == t.denominator,
        t.valid() ==> t.draws_to(outcome) == t.denominator,
{
    if t.valid() {
        t.lemma_draws_counted(outcome);
    }
    let zeros = Seq::new(t.len(), |c: int| 0int);
    lemma_total_zeros(zeros);
    lemma_total_update(zeros, outcome, t.denominator as int);
    assert(t.outcome_masses(outcome) =~= zeros.update(outcome, t.denominator as int));
}

} // verus!
