use crate::chance::draw::draw_below;
use crate::chance::balance::balance;
use crate::chance::tables::{
    lemma_uniform_mass, lemma_weight_total_bound, share, sum_weights, uniform_tables,
    weight_total, TableView,
};
use vstd::prelude::*;

verus! {

/// Why no picker was built.
#[derive(Debug, Clone, Copy, PartialEq, Eq)]
pub enum PickerError {
    /// The list of entries was empty.
    InvalidInput,
}

/// The items of a list of entries, in order.
pub open spec fn entry_items<T>(entries: Seq<(T, u64)>) -> Seq<T> {
    Seq::new(entries.len(), |i: int| entries[i].0)
}

/// The weights of a list of entries, in order.
pub open spec fn entry_weights<T>(entries: Seq<(T, u64)>) -> Seq<u64> {
    Seq::new(entries.len(), |i: int| entries[i].1)
}

/// A weighted bag: entries with weights, sampled in proportion to the weights.
///
/// The bag is built once, with one slot per entry, and drawn from in constant
/// time by the alias method. The weights are whole numbers; the cutoff of a
/// slot is the numerator of its probability over the table's denominator, so
/// every step is exact. The weights cannot be changed afterwards; the items can.
#[derive(Debug)]
pub struct WeightedPicker<T> {
    prob: Vec<u128>,
    alias: Vec<usize>,
    items: Vec<T>,
    denom: u128,
}

/// Parts a list of entries into its items and its weights, keeping the order.
pub fn split_entries<T>(entries: Vec<(T, u64)>) -> (r: (Vec<T>, Vec<u64>))
    ensures
        r.0@ == entry_items(entries@),
        r.1@ == entry_weights(entries@),
{
    let mut items: Vec<T> = Vec::new();
    let mut weights: Vec<u64> = Vec::new();
    let ghost all = entries@;
    for entry in it: entries.into_iter()
        invariant
            it.seq() == all,
            items@.len() == it.index(),
            weights@.len() == it.index(),
            forall|k: int| 0 <= k < items@.len() ==> #[trigger] items@[k] == it.seq()[k].0,
            forall|k: int| 0 <= k < weights@.len() ==> #[trigger] weights@[k] == it.seq()[k].1,
    {
        let (item, weight) = entry;
        items.push(item);
        weights.push(weight);
    }
    proof {
        assert(items@ =~= entry_items(all));
        assert(weights@ =~= entry_weights(all));
    }
    (items, weights)
}

impl<T: Clone> Clone for WeightedPicker<T> {
    /// A picker with the same table and a clone of each item.
    fn clone(&self) -> (r: Self)
        ensures
            r.table() == self.table(),
            r.len() == self.len(),
            forall|i: int| 0 <= i < self.len() ==> cloned(self.items()[i], #[trigger] r.items()[i]),
    {
        proof {
            use_type_invariant(self);
        }
        let prob = self.prob.clone();
        let alias = self.alias.clone();
        let items = self.items.clone();
        proof {
            assert(prob@ =~= self.prob@);
            assert(alias@ =~= self.alias@);
        }
        WeightedPicker { prob, alias, items, denom: self.denom }
    }
}

impl<T> WeightedPicker<T> {
    #[verifier::type_invariant]
    spec fn inv(&self) -> bool {
        &&& self.table().valid()
        &&& self.items@.len() == self.prob@.len()
    }

    /// The items, slot by slot.
    pub closed spec fn items(&self) -> Seq<T> {
        self.items@
    }

    /// The sampling table.
    pub closed spec fn table(&self) -> TableView {
        TableView { cutoffs: self.prob@, aliases: self.alias@, denominator: self.denom }
    }

    /// The number of slots.
    pub open spec fn len(&self) -> nat {
        self.items().len()
    }

    /// The picker holds the items of `entries` in their order and samples them
    /// in proportion to their weights.
    pub open spec fn built_from(&self, entries: Seq<(T, u64)>) -> bool {
        &&& self.items() == entry_items(entries)
        &&& self.table().fair_for(entry_weights(entries))
    }

    /// Some draw ends at slot `i`.
    pub open spec fn may_yield(&self, i: int) -> bool {
        exists|column: int, coin: int|
            0 <= column < self.len() && 0 <= coin < self.table().denominator && i
                == #[trigger] self.table().resolve(column, coin)
    }

    /// A picker built from a list of entries has one slot per entry; every
    /// cutoff is a probability, at most the denominator, and every alias is a slot.
    pub proof fn lemma_built_table_valid(&self, entries: Seq<(T, u64)>)
        requires
            self.built_from(entries),
        ensures
            self.len() == entries.len(),
            self.table().len() == entries.len(),
            self.table().denominator >= 1,
            forall|i: int|
                0 <= i < entries.len() ==> 0 <= #[trigger] self.table().cutoffs[i]
                    <= self.table().denominator,
            forall|i: int|
                0 <= i < entries.len() ==> 0 <= #[trigger] self.table().aliases[i] < entries.len(),
    {
    }

    /// Building keeps the order: slot `i` holds the item of entry `i`.
    pub proof fn lemma_slots_keep_order(&self, entries: Seq<(T, u64)>, i: int)
        requires
            self.built_from(entries),
            0 <= i < entries.len(),
        ensures
            self.items()[i] == entries[i].0,
    {
    }

    /// Every draw from a picker built from a list of entries ends at a slot.
    pub proof fn lemma_draws_stay_in_range(&self, entries: Seq<(T, u64)>, i: int)
        requires
            self.built_from(entries),
            self.may_yield(i),
        ensures
            0 <= i < entries.len(),
    {
    }

    /// From a picker built from a single entry, every draw ends at that entry.
    pub proof fn lemma_single_entry(&self, entries: Seq<(T, u64)>, i: int)
        requires
            self.built_from(entries),
            entries.len() == 1,
            self.may_yield(i),
        ensures
            i == 0,
            self.items()[i] == entries[0].0,
    {
    }

    /// In a picker built from a list of entries, the number of draws that end
    /// at a slot is in proportion to the weight of its entry: the slot's
    /// weight times the number of slots, out of the number of slots times the
    /// sum of the weights. Where every weight is zero, each slot has one draw
    /// out of as many as there are slots.
    pub proof fn lemma_draws_follow_weights(&self, entries: Seq<(T, u64)>, i: int)
        requires
            self.built_from(entries),
            0 <= i < entries.len(),
        ensures
            weight_total(entry_weights(entries)) > 0 ==> self.table().denominator == weight_total(
                entry_weights(entries),
            ) && self.table().draws_to(i) == entries[i].1 * entries.len(),
            weight_total(entry_weights(entries)) == 0 ==> self.table().denominator == 1
                && self.table().draws_to(i) == 1,
    {
        lemma_weight_total_bound(entry_weights(entries));
        assert(self.table().draws_to(i) == share(entry_weights(entries), i));
    }

    /// Builds a picker from items and their weights.
    ///
    /// An empty list is refused. Weights of zero are in order: such an item is
    /// never drawn, unless every weight is zero, in which case all items are
    /// equally likely.
    pub fn new(entries: Vec<(T, u64)>) -> (r: Result<Self, PickerError>)
        ensures
            entries@.len() == 0 ==> r == Err::<Self, PickerError>(PickerError::InvalidInput),
            entries@.len() > 0 ==> r is Ok && r->Ok_0.built_from(entries@),
            r is Ok ==> r->Ok_0.table().valid() && r->Ok_0.table().len() == entries@.len(),
    {
        if entries.len() == 0 {
            return Err(PickerError::InvalidInput);
        }
        let ghost all = entries@;
        let (items, weights) = split_entries(entries);
        let sum: u128 = sum_weights(&weights);
        if sum == 0 {
            let (prob, alias) = uniform_tables(weights.len());
            let picker = WeightedPicker { prob, alias, items, denom: 1 };
            proof {
                let t = picker.table();
                assert forall|i: int| 0 <= i < t.len() implies #[trigger] t.draws_to(i)
                    == 1 by {
                    lemma_uniform_mass(t, i);
                }
            }
            Ok(picker)
        } else {
            let (prob, alias) = balance(&weights, sum);
            Ok(WeightedPicker { prob, alias, items, denom: sum })
        }
    }

    /// The slot at which a draw ends: the column that was hit where the coin is
    /// below its cutoff, the column's alias otherwise.
    pub fn resolve(&self, column: usize, coin: u128) -> (r: usize)
        requires
            column < self.len(),
        ensures
            r == self.table().resolve(column as int, coin as int),
            r < self.len(),
            self.table().valid(),
            self.table().len() == self.len(),
    {
        proof {
            use_type_invariant(self);
        }
        if coin < self.prob[column] {
            column
        } else {
            self.alias[column]
        }
    }

    /// Draws a slot: a column and a coin, both uniform, decide.
    pub fn get_idx<R: rand::Rng + ?Sized>(&self, rng: &mut R) -> (r: usize)
        ensures
            r < self.len(),
            self.may_yield(r as int),
            self.table().valid(),
            self.table().len() == self.len(),
    {
        proof {
            use_type_invariant(self);
        }
        let n: usize = self.prob.len();
        let column: usize = draw_below(rng, n as u128) as usize;
        let coin: u128 = draw_below(rng, self.denom);
        self.resolve(column, coin)
    }

    /// Draws an item.
    pub fn get<R: rand::Rng + ?Sized>(&self, rng: &mut R) -> (r: &T)
        ensures
            exists|i: int| 0 <= i < self.len() && self.may_yield(i) && *r == self.items()[i],
    {
        let idx: usize = self.get_idx(rng);
        &self.items[idx]
    }

    /// The item of a slot, without a draw; none where there is no such slot.
    pub fn get_by_idx(&self, idx: usize) -> (r: Option<&T>)
        ensures
            idx < self.len() ==> r == Some(&self.items()[idx as int]),
            idx >= self.len() ==> r is None,
    {
        if idx < self.items.len() {
            Some(&self.items[idx])
        } else {
            None
        }
    }

    /// The item of a slot, to be changed in place; none where there is no such slot.
    ///
    /// Whatever is written through the reference, the other items stay and the
    /// sampling table stays: the slot is drawn as often as before.
    pub fn get_mut_by_idx(&mut self, idx: usize) -> (r: Option<&mut T>)
        ensures
            final(self).table() == old(self).table(),
            idx >= old(self).len() ==> r is None && final(self).items() == old(self).items(),
            idx < old(self).len() ==> r is Some && *r.unwrap() == old(self).items()[idx as int]
                && final(self).items() == old(self).items().update(
                idx as int,
                *final(r.unwrap()),
            ),
    {
        proof {
            use_type_invariant(&*self);
        }
        if idx < self.items.len() {
            Some(&mut self.items[idx])
        } else {
            None
        }
    }

    /// Builds a picker, draws once, and hands out the item drawn.
    pub fn pick<R: rand::Rng + ?Sized>(entries: Vec<(T, u64)>, rng: &mut R) -> (r: Result<
        T,
        PickerError,
    >)
        ensures
            entries@.len() == 0 ==> r == Err::<T, PickerError>(PickerError::InvalidInput),
            entries@.len() > 0 ==> r is Ok && exists|p: Self, i: int|
                p.built_from(entries@) && 0 <= i < p.len() && p.may_yield(i) && r->Ok_0
                    == p.items()[i],
    {
        match Self::new(entries) {
            Err(e) => Err(e),
            Ok(picker) => {
                let idx: usize = picker.get_idx(rng);
                let ghost p = picker;
                let WeightedPicker { items, .. } = picker;
                let mut items = items;
                let item = items.remove(idx);
                proof {
                    assert(p.built_from(entries@) && p.may_yield(idx as int) && item
                        == p.items()[idx as int]);
                }
                Ok(item)
            },
        }
    }
}

} // verus!
