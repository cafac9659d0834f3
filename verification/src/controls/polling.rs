use crate::controls::handler::InputHandler;
use std::collections::HashMap;
use std::collections::HashSet;
use std::hash::Hash;
use vstd::prelude::*;
use vstd::std_specs::hash::obeys_key_model;
use vstd::std_specs::iter::IteratorSpec;

verus! {

broadcast use vstd::std_specs::hash::group_hash_axioms;

/// The timers after the bindings of `walk` were visited in order: each one
/// adds a frame to the timer of its control if its input is pressed, and
/// sets that timer back to zero if it is not.
pub open spec fn counted<I>(times: Seq<int>, walk: Seq<(I, usize)>, pressed: Set<I>) -> Seq<int>
    decreases walk.len(),
{
    if walk.len() == 0 {
        times
    } else {
        let before = counted(times, walk.drop_last(), pressed);
        let control = walk.last().1 as int;
        if pressed.contains(walk.last().0) {
            before.update(control, before[control] + 1)
        } else {
            before.update(control, 0)
        }
    }
}

/// A walk changes no timer by more than its length, and keeps the number of timers.
pub proof fn lemma_counted_bounds<I>(times: Seq<int>, walk: Seq<(I, usize)>, pressed: Set<I>)
    requires
        forall|i: int| 0 <= i < walk.len() ==> (#[trigger] walk[i]).1 < times.len(),
        forall|c: int| 0 <= c < times.len() ==> 0 <= #[trigger] times[c],
    ensures
        counted(times, walk, pressed).len() == times.len(),
        forall|c: int|
            0 <= c < times.len() ==> 0 <= #[trigger] counted(times, walk, pressed)[c] <= times[c]
                + walk.len(),
    decreases walk.len(),
{
    if walk.len() > 0 {
        let shorter = walk.drop_last();
        assert forall|i: int| 0 <= i < shorter.len() implies (#[trigger] shorter[i]).1
            < times.len() by {
            assert(shorter[i] == walk[i]);
        }
        lemma_counted_bounds(times, shorter, pressed);
        assert(walk.last() == walk[walk.len() - 1]);
    }
}

/// Polling-based input handler, for engines that are asked each frame which
/// inputs are pressed.
pub struct PollingInputHandler<I: Hash + Eq + PartialEq + Clone> {
    /// Maps inputs to the controls they activate
    control_config: HashMap<I, usize>,
    /// How long each control has been pressed
    input_time: Vec<u32>,
    /// If this is Some, we're waiting for a new control config.
    listening_for_input: Option<usize>,
}

impl<I: Hash + Eq + PartialEq + Clone> PollingInputHandler<I> {
    /// Every input is bound to a control that has a timer, and so is the
    /// control that waits for an input, if one does.
    pub closed spec fn wf(&self) -> bool {
        &&& self.listening_for_input matches Some(c) ==> c < self.input_time@.len()
        &&& forall|k: I| #[trigger]
            self.control_config@.contains_key(k) ==> self.control_config@[k]
                < self.input_time@.len()
    }

    /// The control that each input activates.
    pub closed spec fn bindings(&self) -> Map<I, usize> {
        self.control_config@
    }

    /// For each control, for how many frames in a row it has been held.
    pub closed spec fn times(&self) -> Seq<u32> {
        self.input_time@
    }

    /// The timers as mathematical integers.
    pub open spec fn frames(&self) -> Seq<int> {
        Seq::new(self.times().len(), |c: int| self.times()[c] as int)
    }

    /// The control that waits for a new input, if one does.
    pub closed spec fn listening(&self) -> Option<usize> {
        self.listening_for_input
    }

    /// Whether every input of `config` activates one of `n` controls.
    pub open spec fn config_fits(config: Map<I, usize>, n: nat) -> bool {
        forall|k: I| #[trigger] config.contains_key(k) ==> config[k] < n
    }

    /// Whether `key` is a clone of one of the inputs in `pressed`.
    pub open spec fn clone_of_one(pressed: Set<I>, key: I) -> bool {
        exists|input: I| #[trigger] pressed.contains(input) && cloned(input, key)
    }

    /// Whether `walk` visits every binding once.
    pub open spec fn walks(&self, walk: Seq<(I, usize)>) -> bool {
        &&& walk.no_duplicates()
        &&& walk.len() == self.bindings().dom().len()
        &&& forall|i: int|
            0 <= i < walk.len() ==> self.bindings().contains_key((#[trigger] walk[i]).0)
                && self.bindings()[walk[i].0] == walk[i].1
        &&& forall|k: I| #[trigger]
            self.bindings().contains_key(k) ==> walk.contains((k, self.bindings()[k]))
    }

    /// Whether a frame can be counted: no timer is so high that one more
    /// frame for each binding would be more than it can count.
    pub open spec fn can_update(&self) -> bool {
        self.listening() is None ==> forall|c: int|
            0 <= c < self.times().len() ==> (#[trigger] self.times()[c])
                + self.bindings().dom().len() <= u32::MAX
    }

    /// A handler for `n_controls` controls without any input bound to them.
    pub fn new_empty(n_controls: usize) -> (r: Self)
        ensures
            r.wf(),
            r.bindings() == Map::<I, usize>::empty(),
            r.listening() is None,
            r.times().len() == n_controls,
            forall|c: int| 0 <= c < n_controls ==> r.times()[c] == 0,
    {
        Self::new(n_controls, HashMap::new())
    }

    /// A handler for `n_controls` controls. The map says which control each
    /// input activates.
    pub fn new(n_controls: usize, control_config: HashMap<I, usize>) -> (r: Self)
        requires
            Self::config_fits(control_config@, n_controls as nat),
        ensures
            r.wf(),
            r.bindings() == control_config@,
            r.listening() is None,
            r.times().len() == n_controls,
            forall|c: int| 0 <= c < n_controls ==> r.times()[c] == 0,
    {
        let mut input_time: Vec<u32> = Vec::new();
        let mut i: usize = 0;
        while i < n_controls
            invariant
                0 <= i <= n_controls,
                input_time@.len() == i,
                forall|c: int| 0 <= c < i ==> input_time@[c] == 0,
            decreases n_controls - i,
        {
            input_time.push(0);
            i = i + 1;
        }
        Self { control_config, input_time, listening_for_input: None }
    }

    /// Whether `after` is this handler one frame on, with the inputs in
    /// `pressed` pressed.
    ///
    /// Unless a control waits for a new input, every binding has been visited
    /// once, in some order: a binding whose input is pressed added a frame to
    /// the timer of its control, and one whose input is not pressed set that
    /// timer back to zero. Where a control waits for a new input and an input
    /// is pressed, a clone of one of the pressed inputs has been bound to that
    /// control, and the wait is over.
    pub open spec fn frame_counted(&self, after: &Self, pressed: Set<I>) -> bool {
        &&& after.times().len() == self.times().len()
        &&& self.listening() is None ==> after.bindings() == self.bindings()
            && after.listening() is None && exists|walk: Seq<(I, usize)>| #[trigger]
            self.walks(walk) && after.frames() == counted(self.frames(), walk, pressed)
        &&& self.listening() is Some ==> after.times() == self.times()
        &&& self.listening() is Some && pressed.len() == 0 ==> after.bindings()
            == self.bindings() && after.listening() == self.listening()
        &&& self.listening() matches Some(c) ==> (pressed.len() > 0 ==> after.listening() is None
            && exists|key: I| #[trigger]
            Self::clone_of_one(pressed, key) && after.bindings() == self.bindings().insert(
                key,
                c,
            ))
    }

    /// Counts a frame, if the timers can count one more for every binding:
    /// says whether it did, and changes nothing where it did not.
    pub fn try_update(&mut self, new_inputs: &HashSet<I>) -> (counted: bool)
        requires
            old(self).wf(),
            obeys_key_model::<I>(),
        ensures
            final(self).wf(),
            counted == old(self).can_update(),
            counted ==> old(self).frame_counted(final(self), new_inputs@),
            !counted ==> *final(self) == *old(self),
    {
        if self.listening_for_input.is_none() {
            let bound: usize = self.control_config.len();
            let n: usize = self.input_time.len();
            let mut i: usize = 0;
            while i < n
                invariant
                    0 <= i <= n,
                    *self == *old(self),
                    self.listening_for_input is None,
                    self.wf(),
                    n == self.input_time@.len(),
                    bound == self.control_config@.dom().len(),
                    forall|c: int|
                        0 <= c < i ==> (#[trigger] self.input_time@[c]) + bound <= u32::MAX,
                decreases n - i,
            {
                if self.input_time[i] as u128 + bound as u128 > u32::MAX as u128 {
                    assert(old(self).times()[i as int] + old(self).bindings().dom().len()
                        > u32::MAX);
                    return false;
                }
                i = i + 1;
            }
        }
        self.update(new_inputs);
        true
    }

    /// Counts a frame. Call this first thing in the game loop, with the
    /// inputs that are pressed.
    ///
    /// Unless a control waits for a new input, every binding is visited once,
    /// in the order in which the map hands them out: a binding whose input is
    /// pressed adds a frame to the timer of its control, and one whose input
    /// is not pressed sets that timer back to zero. Where a control waits for
    /// a new input and an input is pressed, a clone of one of the pressed
    /// inputs is bound to that control, and the wait is over.
    pub fn update(&mut self, new_inputs: &HashSet<I>)
        requires
            old(self).wf(),
            old(self).can_update(),
            obeys_key_model::<I>(),
        ensures
            final(self).wf(),
            old(self).frame_counted(final(self), new_inputs@),
    {
        match self.listening_for_input {
            None => {
                let ghost start = self.frames();
                let ghost n = self.input_time@.len();
                let ghost full = vstd::std_specs::hash::spec_hash_map_iter(
                    &self.control_config,
                ).remaining();
                for pair in it: self.control_config.iter()
                    invariant
                        old(self).wf(),
                        old(self).can_update(),
                        old(self).listening_for_input is None,
                        obeys_key_model::<I>(),
                        start == old(self).frames(),
                        n == old(self).input_time@.len(),
                        self.input_time@.len() == n,
                        self.control_config@ == old(self).control_config@,
                        self.listening_for_input == old(self).listening_for_input,
                        it.seq() == full,
                        it.seq().len() == old(self).control_config@.dom().len(),
                        it.seq().no_duplicates(),
                        forall|i: int|
                            0 <= i < it.seq().len() ==> old(self).control_config@.contains_key(
                                *(#[trigger] it.seq()[i]).0,
                            ) && old(self).control_config@[*it.seq()[i].0] == *it.seq()[i].1,
                        self.frames() == counted(
                            start,
                            it.seq().unref().take(it.index() as int),
                            new_inputs@,
                        ),
                {
                    let (input, control) = pair;
                    let c: usize = *control;
                    proof {
                        let walk = it.seq().unref();
                        let k = it.index() as int;
                        assert(walk.take(k + 1).drop_last() =~= walk.take(k));
                        assert(walk.take(k + 1).last() == (*input, c));
                        assert forall|i: int| 0 <= i < walk.take(k).len() implies (
                        #[trigger] walk.take(k)[i]).1 < start.len() by {
                            assert(old(self).control_config@.contains_key(*it.seq()[i].0));
                        }
                        lemma_counted_bounds(start, walk.take(k), new_inputs@);
                        assert(old(self).control_config@.contains_key(*it.seq()[k].0));
                        assert(self.frames()[c as int] <= start[c as int] + k);
                        assert(old(self).times()[c as int] == start[c as int]);
                    }
                    if new_inputs.contains(input) {
                        let t: u32 = self.input_time[c];
                        self.input_time.set(c, t + 1);
                    } else {
                        self.input_time.set(c, 0);
                    }
                    proof {
                        let walk = it.seq().unref();
                        let k = it.index() as int;
                        assert(self.frames() =~= counted(start, walk.take(k + 1), new_inputs@));
                    }
                }
                proof {
                    let walk = full.unref();
                    let m = old(self).control_config@;
                    assert(walk.take(walk.len() as int) =~= walk);
                    assert forall|i: int, j: int|
                        0 <= i < walk.len() && 0 <= j < walk.len() && i != j implies walk[i]
                        != walk[j] by {
                        assert(full[i] != full[j]);
                    }
                    assert forall|k: I| #[trigger] m.contains_key(k) implies walk.contains(
                        (k, m[k]),
                    ) by {
                        assert(full.contains((&k, &m[k])));
                        let i = choose|i: int| 0 <= i < full.len() && full[i] == (&k, &m[k]);
                        assert(walk[i] == (k, m[k]));
                    }
                    assert(old(self).walks(walk));
                }
            },
            Some(ctrl) => {
                let mut found: Option<I> = None;
                for input in it: new_inputs.iter()
                    invariant_except_break
                        found is None,
                        it.index() == 0,
                    invariant
                        obeys_key_model::<I>(),
                        it.seq().len() == new_inputs@.len(),
                        it.seq().unref().to_set() == new_inputs@,
                    ensures
                        found is None ==> new_inputs@.len() == 0,
                        found is Some ==> Self::clone_of_one(new_inputs@, found.unwrap()),
                {
                    proof {
                        let at = it.index() as int;
                        assert(it.seq().unref()[at] == *input);
                        assert(it.seq().unref().to_set().contains(*input));
                    }
                    let key: I = input.clone();
                    assert(new_inputs@.contains(*input) && cloned(*input, key));
                    found = Some(key);
                    break ;
                }
                match found {
                    Some(key) => {
                        self.control_config.insert(key, ctrl);
                        self.listening_for_input = None;
                    },
                    None => {},
                }
            },
        }
    }
}

impl<I: Hash + Eq + PartialEq + Clone> InputHandler for PollingInputHandler<I> {
    open spec fn controls(&self) -> nat {
        self.times().len()
    }

    open spec fn held_for(&self, control: int) -> nat {
        self.times()[control] as nat
    }

    fn pressed(&self, control: usize) -> (r: bool) {
        self.input_time[control] >= 1
    }

    fn released(&self, control: usize) -> (r: bool) {
        self.input_time[control] == 0
    }

    fn clicked_down(&self, control: usize) -> (r: bool) {
        self.input_time[control] == 1
    }
}

} // verus!
