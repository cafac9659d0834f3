use crate::controls::handler::InputHandler;
use std::collections::HashMap;
use std::hash::Hash;
use vstd::prelude::*;
use vstd::std_specs::hash::obeys_key_model;

verus! {

broadcast use vstd::std_specs::hash::group_hash_axioms;

/// Event-based input handler, for engines that report each key as it goes
/// down and up.
pub struct EventInputHandler<I: Hash + Eq + PartialEq + Clone> {
    /// Maps inputs to the controls they activate
    control_config: HashMap<I, usize>,
    /// How long each control has been pressed
    input_time: Vec<u32>,
    /// If this is Some, we're waiting for a new control config.
    listening_for_input: Option<usize>,
    /// Which controls are down by the events we've gotten
    pressed_controls: Vec<bool>,
}

impl<I: Hash + Eq + PartialEq + Clone> EventInputHandler<I> {
    /// Every control has a timer, and every input is bound to a control that
    /// has one.
    pub closed spec fn wf(&self) -> bool {
        &&& self.pressed_controls@.len() == self.input_time@.len()
        &&& self.listening_for_input matches Some(c) ==> c < self.input_time@.len()
        &&& forall|k: I| #[trigger]
            self.control_config@.contains_key(k) ==> self.control_config@[k]
                < self.input_time@.len()
    }

    /// The control that each input activates.
    pub closed spec fn bindings(&self) -> Map<I, usize> {
        self.control_config@
    }

    /// For each control, for how many frames in a row it has been held.
    pub closed spec fn times(&self) -> Seq<u32> {
        self.input_time@
    }

    /// For each control, whether the events so far leave it down.
    pub closed spec fn down(&self) -> Seq<bool> {
        self.pressed_controls@
    }

    /// The control that waits for a new input, if one does.
    pub closed spec fn listening(&self) -> Option<usize> {
        self.listening_for_input
    }

    /// Whether every input of `config` activates one of `n` controls.
    pub open spec fn config_fits(config: Map<I, usize>, n: nat) -> bool {
        forall|k: I| #[trigger] config.contains_key(k) ==> config[k] < n
    }

    /// Whether a frame can be counted: no control that is down has been held for
    /// as many frames as a timer can count.
    pub open spec fn can_update(&self) -> bool {
        self.listening() is None ==> forall|c: int|
            0 <= c < self.times().len() && #[trigger] self.down()[c] ==> self.times()[c]
                < u32::MAX
    }

    /// A handler for `n_controls` controls without any input bound to them.
    pub fn new_empty(n_controls: usize) -> (r: Self)
        ensures
            r.wf(),
            r.bindings() == Map::<I, usize>::empty(),
            r.listening() is None,
            r.times().len() == n_controls,
            r.down().len() == n_controls,
            forall|c: int| 0 <= c < n_controls ==> r.times()[c] == 0 && !r.down()[c],
    {
        Self::new(n_controls, HashMap::new())
    }

    /// A handler for `n_controls` controls. The map says which control each
    /// input activates.
    pub fn new(n_controls: usize, control_config: HashMap<I, usize>) -> (r: Self)
        requires
            Self::config_fits(control_config@, n_controls as nat),
        ensures
            r.wf(),
            r.bindings() == control_config@,
            r.listening() is None,
            r.times().len() == n_controls,
            r.down().len() == n_controls,
            forall|c: int| 0 <= c < n_controls ==> r.times()[c] == 0 && !r.down()[c],
    {
        let mut input_time: Vec<u32> = Vec::new();
        let mut pressed_controls: Vec<bool> = Vec::new();
        let mut i: usize = 0;
        while i < n_controls
            invariant
                0 <= i <= n_controls,
                input_time@.len() == i,
                pressed_controls@.len() == i,
                forall|c: int| 0 <= c < i ==> input_time@[c] == 0 && !pressed_controls@[c],
            decreases n_controls - i,
        {
            input_time.push(0);
            pressed_controls.push(false);
            i = i + 1;
        }
        Self { control_config, input_time, listening_for_input: None, pressed_controls }
    }

    /// Call this when the engine reports that an input went down.
    ///
    /// Where a control waits for a new input, this input is bound to it and
    /// the wait is over. Otherwise the control that the input activates, if
    /// there is one, is down from now on.
    pub fn input_down(&mut self, input: I)
        requires
            old(self).wf(),
            obeys_key_model::<I>(),
        ensures
            final(self).wf(),
            final(self).times() == old(self).times(),
            old(self).listening() matches Some(c) ==> final(self).bindings() == old(
                self
            ).bindings().insert(input, c) && final(self).down() == old(self).down(),
            old(self).listening() is None ==> final(self).bindings() == old(self).bindings()
                && final(self).down() == (if old(self).bindings().contains_key(input) {
                old(self).down().update(old(self).bindings()[input] as int, true)
            } else {
                old(self).down()
            }),
            final(self).listening() is None,
    {
        match self.listening_for_input {
            None => {
                match self.control_config.get(&input) {
                    Some(control) => {
                        let c: usize = *control;
                        assert(self.control_config@.contains_key(input));
                        self.pressed_controls.set(c, true);
                    },
                    None => {},
                }
            },
            Some(ctrl) => {
                self.control_config.insert(input, ctrl);
                self.listening_for_input = None;
            },
        }
    }

    /// Call this when the engine reports that an input went up: the control
    /// that the input activates, if there is one, is up from now on.
    pub fn input_up(&mut self, input: I)
        requires
            old(self).wf(),
            obeys_key_model::<I>(),
        ensures
            final(self).wf(),
            final(self).times() == old(self).times(),
            final(self).bindings() == old(self).bindings(),
            final(self).listening() == old(self).listening(),
            final(self).down() == (if old(self).bindings().contains_key(input) {
                old(self).down().update(old(self).bindings()[input] as int, false)
            } else {
                old(self).down()
            }),
    {
        match self.control_config.get(&input) {
            Some(control) => {
                let c: usize = *control;
                assert(self.control_config@.contains_key(input));
                self.pressed_controls.set(c, false);
            },
            None => {},
        }
    }

    /// Forgets every event so far: no control is down.
    pub fn clear_inputs(&mut self)
        requires
            old(self).wf(),
        ensures
            final(self).wf(),
            final(self).times() == old(self).times(),
            final(self).bindings() == old(self).bindings(),
            final(self).listening() == old(self).listening(),
            final(self).down().len() == old(self).down().len(),
            forall|c: int| 0 <= c < final(self).down().len() ==> !final(self).down()[c],
    {
        let n: usize = self.pressed_controls.len();
        let mut i: usize = 0;
        while i < n
            invariant
                0 <= i <= n,
                old(self).wf(),
                self.pressed_controls@.len() == n,
                self.input_time@ == old(self).input_time@,
                self.control_config@ == old(self).control_config@,
                self.listening_for_input == old(self).listening_for_input,
                forall|c: int| 0 <= c < i ==> !self.pressed_controls@[c],
            decreases n - i,
        {
            self.pressed_controls.set(i, false);
            i = i + 1;
        }
    }

    /// Whether `after` is this handler one frame on: unless a control waits
    /// for a new input, the timer of every control that is down has gone up
    /// by one, and that of every other control back to zero.
    pub open spec fn frame_counted(&self, after: &Self) -> bool {
        &&& after.bindings() == self.bindings()
        &&& after.listening() == self.listening()
        &&& after.down() == self.down()
        &&& after.times().len() == self.times().len()
        &&& self.listening() is Some ==> after.times() == self.times()
        &&& self.listening() is None ==> forall|c: int|
            0 <= c < self.times().len() ==> #[trigger] after.times()[c] == (if self.down()[c] {
                self.times()[c] + 1
            } else {
                0
            })
    }

    /// Counts a frame, if the timers can count one more: says whether it did,
    /// and changes nothing where it did not.
    pub fn try_update(&mut self) -> (counted: bool)
        requires
            old(self).wf(),
        ensures
            final(self).wf(),
            counted == old(self).can_update(),
            counted ==> old(self).frame_counted(final(self)),
            !counted ==> *final(self) == *old(self),
    {
        if self.listening_for_input.is_none() {
            let n: usize = self.input_time.len();
            let mut i: usize = 0;
            while i < n
                invariant
                    0 <= i <= n,
                    *self == *old(self),
                    self.listening_for_input is None,
                    self.wf(),
                    n == self.input_time@.len(),
                    forall|c: int|
                        0 <= c < i && #[trigger] self.pressed_controls@[c] ==> self.input_time@[c]
                            < u32::MAX,
                decreases n - i,
            {
                if self.pressed_controls[i] && self.input_time[i] == u32::MAX {
                    assert(old(self).down()[i as int] && old(self).times()[i as int] == u32::MAX);
                    return false;
                }
                i = i + 1;
            }
        }
        self.update();
        true
    }

    /// Counts a frame. Call this first thing in the game loop.
    ///
    /// Unless a control waits for a new input, the timer of every control that
    /// is down goes up by one, and that of every other control back to zero.
    pub fn update(&mut self)
        requires
            old(self).wf(),
            old(self).can_update(),
        ensures
            final(self).wf(),
            old(self).frame_counted(final(self)),
    {
        if self.listening_for_input.is_none() {
            let n: usize = self.input_time.len();
            let mut i: usize = 0;
            while i < n
                invariant
                    0 <= i <= n,
                    old(self).wf(),
                    self.input_time@.len() == n,
                    self.pressed_controls@ == old(self).pressed_controls@,
                    self.pressed_controls@.len() == n,
                    self.control_config@ == old(self).control_config@,
                    self.listening_for_input == old(self).listening_for_input,
                    old(self).can_update(),
                    old(self).listening_for_input is None,
                    forall|c: int|
                        0 <= c < i ==> #[trigger] self.input_time@[c] == (if old(
                            self
                        ).pressed_controls@[c] {
                            old(self).input_time@[c] + 1
                        } else {
                            0
                        }),
                    forall|c: int| i <= c < n ==> self.input_time@[c] == old(self).input_time@[c],
                decreases n - i,
            {
                if self.pressed_controls[i] {
                    let t: u32 = self.input_time[i];
                    assert(old(self).down()[i as int] && old(self).times()[i as int] == t);
                    self.input_time.set(i, t + 1);
                } else {
                    self.input_time.set(i, 0);
                }
                i = i + 1;
            }
        }
    }
}

impl<I: Hash + Eq + PartialEq + Clone> InputHandler for EventInputHandler<I> {
    open spec fn controls(&self) -> nat {
        self.times().len()
    }

    open spec fn held_for(&self, control: int) -> nat {
        self.times()[control] as nat
    }

    fn pressed(&self, control: usize) -> (r: bool) {
        self.input_time[control] >= 1
    }

    fn released(&self, control: usize) -> (r: bool) {
        self.input_time[control] == 0
    }

    fn clicked_down(&self, control: usize) -> (r: bool) {
        self.input_time[control] == 1
    }
}

impl<I: Hash + Eq + PartialEq + Clone> Clone for EventInputHandler<I> {
    /// A handler in the same state.
    fn clone(&self) -> (r: Self)
        ensures
            self.wf() ==> r.wf(),
            r.bindings() == self.bindings(),
            r.times() == self.times(),
            r.down() == self.down(),
            r.listening() == self.listening(),
    {
        let control_config = self.control_config.clone();
        let listening_for_input = self.listening_for_input;
        let pressed_controls = self.pressed_controls.clone();
        let input_time = self.input_time.clone();
        proof {
            assert(pressed_controls@ =~= self.pressed_controls@);
            assert(input_time@ =~= self.input_time@);
        }
        Self { control_config, input_time, listening_for_input, pressed_controls }
    }
}

} // verus!
