use vstd::prelude::*;

verus! {

/// What both styles of input handling answer: for each control of the game,
/// whether the player holds it.
///
/// A control is known by its number; a game with `n` controls numbers them
/// from 0 to `n - 1`.
pub trait InputHandler {
    /// The number of controls.
    spec fn controls(&self) -> nat;

    /// For how many frames in a row the control has been held.
    spec fn held_for(&self, control: int) -> nat;

    /// Is this control pressed down?
    /// i.e. is the player pressing the button?
    fn pressed(&self, control: usize) -> (r: bool)
        requires
            control < self.controls(),
        ensures
            r == (self.held_for(control as int) >= 1),
    ;

    /// Is this control released?
    /// i.e. is the player *not* pressing the button?
    fn released(&self, control: usize) -> (r: bool)
        requires
            control < self.controls(),
        ensures
            r == (self.held_for(control as int) == 0),
    ;

    /// Is this control being clicked down?
    /// i.e. was it up last frame, but down this frame?
    fn clicked_down(&self, control: usize) -> (r: bool)
        requires
            control < self.controls(),
        ensures
            r == (self.held_for(control as int) == 1),
    ;
}

} // verus!
