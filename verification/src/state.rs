//! The vocabulary shared between modes and the mode stack controller: the
//! mode capability contract, the transition and pacing enums, and the plain
//! input data a host hands to each tick.

use vstd::prelude::*;

verus! {

/// Position of the host's pointer (mouse cursor), in whatever integer
/// coordinates the host surface reports.
#[derive(Clone, Copy, Debug, PartialEq, Eq, Structural)]
pub struct PointerPos {
    pub x: i32,
    pub y: i32,
}

impl PointerPos {
    /// The origin, used before any real pointer position has been observed.
    pub fn zero() -> (p: PointerPos)
        ensures
            p == (PointerPos { x: 0, y: 0 }),
    {
        PointerPos { x: 0, y: 0 }
    }
}

/// What the host loop observed this frame, handed to
/// [`crate::state_machine::StateMachine::tick`] as plain values.
#[derive(Clone, Copy, Debug)]
pub struct TickInput {
    /// Whether a key press was observed this frame.
    pub key_pressed: bool,
    /// Whether a primary (left) click was observed this frame.
    pub left_click: bool,
    /// The pointer position observed this frame.
    pub pointer: PointerPos,
    /// Elapsed wall time since the previous tick, in milliseconds.
    pub dt_ms: u64,
}

/// A drawing surface the controller can present (flush) once per resolved
/// tick. The host supplies the real surface; the controller never implements
/// one itself.
pub trait Surface {
    /// The host's error for a failed present; a failed present aborts the
    /// current tick and is propagated, never retried.
    type PresentError;

    /// Flush everything drawn since the last present to the screen.
    fn present(&mut self) -> Result<(), Self::PresentError>;
}

/// Return value of a tick that controls the host's main event loop.
#[derive(Clone, Copy, Debug, PartialEq, Eq)]
pub enum RunControl {
    /// Quit the run loop: the stack is empty and the machine has finished.
    Quit,
    /// Call `tick` again next frame.
    Update,
    /// Wait for an input event before the next update; the mode was drawn
    /// before waiting.
    WaitForEvent,
}

/// Desired pacing for the next update, returned from a mode's `update` call.
#[derive(Clone, Copy, Debug, PartialEq, Eq)]
pub enum TransitionControl {
    /// Resolve another transition immediately, within the same tick, with no
    /// redraw in between.
    Immediate,
    /// Redraw now and wait a frame before the next update.
    Update,
    /// Redraw now, then wait for an input event before the next update.
    WaitForEvent,
}

/// A mode's requested change to the mode stack this tick.
pub enum Transition<M, R> {
    /// No structural change.
    Stay,
    /// Remove and destroy the top mode; the value becomes the pending pop
    /// result, delivered to the next `update` of the mode beneath.
    Pop(R),
    /// Discard the entire stack, ending the machine this tick.
    Terminate,
    /// The new mode becomes top; the old top remains beneath, suspended.
    Push(M),
    /// The top mode is replaced in place: discarded, not retained.
    Switch(M),
}

/// Alias kept for callers that name the transition by its role.
pub type StateTransition<M, R> = Transition<M, R>;

/// The mode capability: one interactive screen or behavior unit, owned by the
/// stack slot that holds it. Applications implement this for an enum (or any
/// single type) covering all their modes, so the stack stays homogeneous in
/// the Rust type while heterogeneous in behavior.
pub trait State: Sized {
    /// The drawing/input surface handle passed through to every call.
    type Term: Surface;

    /// The application-wide state, shared by every mode.
    type State;

    /// The value a popped mode hands to the mode beneath it.
    type StateResult;

    /// Whether modes beneath this one must still be drawn. This is a fixed,
    /// per-mode property; [`State::is_transparent`] must agree with it. Most
    /// overlays want the modes beneath to stay visible, so the default is
    /// transparent.
    open spec fn transparent_spec(&self) -> bool {
        true
    }

    /// React to one tick: read input from `term`, mutate the shared `state`,
    /// and answer with the requested stack change and the pacing of the next
    /// frame. `pop_result` carries the pending pop result if a mode directly
    /// above this one was just popped; it is delivered to exactly one call.
    /// Only the top mode is updated, at most once per resolution step.
    fn update(
        &mut self,
        term: &mut Self::Term,
        state: &mut Self::State,
        pop_result: &Option<Self::StateResult>,
        dt_ms: u64,
    ) -> (Transition<Self, Self::StateResult>, TransitionControl);

    /// Paint this mode's visuals. `active` is true only for the top mode;
    /// modes drawn beneath it for layering receive false.
    fn render(&self, term: &mut Self::Term, state: &Self::State, active: bool);

    /// Clear the drawing surface before a redraw. The controller calls this
    /// on the top mode only, so a mode can opt into a narrower partial clear.
    fn clear(&self, state: &Self::State, term: &mut Self::Term);

    /// Whether modes beneath this one must still be drawn: true for
    /// see-through overlays such as a pause screen, false for opaque modes
    /// that fully cover everything beneath them.
    fn is_transparent(&self) -> (b: bool)
        ensures
            b == self.transparent_spec(),
    ;
}

} // verus!
