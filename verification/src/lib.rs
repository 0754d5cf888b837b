//! A mode stack controller for frame-driven, multi-screen applications.
//!
//! An application is a stack of *modes* (title screen, gameplay, pause menu,
//! dialog, ...). The top mode drives each frame: its `update` returns a
//! [`state::Transition`] describing how the stack must change, together with a
//! [`state::TransitionControl`] pacing directive for the next frame. The
//! [`state_machine::StateMachine`] owns the stack, applies transitions,
//! decides which modes must be redrawn and in what order, and tells the host
//! loop whether to keep ticking, wait a frame, or wait for input.

pub mod prelude;
pub mod state;
pub mod state_machine;
