//! One import for everything a host or a mode implementation needs.

pub use crate::state::PointerPos;
pub use crate::state::RunControl;
pub use crate::state::State;
pub use crate::state::StateTransition;
pub use crate::state::Surface;
pub use crate::state::TickInput;
pub use crate::state::Transition;
pub use crate::state::TransitionControl;
pub use crate::state_machine::StateMachine;
