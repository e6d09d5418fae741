//! The animation loop, as an explicit two-state machine.
//!
//! The loop is Unarmed until `start` registers the first frame callback with
//! the host's scheduler; from then on it is Armed, and every frame callback
//! performs one tick and re-arms itself. There is deliberately no stop
//! transition and no method back to Unarmed: once armed, the loop runs until
//! the hosting page or process is torn down. A caller that needs
//! cancellation must wrap the scheduling capability itself, for instance by
//! making it a no-op after an external stop signal. The host-facing
//! registration call is the driver's job; this type only accounts for the
//! state, so that the driver arms exactly once.

use vstd::prelude::*;

verus! {

/// Unarmed: no frame callback registered yet. Armed: the loop re-registers
/// itself on every frame, forever.
#[derive(Clone, Copy, PartialEq, Eq, Structural, Debug)]
pub enum LoopState {
    Unarmed,
    Armed,
}

/// The loop driver's state.
pub struct AnimationLoop {
    pub state: LoopState,
}

impl AnimationLoop {
    /// A fresh loop: not yet armed.
    pub fn new() -> (l: AnimationLoop)
        ensures
            l.state == LoopState::Unarmed,
    {
        AnimationLoop { state: LoopState::Unarmed }
    }

    /// Arm the loop; the caller registers the first frame callback upon
    /// this transition, and only then. There is no inverse transition.
    pub fn start(&mut self)
        requires
            old(self).state == LoopState::Unarmed,
        ensures
            final(self).state == LoopState::Armed,
    {
        self.state = LoopState::Armed;
    }

    /// One frame callback has run: the loop stays armed, so the caller
    /// re-registers the callback before returning.
    pub fn on_frame(&mut self)
        requires
            old(self).state == LoopState::Armed,
        ensures
            final(self).state == LoopState::Armed,
    {
    }
}

} // verus!
