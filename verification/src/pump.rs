use vstd::prelude::*;

verus! {

/// The two states of the frame pump: not yet scheduled, and perpetually
/// rescheduled. There is no terminal state; the pump stops only when the
/// host discards the scheduling handle.
#[derive(Clone, Copy, PartialEq, Eq, Structural, Debug)]
pub enum PumpState {
    Idle,
    Running,
}

/// One step the host glue performs during a tick, in order.
#[derive(Clone, Copy, PartialEq, Eq, Structural, Debug)]
pub enum PumpAction {
    /// Trigger the terminal's auto-resize step.
    Autoresize,
    /// Obtain the frame object and invoke the user draw callback with it.
    RenderFrame,
    /// Flush the terminal's pending cell writes into the backend grid.
    FlushTerminal,
    /// Swap the terminal's internal double buffer.
    SwapBuffers,
    /// Flush the backend: build the surface on the first tick, diff after.
    FlushBackend,
    /// Request the next animation-frame callback.
    Reschedule,
}

/// The render-loop protocol: idle until the first schedule, then running
/// forever, performing the same tick sequence each callback.
pub struct FramePump {
    pub state: PumpState,
}

impl FramePump {
    pub fn new() -> (r: FramePump)
        ensures
            r.state == PumpState::Idle,
    {
        FramePump { state: PumpState::Idle }
    }

    /// Schedules the first tick: the only transition out of the idle state.
    pub fn start(&mut self) -> (r: PumpAction)
        requires
            old(self).state == PumpState::Idle,
        ensures
            final(self).state == PumpState::Running,
            r == PumpAction::Reschedule,
    {
        self.state = PumpState::Running;
        PumpAction::Reschedule
    }

    /// One tick of the running pump: the actions to perform, in order. The
    /// pump always ends a tick by rescheduling itself and stays running.
    pub fn tick(&mut self) -> (r: Vec<PumpAction>)
        requires
            old(self).state == PumpState::Running,
        ensures
            final(self).state == PumpState::Running,
            r@ == seq![
                PumpAction::Autoresize,
                PumpAction::RenderFrame,
                PumpAction::FlushTerminal,
                PumpAction::SwapBuffers,
                PumpAction::FlushBackend,
                PumpAction::Reschedule,
            ],
    {
        let mut v: Vec<PumpAction> = Vec::new();
        v.push(PumpAction::Autoresize);
        v.push(PumpAction::RenderFrame);
        v.push(PumpAction::FlushTerminal);
        v.push(PumpAction::SwapBuffers);
        v.push(PumpAction::FlushBackend);
        v.push(PumpAction::Reschedule);
        proof {
            assert(v@ =~= seq![
                PumpAction::Autoresize,
                PumpAction::RenderFrame,
                PumpAction::FlushTerminal,
                PumpAction::SwapBuffers,
                PumpAction::FlushBackend,
                PumpAction::Reschedule,
            ]);
        }
        v
    }
}

} // verus!
