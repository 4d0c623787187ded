use vstd::prelude::*;

use crate::widgets::Size;

verus! {

/// Lifecycle of the frame loop; `Stopped` is terminal.
#[derive(PartialEq, Eq, Structural, Clone, Copy, Debug)]
pub enum Phase {
    NotStarted,
    Running,
    Stopped,
}

#[derive(PartialEq, Eq, Structural, Clone, Copy, Debug)]
pub enum KeyState {
    Pressed,
    Released,
}

/// Physical key codes the loop tells apart.
#[derive(PartialEq, Eq, Structural, Clone, Copy, Debug)]
pub enum KeyCode {
    Escape,
    Other,
}

/// A window event delivered by the host loop.
#[derive(PartialEq, Eq, Structural, Clone, Copy, Debug)]
pub enum WindowEvent {
    CloseRequested,
    KeyboardInput { state: KeyState, key: KeyCode },
    Resized(Size),
    RedrawRequested,
    Other,
}

/// Why a frame could not be presented.
#[derive(PartialEq, Eq, Structural, Clone, Copy, Debug)]
pub enum SurfaceError {
    Lost,
    Outdated,
    Timeout,
    OutOfMemory,
}

/// What the host loop is asked to do.
#[derive(PartialEq, Eq, Structural, Clone, Copy, Debug)]
pub enum Command {
    /// End the loop.
    Exit,
    /// Resize the render context to the given size.
    Resize(Size),
    /// Ask the window for another redraw after this one.
    RequestRedraw,
    /// Render one frame and report its outcome.
    Render,
    /// Reconfigure the surface at the current size.
    Reconfigure,
    /// Drop this frame and go on.
    SkipFrame,
}

/// Next phase and commands for a window event.
pub open spec fn event_step(phase: Phase, ev: WindowEvent) -> (Phase, Seq<Command>) {
    match phase {
        Phase::Running => match ev {
            WindowEvent::CloseRequested => (Phase::Stopped, seq![Command::Exit]),
            WindowEvent::KeyboardInput { state: KeyState::Pressed, key: KeyCode::Escape } => (
                Phase::Stopped,
                seq![Command::Exit],
            ),
            WindowEvent::Resized(s) => (Phase::Running, seq![Command::Resize(s)]),
            WindowEvent::RedrawRequested => (
                Phase::Running,
                seq![Command::RequestRedraw, Command::Render],
            ),
            _ => (Phase::Running, Seq::empty()),
        },
        _ => (phase, Seq::empty()),
    }
}

/// Next phase and commands for the outcome of a rendered frame.
pub open spec fn result_step(phase: Phase, r: Result<(), SurfaceError>) -> (Phase, Seq<Command>) {
    match phase {
        Phase::Running => match r {
            Ok(()) => (Phase::Running, Seq::empty()),
            Err(SurfaceError::Lost) => (Phase::Running, seq![Command::Reconfigure]),
            Err(SurfaceError::Outdated) => (Phase::Running, seq![Command::Reconfigure]),
            Err(SurfaceError::Timeout) => (Phase::Running, seq![Command::SkipFrame]),
            Err(SurfaceError::OutOfMemory) => (Phase::Stopped, seq![Command::Exit]),
        },
        _ => (phase, Seq::empty()),
    }
}

/// The phase and all commands after a run of events, starting in `phase`.
pub open spec fn run_events(phase: Phase, evs: Seq<WindowEvent>) -> (Phase, Seq<Command>)
    decreases evs.len(),
{
    if evs.len() == 0 {
        (phase, Seq::empty())
    } else {
        let (p, c) = event_step(phase, evs[0]);
        let (q, d) = run_events(p, evs.drop_first());
        (q, c + d)
    }
}

/// Turns window events and frame outcomes into commands for the host loop.
pub struct FrameDriver {
    phase: Phase,
}

impl FrameDriver {
    pub closed spec fn spec_phase(&self) -> Phase {
        self.phase
    }

    pub fn new() -> (r: Self)
        ensures
            r.spec_phase() == Phase::NotStarted,
    {
        FrameDriver { phase: Phase::NotStarted }
    }

    pub fn phase(&self) -> (r: Phase)
        ensures
            r == self.spec_phase(),
    {
        self.phase
    }

    /// Enters `Running` once the render context exists; no effect in any other phase.
    pub fn start(&mut self)
        ensures
            final(self).spec_phase() == if old(self).spec_phase() == Phase::NotStarted {
                Phase::Running
            } else {
                old(self).spec_phase()
            },
    {
        if self.phase == Phase::NotStarted {
            self.phase = Phase::Running;
        }
    }

    pub fn handle_event(&mut self, ev: WindowEvent) -> (r: Vec<Command>)
        ensures
            (final(self).spec_phase(), r@) == event_step(old(self).spec_phase(), ev),
    {
        let mut out: Vec<Command> = Vec::new();
        if self.phase != Phase::Running {
            return out;
        }
        match ev {
            WindowEvent::CloseRequested => {
                self.phase = Phase::Stopped;
                out.push(Command::Exit);
            },
            WindowEvent::KeyboardInput { state: KeyState::Pressed, key: KeyCode::Escape } => {
                self.phase = Phase::Stopped;
                out.push(Command::Exit);
            },
            WindowEvent::Resized(s) => {
                out.push(Command::Resize(s));
            },
            WindowEvent::RedrawRequested => {
                out.push(Command::RequestRedraw);
                out.push(Command::Render);
            },
            _ => {},
        }
        assert(out@ =~= event_step(old(self).spec_phase(), ev).1);
        out
    }

    pub fn handle_render_result(&mut self, r: Result<(), SurfaceError>) -> (c: Vec<Command>)
        ensures
            (final(self).spec_phase(), c@) == result_step(old(self).spec_phase(), r),
    {
        let mut out: Vec<Command> = Vec::new();
        if self.phase != Phase::Running {
            return out;
        }
        match r {
            Ok(()) => {},
            Err(SurfaceError::Lost) => out.push(Command::Reconfigure),
            Err(SurfaceError::Outdated) => out.push(Command::Reconfigure),
            Err(SurfaceError::Timeout) => out.push(Command::SkipFrame),
            Err(SurfaceError::OutOfMemory) => {
                self.phase = Phase::Stopped;
                out.push(Command::Exit);
            },
        }
        assert(out@ =~= result_step(old(self).spec_phase(), r).1);
        out
    }
}

/// A lost or outdated surface yields exactly one reconfigure and the loop keeps running.
pub proof fn lemma_lost_surface_reconfigures_once()
    ensures
        result_step(Phase::Running, Err(SurfaceError::Lost)) == (
            Phase::Running,
            seq![Command::Reconfigure],
        ),
        result_step(Phase::Running, Err(SurfaceError::Outdated)) == (
            Phase::Running,
            seq![Command::Reconfigure],
        ),
{
}

/// Running out of memory ends the loop, and no later event asks for another frame.
pub proof fn lemma_out_of_memory_stops(evs: Seq<WindowEvent>)
    ensures
        result_step(Phase::Running, Err(SurfaceError::OutOfMemory)) == (
            Phase::Stopped,
            seq![Command::Exit],
        ),
        run_events(Phase::Stopped, evs) == (Phase::Stopped, Seq::<Command>::empty()),
    decreases evs.len(),
{
    if evs.len() > 0 {
        lemma_out_of_memory_stops(evs.drop_first());
        assert(Seq::<Command>::empty() + Seq::<Command>::empty() =~= Seq::<Command>::empty());
    }
}

} // verus!
