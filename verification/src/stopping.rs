//! Stopping an engine process: which request goes out, how long the program waits for
//! the process to end, and when it kills it. The program performs each action and hands
//! back what came of it; the steps are decided here.
use vstd::prelude::*;
use crate::model::Engine;

verus! {

/// Quarter-second polls a gentle stop waits before it escalates: ten seconds for QEMU,
/// five for RetroArch.
pub open spec fn poll_limit(engine: Engine) -> u32 {
    match engine {
        Engine::Qemu => 40,
        Engine::Libretro => 20,
    }
}

/// Where a stop stands.
#[derive(Debug, Clone, Copy, PartialEq, Eq, Structural)]
pub enum StopPhase {
    /// Nothing done yet; a forced stop skips the polite request.
    Start { force: bool },
    /// The gentle request (ACPI power-off, RetroArch `QUIT`) went out.
    Requested,
    /// Sleeping before poll number `n` (counted from 0).
    Waiting(u32),
    /// Poll number `n` asks whether the process has ended.
    Polling(u32),
    /// QMP `quit` went out; sleep this many milliseconds before the kill.
    QuitSent(u64),
    /// The last grace period before the kill.
    Settling,
    /// The process and its helpers are killed.
    Killing,
    Done,
}

/// What the program does next.
#[derive(Debug, Clone, Copy, PartialEq, Eq, Structural)]
pub enum StopAction {
    /// QMP `quit`.
    SendQuit,
    /// QMP `system_powerdown`.
    SendPowerdown,
    /// RetroArch's network command `QUIT`.
    SendRetroQuit,
    /// Sleep this many milliseconds.
    Sleep(u64),
    /// Ask whether the process has ended.
    Poll,
    /// Kill the process and its helpers.
    Kill,
    /// Nothing more to do.
    Finish,
}

/// One step of a stop. `outcome` is what came of the previous action: for the gentle
/// request whether it was delivered, for a poll whether the process has ended; after
/// any other action it is not read.
pub open spec fn stop_next(engine: Engine, phase: StopPhase, outcome: bool) -> (StopPhase, StopAction) {
    match phase {
        StopPhase::Start { force } => if force {
            match engine {
                Engine::Qemu => (StopPhase::QuitSent(300), StopAction::SendQuit),
                Engine::Libretro => (StopPhase::Killing, StopAction::Kill),
            }
        } else {
            match engine {
                Engine::Qemu => (StopPhase::Requested, StopAction::SendPowerdown),
                Engine::Libretro => (StopPhase::Requested, StopAction::SendRetroQuit),
            }
        },
        StopPhase::Requested => if outcome {
            (StopPhase::Waiting(0), StopAction::Sleep(250))
        } else {
            (StopPhase::Killing, StopAction::Kill)
        },
        StopPhase::Waiting(n) => (StopPhase::Polling(n), StopAction::Poll),
        StopPhase::Polling(n) => if outcome {
            (StopPhase::Done, StopAction::Finish)
        } else if n + 1 < poll_limit(engine) {
            (StopPhase::Waiting((n + 1) as u32), StopAction::Sleep(250))
        } else {
            match engine {
                Engine::Qemu => (StopPhase::QuitSent(500), StopAction::SendQuit),
                Engine::Libretro => (StopPhase::Killing, StopAction::Kill),
            }
        },
        StopPhase::QuitSent(ms) => (StopPhase::Settling, StopAction::Sleep(ms)),
        StopPhase::Settling => (StopPhase::Killing, StopAction::Kill),
        StopPhase::Killing => (StopPhase::Done, StopAction::Finish),
        StopPhase::Done => (StopPhase::Done, StopAction::Finish),
    }
}

/// A phase that a stop of this engine can be in: a poll count below the limit.
pub open spec fn stop_phase_ok(engine: Engine, phase: StopPhase) -> bool {
    match phase {
        StopPhase::Waiting(n) => n < poll_limit(engine),
        StopPhase::Polling(n) => n < poll_limit(engine),
        _ => true,
    }
}

/// How many steps at most are left before a stop is done.
pub open spec fn steps_left(engine: Engine, phase: StopPhase) -> nat {
    let l = poll_limit(engine) as int;
    match phase {
        StopPhase::Start { .. } => (2 * l + 7) as nat,
        StopPhase::Requested => (2 * l + 6) as nat,
        StopPhase::Waiting(n) => if n < l { (5 + 2 * (l - 1 - n)) as nat } else { 0 },
        StopPhase::Polling(n) => if n < l { (4 + 2 * (l - 1 - n)) as nat } else { 0 },
        StopPhase::QuitSent(_) => 3,
        StopPhase::Settling => 2,
        StopPhase::Killing => 1,
        StopPhase::Done => 0,
    }
}

/// The next phase and action of a stop.
pub fn stop_step(engine: Engine, phase: StopPhase, outcome: bool) -> (r: (StopPhase, StopAction))
    ensures
        r == stop_next(engine, phase, outcome),
{
    let limit: u32 = match engine {
        Engine::Qemu => 40,
        Engine::Libretro => 20,
    };
    match phase {
        StopPhase::Start { force } => if force {
            match engine {
                Engine::Qemu => (StopPhase::QuitSent(300), StopAction::SendQuit),
                Engine::Libretro => (StopPhase::Killing, StopAction::Kill),
            }
        } else {
            match engine {
                Engine::Qemu => (StopPhase::Requested, StopAction::SendPowerdown),
                Engine::Libretro => (StopPhase::Requested, StopAction::SendRetroQuit),
            }
        },
        StopPhase::Requested => if outcome {
            (StopPhase::Waiting(0), StopAction::Sleep(250))
        } else {
            (StopPhase::Killing, StopAction::Kill)
        },
        StopPhase::Waiting(n) => (StopPhase::Polling(n), StopAction::Poll),
        StopPhase::Polling(n) => if outcome {
            (StopPhase::Done, StopAction::Finish)
        } else if n < limit - 1 {
            (StopPhase::Waiting(n + 1), StopAction::Sleep(250))
        } else {
            match engine {
                Engine::Qemu => (StopPhase::QuitSent(500), StopAction::SendQuit),
                Engine::Libretro => (StopPhase::Killing, StopAction::Kill),
            }
        },
        StopPhase::QuitSent(ms) => (StopPhase::Settling, StopAction::Sleep(ms)),
        StopPhase::Settling => (StopPhase::Killing, StopAction::Kill),
        StopPhase::Killing => (StopPhase::Done, StopAction::Finish),
        StopPhase::Done => (StopPhase::Done, StopAction::Finish),
    }
}

} // verus!
