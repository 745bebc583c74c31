use vstd::prelude::*;
use crate::state::{
    started, stopped, updated, MachineView, State, StateMachine, StateMachineError, StateResult,
};

verus! {

/// How the application's window is set up.
pub struct AppConfig {
    pub width: u32,
    pub height: u32,
    pub is_fullscreen: bool,
    pub title: String,
    /// Path of an image file to use as the window's icon.
    pub icon: Option<String>,
}

impl Default for AppConfig {
    fn default() -> (r: Self)
        ensures
            r.width == 1024,
            r.height == 768,
            !r.is_fullscreen,
            r.title@ == "Elder App"@,
            r.icon is None,
    {
        AppConfig {
            width: 1024,
            height: 768,
            is_fullscreen: false,
            title: String::from_str("Elder App"),
            icon: None,
        }
    }
}

/// What the driver's event loop reports to the application.
pub enum LoopEvent {
    /// Every pending event has been handled: time for one tick.
    MainEventsCleared,
    /// The user asked to close the application's window.
    CloseRequested,
    /// The event loop is shutting down.
    LoopDestroyed,
    /// Anything else.
    Other,
}

/// What the event loop is to do after an event.
pub enum LoopControl {
    /// Keep polling for events.
    Poll,
    /// Leave the loop.
    Exit,
}

/// A failure of the state machine while the application runs, by the
/// operation that failed.
#[derive(Debug)]
pub enum AppError {
    StartStateMachine(StateMachineError),
    UpdateStateMachine(StateMachineError),
    StopStateMachine(StateMachineError),
}

/// The effect of handling `event` on a running machine, from `m` and
/// resources `r0` to `new` and resources `r1`.
pub open spec fn dispatched<T, S: State<T>>(
    event: LoopEvent,
    m: MachineView<S>,
    new: MachineView<S>,
    r0: T,
    r1: T,
    r: Result<LoopControl, AppError>,
) -> bool {
    match event {
        LoopEvent::MainEventsCleared => match r {
            Ok(c) => c is Poll && updated(m, new, r0, r1, Ok(())),
            Err(AppError::UpdateStateMachine(e)) => updated(m, new, r0, r1, Err(e)),
            Err(_) => false,
        },
        LoopEvent::CloseRequested => new == m && r1 == r0 && r matches Ok(LoopControl::Exit),
        LoopEvent::LoopDestroyed => match r {
            Ok(c) => c is Poll && stopped(m, new, r0, r1, Ok(())),
            Err(AppError::StopStateMachine(e)) => stopped(m, new, r0, r1, Err(e)),
            Err(_) => false,
        },
        LoopEvent::Other => new == m && r1 == r0 && r matches Ok(LoopControl::Poll),
    }
}

/// Handles one event of the driver's loop: starts the machine if it does not
/// run, then ticks it, stops it, or asks the loop to exit, as the event calls for.
pub fn handle_event<T, S: State<T>>(
    machine: &mut StateMachine<T, S>,
    event: LoopEvent,
    resources: &mut T,
) -> (r: Result<LoopControl, AppError>)
    ensures
        old(machine)@.running ==> dispatched(
            event,
            old(machine)@,
            final(machine)@,
            *old(resources),
            *final(resources),
            r,
        ),
        !old(machine)@.running ==> exists|mid: MachineView<S>, rm: T, s: StateResult<()>|
            {
                &&& #[trigger] started(old(machine)@, mid, *old(resources), rm, s)
                &&& s matches Err(e) ==> (final(machine)@ == mid && *final(resources) == rm && r
                    == Err::<LoopControl, _>(AppError::StartStateMachine(e)))
                &&& s is Ok ==> dispatched(event, mid, final(machine)@, rm, *final(resources), r)
            },
{
    if !machine.is_running() {
        let s = machine.start(resources);
        let ghost mid = machine@;
        let ghost rm = *resources;
        if let Err(e) = s {
            return Err(AppError::StartStateMachine(e));
        }
        let r = dispatch(machine, event, resources);
        proof {
            assert(started(old(machine)@, mid, *old(resources), rm, s));
        }
        return r;
    }
    dispatch(machine, event, resources)
}

fn dispatch<T, S: State<T>>(
    machine: &mut StateMachine<T, S>,
    event: LoopEvent,
    resources: &mut T,
) -> (r: Result<LoopControl, AppError>)
    requires
        old(machine)@.running,
    ensures
        dispatched(event, old(machine)@, final(machine)@, *old(resources), *final(resources), r),
{
    match event {
        LoopEvent::MainEventsCleared => {
            let r = machine.update(resources);
            match r {
                Ok(u) => {
                    assert(r == Ok::<(), StateMachineError>(u));
                    Ok(LoopControl::Poll)
                },
                Err(e) => Err(AppError::UpdateStateMachine(e)),
            }
        },
        LoopEvent::CloseRequested => Ok(LoopControl::Exit),
        LoopEvent::LoopDestroyed => {
            let r = machine.stop(resources);
            match r {
                Ok(u) => {
                    assert(r == Ok::<(), StateMachineError>(u));
                    Ok(LoopControl::Poll)
                },
                Err(e) => Err(AppError::StopStateMachine(e)),
            }
        },
        LoopEvent::Other => Ok(LoopControl::Poll),
    }
}

} // verus!
