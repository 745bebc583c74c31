use vstd::prelude::*;
use crate::state::{
    drains, fresh, keeps_below, popped, pushed, shows_label, started, stopped, switched,
    transitioned, updated, MachineView, State, StateMachineError, StateResult, Transition,
};

verus! {

/// `on_stop` succeeded on every state of `stack`, once each, from the top
/// down, taking the resources from `r0` to `r1`.
pub open spec fn stops_all<T, S: State<T>>(stack: Seq<S>, r0: T, r1: T) -> bool
    decreases stack.len(),
{
    if stack.len() == 0 {
        r1 == r0
    } else {
        exists|s: S, rm: T|
            #[trigger] S::stop_post(stack.last(), s, r0, rm, Ok(())) && stops_all(
                stack.drop_last(),
                rm,
                r1,
            )
    }
}

proof fn lemma_unit_ok(e: StateResult<()>)
    requires
        e is Ok,
    ensures
        e == Ok::<(), StateMachineError>(()),
{
    match e {
        Ok(u) => {
            assert(u == ());
        },
        Err(_) => {},
    }
}

/// A machine just built does not run and shows no active label.
pub proof fn fresh_machine_is_idle<S>(initial: S)
    ensures
        !fresh(initial).running,
        !shows_label(fresh(initial)),
        fresh(initial).stack == seq![initial],
{
}

/// Starting a stopped machine twice in a row calls `on_start` exactly once,
/// on its active state: the second call changes nothing and succeeds.
pub proof fn start_twice_starts_once<T, S: State<T>>(
    v0: MachineView<S>,
    v1: MachineView<S>,
    v2: MachineView<S>,
    a: T,
    b: T,
    c: T,
    r1: StateResult<()>,
    r2: StateResult<()>,
)
    requires
        !v0.running,
        v0.stack.len() > 0,
        started(v0, v1, a, b, r1),
        started(v1, v2, b, c, r2),
    ensures
        v2 == v1,
        c == b,
        r2 is Ok,
        v2.running,
        v2.stack.len() == v0.stack.len(),
        keeps_below(v0, v2, v0.stack.len() - 1),
        S::start_post(v0.stack.last(), v2.stack.last(), a, c, r1),
{
}

/// A drain that ends in success stops every state, once each, from the top
/// down, and leaves nothing.
pub proof fn lemma_drain_stops_all<T, S: State<T>>(stack: Seq<S>, r0: T, r1: T, rest: Seq<S>)
    requires
        drains(stack, r0, r1, Ok(()), rest),
    ensures
        rest.len() == 0,
        stops_all(stack, r0, r1),
    decreases stack.len(),
{
    if stack.len() > 0 {
        let (s, rm, e) = choose|s: S, rm: T, e: StateResult<()>|
            {
                &&& #[trigger] S::stop_post(stack.last(), s, r0, rm, e)
                &&& e is Err ==> Ok::<(), StateMachineError>(()) == e && r1 == rm && rest
                    == stack.drop_last()
                &&& e is Ok ==> drains(stack.drop_last(), rm, r1, Ok(()), rest)
            };
        lemma_unit_ok(e);
        lemma_drain_stops_all(stack.drop_last(), rm, r1, rest);
        assert(S::stop_post(stack.last(), s, r0, rm, Ok(())) && stops_all(stack.drop_last(), rm, r1));
    }
}

/// When a running machine quits and no hook fails, it stops with an empty
/// stack, after `on_stop` on every state that was on it, once each, from the
/// top down. This is what `update` applies when the active state asks to quit.
pub proof fn quit_stops_every_state<T, S: State<T>>(
    v0: MachineView<S>,
    v1: MachineView<S>,
    r0: T,
    r1: T,
)
    requires
        stopped(v0, v1, r0, r1, Ok(())),
    ensures
        !v1.running,
        v1.stack.len() == 0,
        stops_all(v0.stack, r0, r1),
{
    lemma_drain_stops_all(v0.stack, r0, r1, v1.stack);
}

/// A push that no hook makes fail adds exactly the given state: the state
/// that was active is paused, then the new one, on top, is started.
pub proof fn push_adds_one_state<T, S: State<T>>(
    v0: MachineView<S>,
    state: S,
    v1: MachineView<S>,
    r0: T,
    r1: T,
)
    requires
        v0.stack.len() > 0,
        pushed(v0, state, v1, r0, r1, Ok(())),
    ensures
        v1.running,
        v1.stack.len() == v0.stack.len() + 1,
        keeps_below(v0, v1, v0.stack.len() - 1),
        exists|rm: T|
            #[trigger] S::pause_post(
                v0.stack.last(),
                v1.stack[v0.stack.len() - 1],
                r0,
                rm,
                Ok(()),
            ) && S::start_post(state, v1.stack.last(), rm, r1, Ok(())),
{
    let n = v0.stack.len();
    let (rm, e) = choose|rm: T, e: StateResult<()>|
        {
            &&& #[trigger] S::pause_post(v0.stack[n - 1], v1.stack[n - 1], r0, rm, e)
            &&& e is Err ==> Ok::<(), StateMachineError>(()) == e && r1 == rm && v1.stack.len()
                == n
            &&& e is Ok ==> v1.stack.len() == n + 1 && S::start_post(
                state,
                v1.stack[n as int],
                rm,
                r1,
                Ok(()),
            )
        };
    lemma_unit_ok(e);
    assert(S::pause_post(v0.stack.last(), v1.stack[n - 1], r0, rm, Ok(())));
}

/// A pop that no hook makes fail removes the active state after its
/// `on_stop`. Below it, the state that becomes active is resumed; with no
/// state below, the machine stops running and nothing is resumed.
pub proof fn pop_removes_one_state<T, S: State<T>>(
    v0: MachineView<S>,
    v1: MachineView<S>,
    r0: T,
    r1: T,
)
    requires
        v0.stack.len() > 0,
        popped(v0, v1, r0, r1, Ok(())),
    ensures
        v1.stack.len() == v0.stack.len() - 1,
        v0.stack.len() >= 2 ==> {
            &&& v1.running
            &&& keeps_below(v0, v1, v0.stack.len() - 2)
            &&& exists|s: S, rm: T|
                #[trigger] S::stop_post(v0.stack.last(), s, r0, rm, Ok(())) && S::resume_post(
                    v0.stack[v0.stack.len() - 2],
                    v1.stack.last(),
                    rm,
                    r1,
                    Ok(()),
                )
        },
        v0.stack.len() == 1 ==> {
            &&& !v1.running
            &&& exists|s: S| #[trigger] S::stop_post(v0.stack.last(), s, r0, r1, Ok(()))
        },
{
    let n = v0.stack.len();
    let (s, rm, e) = choose|s: S, rm: T, e: StateResult<()>|
        {
            &&& #[trigger] S::stop_post(v0.stack[n - 1], s, r0, rm, e)
            &&& e is Err ==> Ok::<(), StateMachineError>(()) == e && r1 == rm && v1.stack
                == v0.stack.drop_last() && v1.running
            &&& e is Ok && n == 1 ==> r1 == rm && v1.stack.len() == 0 && !v1.running
            &&& e is Ok && n >= 2 ==> {
                &&& v1.running
                &&& v1.stack.len() == n - 1
                &&& keeps_below(v0, v1, n - 2)
                &&& S::resume_post(v0.stack[n - 2], v1.stack[n - 2], rm, r1, Ok(()))
            }
        };
    lemma_unit_ok(e);
    assert(S::stop_post(v0.stack.last(), s, r0, rm, Ok(())));
}

/// A switch that no hook makes fail keeps the depth: the active state is
/// stopped and dropped, and the given state, in its place, is started;
/// nothing is paused or resumed.
pub proof fn switch_keeps_depth<T, S: State<T>>(
    v0: MachineView<S>,
    state: S,
    v1: MachineView<S>,
    r0: T,
    r1: T,
)
    requires
        v0.stack.len() > 0,
        switched(v0, state, v1, r0, r1, Ok(())),
    ensures
        v1.running,
        v1.stack.len() == v0.stack.len(),
        keeps_below(v0, v1, v0.stack.len() - 1),
        exists|s: S, rm: T|
            #[trigger] S::stop_post(v0.stack.last(), s, r0, rm, Ok(())) && S::start_post(
                state,
                v1.stack.last(),
                rm,
                r1,
                Ok(()),
            ),
{
    let n = v0.stack.len();
    let (s, rm, e) = choose|s: S, rm: T, e: StateResult<()>|
        {
            &&& #[trigger] S::stop_post(v0.stack[n - 1], s, r0, rm, e)
            &&& e is Err ==> Ok::<(), StateMachineError>(()) == e && r1 == rm && v1.stack.len()
                == n - 1
            &&& e is Ok ==> v1.stack.len() == n && S::start_post(
                state,
                v1.stack[n - 1],
                rm,
                r1,
                Ok(()),
            )
        };
    lemma_unit_ok(e);
    assert(S::stop_post(v0.stack.last(), s, r0, rm, Ok(())));
}

/// When the active state of a running machine answers `update` by asking to
/// quit, and no hook fails, the machine stops with an empty stack: `update`
/// on the active state, then `on_stop` on every state, once each, from the
/// top down.
pub proof fn update_to_quit_stops_every_state<T, S: State<T>>(
    v0: MachineView<S>,
    v1: MachineView<S>,
    r0: T,
    r1: T,
)
    requires
        v0.running,
        v0.stack.len() > 0,
        updated(v0, v1, r0, r1, Ok(())),
        forall|s: S, rm: T, u: StateResult<Transition<S>>|
            #[trigger] S::update_post(v0.stack.last(), s, r0, rm, u) ==> u matches Ok(
                Transition::Quit,
            ),
    ensures
        !v1.running,
        v1.stack.len() == 0,
        exists|s: S, rm: T|
            #[trigger] S::update_post(v0.stack.last(), s, r0, rm, Ok(Transition::Quit))
                && stops_all(v0.stack.update(v0.stack.len() - 1, s), rm, r1),
{
    let n = v0.stack.len();
    let (s, rm, u) = choose|s: S, rm: T, u: StateResult<Transition<S>>|
        {
            let mid = MachineView { stack: v0.stack.update(n - 1, s), ..v0 };
            &&& #[trigger] S::update_post(v0.stack[n - 1], s, r0, rm, u)
            &&& match u {
                Ok(t) => transitioned(t, mid, v1, rm, r1, Ok(())),
                Err(e) => Ok::<(), StateMachineError>(()) == Err::<(), _>(e) && r1 == rm && v1
                    == mid,
            }
        };
    let mid = MachineView { stack: v0.stack.update(n - 1, s), ..v0 };
    assert(S::update_post(v0.stack.last(), s, r0, rm, u));
    assert(u matches Ok(Transition::Quit));
    assert(stopped(mid, v1, rm, r1, Ok(())));
    quit_stops_every_state(mid, v1, rm, r1);
    assert(S::update_post(v0.stack.last(), s, r0, rm, Ok(Transition::Quit)));
}

} // verus!
