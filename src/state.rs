use vstd::prelude::*;

verus! {

/// Why an operation of the machine, or a hook of one of its states, failed.
#[derive(Debug, PartialEq, Eq)]
pub enum StateMachineError {
    /// The machine was asked for its active state while its stack was empty.
    NoStatesPresent,
    /// A hook of a state reported a failure, described by its message.
    Hook(String),
}

pub type StateResult<V> = Result<V, StateMachineError>;

/// A mode of the application that the machine can hold on its stack.
///
/// Each hook is described by a relation between the state and the resources
/// before the call, the state and the resources after it, and the result.
/// Every relation defaults to what a hook that changes nothing and succeeds
/// meets; an implementation that does more restates the relation.
pub trait State<T>: Sized {
    /// The text that `label` returns.
    open spec fn label_spec(&self) -> Seq<char> {
        "Unlabeled State"@
    }

    /// What `on_start` does.
    open spec fn start_post(old_s: Self, new_s: Self, old_r: T, new_r: T, r: StateResult<()>) -> bool {
        new_s == old_s && new_r == old_r && r is Ok
    }

    /// What `on_stop` does.
    open spec fn stop_post(old_s: Self, new_s: Self, old_r: T, new_r: T, r: StateResult<()>) -> bool {
        new_s == old_s && new_r == old_r && r is Ok
    }

    /// What `on_pause` does.
    open spec fn pause_post(old_s: Self, new_s: Self, old_r: T, new_r: T, r: StateResult<()>) -> bool {
        new_s == old_s && new_r == old_r && r is Ok
    }

    /// What `on_resume` does.
    open spec fn resume_post(old_s: Self, new_s: Self, old_r: T, new_r: T, r: StateResult<()>) -> bool {
        new_s == old_s && new_r == old_r && r is Ok
    }

    /// What `update` does, and which transition it asks for.
    open spec fn update_post(
        old_s: Self,
        new_s: Self,
        old_r: T,
        new_r: T,
        r: StateResult<Transition<Self>>,
    ) -> bool {
        new_s == old_s && new_r == old_r && r matches Ok(Transition::Stay)
    }

    /// A human-readable name of the state.
    fn label(&self) -> (r: String)
        ensures
            r@ == self.label_spec(),
    ;

    /// Called when the state becomes the active one by `start`, a push or a switch.
    fn on_start(&mut self, resources: &mut T) -> (r: StateResult<()>)
        ensures
            Self::start_post(*old(self), *final(self), *old(resources), *final(resources), r),
    ;

    /// Called when the state leaves the stack, before it is dropped.
    fn on_stop(&mut self, resources: &mut T) -> (r: StateResult<()>)
        ensures
            Self::stop_post(*old(self), *final(self), *old(resources), *final(resources), r),
    ;

    /// Called when another state is pushed above this one.
    fn on_pause(&mut self, resources: &mut T) -> (r: StateResult<()>)
        ensures
            Self::pause_post(*old(self), *final(self), *old(resources), *final(resources), r),
    ;

    /// Called when the state above this one is popped.
    fn on_resume(&mut self, resources: &mut T) -> (r: StateResult<()>)
        ensures
            Self::resume_post(*old(self), *final(self), *old(resources), *final(resources), r),
    ;

    /// Called once per tick on the active state; the result is applied by the machine.
    fn update(&mut self, resources: &mut T) -> (r: StateResult<Transition<Self>>)
        ensures
            Self::update_post(*old(self), *final(self), *old(resources), *final(resources), r),
    ;
}

/// A change of the stack requested by the active state.
pub enum Transition<S> {
    Stay,
    Pop,
    Push(S),
    Switch(S),
    Quit,
}

/// What can be observed of a machine: whether it runs, and its stack from
/// bottom to top.
pub struct MachineView<S> {
    pub running: bool,
    pub stack: Seq<S>,
}

/// The states below position `k` are those of `old`.
pub open spec fn keeps_below<S>(old: MachineView<S>, new: MachineView<S>, k: int) -> bool {
    &&& 0 <= k <= old.stack.len()
    &&& k <= new.stack.len()
    &&& new.stack.subrange(0, k) == old.stack.subrange(0, k)
}

/// A machine just built around `initial`: it holds `initial` alone and does not run.
pub open spec fn fresh<S>(initial: S) -> MachineView<S> {
    MachineView { running: false, stack: seq![initial] }
}

/// Whether the machine shows the label of an active state: it runs and its stack is not empty.
pub open spec fn shows_label<S>(v: MachineView<S>) -> bool {
    v.running && v.stack.len() > 0
}

/// The effect of `start`, from machine `old` and resources `r0` to machine
/// `new` and resources `r1`, with result `r`.
pub open spec fn started<T, S: State<T>>(
    old: MachineView<S>,
    new: MachineView<S>,
    r0: T,
    r1: T,
    r: StateResult<()>,
) -> bool {
    let n = old.stack.len();
    if old.running {
        new == old && r1 == r0 && r is Ok
    } else if n == 0 {
        new == MachineView { running: true, ..old } && r1 == r0 && r == Err::<(), _>(
            StateMachineError::NoStatesPresent,
        )
    } else {
        &&& new.running
        &&& new.stack.len() == n
        &&& keeps_below(old, new, n - 1)
        &&& S::start_post(old.stack[n - 1], new.stack[n - 1], r0, r1, r)
    }
}

/// The effect of `pop` on a running machine: `on_stop` on the active state,
/// which is dropped, then `on_resume` on the state below, if any.
pub open spec fn popped<T, S: State<T>>(
    old: MachineView<S>,
    new: MachineView<S>,
    r0: T,
    r1: T,
    r: StateResult<()>,
) -> bool {
    let n = old.stack.len();
    if n == 0 {
        new == MachineView { running: false, ..old } && r1 == r0 && r is Ok
    } else {
        exists|s: S, rm: T, e: StateResult<()>|
            {
                &&& #[trigger] S::stop_post(old.stack[n - 1], s, r0, rm, e)
                &&& e is Err ==> r == e && r1 == rm && new.stack == old.stack.drop_last()
                    && new.running
                &&& e is Ok && n == 1 ==> r is Ok && r1 == rm && new.stack.len() == 0
                    && !new.running
                &&& e is Ok && n >= 2 ==> {
                    &&& new.running
                    &&& new.stack.len() == n - 1
                    &&& keeps_below(old, new, n - 2)
                    &&& S::resume_post(old.stack[n - 2], new.stack[n - 2], rm, r1, r)
                }
            }
    }
}

/// The effect of pushing `state` on a running machine: `on_pause` on the
/// active state, then `state` on top and its `on_start`. When `on_pause`
/// fails, `state` is dropped.
pub open spec fn pushed<T, S: State<T>>(
    old: MachineView<S>,
    state: S,
    new: MachineView<S>,
    r0: T,
    r1: T,
    r: StateResult<()>,
) -> bool {
    let n = old.stack.len();
    &&& new.running
    &&& if n == 0 {
        new.stack.len() == 1 && S::start_post(state, new.stack[0], r0, r1, r)
    } else {
        &&& keeps_below(old, new, n - 1)
        &&& exists|rm: T, e: StateResult<()>|
            {
                &&& #[trigger] S::pause_post(old.stack[n - 1], new.stack[n - 1], r0, rm, e)
                &&& e is Err ==> r == e && r1 == rm && new.stack.len() == n
                &&& e is Ok ==> new.stack.len() == n + 1 && S::start_post(
                    state,
                    new.stack[n as int],
                    rm,
                    r1,
                    r,
                )
            }
    }
}

/// The effect of switching to `state` on a running machine: `on_stop` on the
/// active state, which is dropped, then `state` in its place and its
/// `on_start`. When `on_stop` fails, `state` is dropped.
pub open spec fn switched<T, S: State<T>>(
    old: MachineView<S>,
    state: S,
    new: MachineView<S>,
    r0: T,
    r1: T,
    r: StateResult<()>,
) -> bool {
    let n = old.stack.len();
    &&& new.running
    &&& if n == 0 {
        new.stack.len() == 1 && S::start_post(state, new.stack[0], r0, r1, r)
    } else {
        &&& keeps_below(old, new, n - 1)
        &&& exists|s: S, rm: T, e: StateResult<()>|
            {
                &&& #[trigger] S::stop_post(old.stack[n - 1], s, r0, rm, e)
                &&& e is Err ==> r == e && r1 == rm && new.stack.len() == n - 1
                &&& e is Ok ==> new.stack.len() == n && S::start_post(
                    state,
                    new.stack[n - 1],
                    rm,
                    r1,
                    r,
                )
            }
    }
}

/// Draining `stack` from the top, with resources going from `r0` to `r1`:
/// `on_stop` on each state, which is then dropped, until the stack is empty
/// or one fails. `rest` is what is left, `r` the result.
pub open spec fn drains<T, S: State<T>>(
    stack: Seq<S>,
    r0: T,
    r1: T,
    r: StateResult<()>,
    rest: Seq<S>,
) -> bool
    decreases stack.len(),
{
    if stack.len() == 0 {
        r is Ok && r1 == r0 && rest == stack
    } else {
        exists|s: S, rm: T, e: StateResult<()>|
            {
                &&& #[trigger] S::stop_post(stack.last(), s, r0, rm, e)
                &&& e is Err ==> r == e && r1 == rm && rest == stack.drop_last()
                &&& e is Ok ==> drains(stack.drop_last(), rm, r1, r, rest)
            }
    }
}

/// The effect of `stop` on a running machine.
pub open spec fn stopped<T, S: State<T>>(
    old: MachineView<S>,
    new: MachineView<S>,
    r0: T,
    r1: T,
    r: StateResult<()>,
) -> bool {
    &&& drains(old.stack, r0, r1, r, new.stack)
    &&& new.running == !(r is Ok)
}

/// The effect of applying transition `t` to a running machine.
pub open spec fn transitioned<T, S: State<T>>(
    t: Transition<S>,
    old: MachineView<S>,
    new: MachineView<S>,
    r0: T,
    r1: T,
    r: StateResult<()>,
) -> bool {
    match t {
        Transition::Stay => new == old && r1 == r0 && r is Ok,
        Transition::Pop => popped(old, new, r0, r1, r),
        Transition::Push(s) => pushed(old, s, new, r0, r1, r),
        Transition::Switch(s) => switched(old, s, new, r0, r1, r),
        Transition::Quit => stopped(old, new, r0, r1, r),
    }
}

/// The effect of `update` on a running machine: `update` on the active state,
/// then the transition it returned; its error, unchanged, if it failed.
pub open spec fn updated<T, S: State<T>>(
    old: MachineView<S>,
    new: MachineView<S>,
    r0: T,
    r1: T,
    r: StateResult<()>,
) -> bool {
    let n = old.stack.len();
    if n == 0 {
        new == old && r1 == r0 && r == Err::<(), _>(StateMachineError::NoStatesPresent)
    } else {
        exists|s: S, rm: T, u: StateResult<Transition<S>>|
            {
                let mid = MachineView { stack: old.stack.update(n - 1, s), ..old };
                &&& #[trigger] S::update_post(old.stack[n - 1], s, r0, rm, u)
                &&& match u {
                    Ok(t) => transitioned(t, mid, new, rm, r1, r),
                    Err(e) => r == Err::<(), _>(e) && r1 == rm && new == mid,
                }
            }
    }
}

/// A stack of states, of which the top one is active, and the rules by which
/// the active state hands control on.
pub struct StateMachine<T, S: State<T>> {
    marker: core::marker::PhantomData<T>,
    running: bool,
    /// Bottom first; the last one is the active state.
    states: Vec<S>,
}

impl<T, S: State<T>> View for StateMachine<T, S> {
    type V = MachineView<S>;

    closed spec fn view(&self) -> MachineView<S> {
        MachineView { running: self.running, stack: self.states@ }
    }
}

impl<T, S: State<T>> StateMachine<T, S> {
    /// A machine that holds `initial_state` alone and does not run yet.
    pub fn new(initial_state: S) -> (r: Self)
        ensures
            r@ == fresh(initial_state),
    {
        let mut states: Vec<S> = Vec::new();
        states.push(initial_state);
        let r = StateMachine { marker: core::marker::PhantomData, running: false, states };
        proof {
            assert(r@.stack =~= seq![initial_state]);
        }
        r
    }

    /// The active state, which is the top of the stack.
    pub fn active_state_mut(&mut self) -> (r: StateResult<&mut S>)
        ensures
            r is Ok <==> old(self)@.stack.len() > 0,
            r is Err ==> r == Err::<&mut S, _>(StateMachineError::NoStatesPresent)
                && final(self)@ == old(self)@,
            r matches Ok(s) ==> *s == old(self)@.stack.last() && final(self)@ == (MachineView {
                stack: old(self)@.stack.update(old(self)@.stack.len() - 1, *final(s)),
                ..old(self)@
            }),
    {
        let n = self.states.len();
        if n == 0 {
            return Err(StateMachineError::NoStatesPresent);
        }
        Ok(&mut self.states[n - 1])
    }

    /// Whether the machine has been started and not stopped since.
    pub fn is_running(&self) -> (r: bool)
        ensures
            r == self@.running,
    {
        self.running
    }

    /// How many states the stack holds.
    pub fn depth(&self) -> (r: usize)
        ensures
            r == self@.stack.len(),
    {
        self.states.len()
    }

    /// The label of the active state, while the machine runs.
    pub fn active_state_label(&self) -> (r: Option<String>)
        ensures
            r is Some <==> shows_label(self@),
            r matches Some(l) ==> l@ == self@.stack.last().label_spec(),
    {
        if !self.running {
            return None;
        }
        let n = self.states.len();
        if n == 0 {
            None
        } else {
            Some(self.states[n - 1].label())
        }
    }

    /// Starts the machine: `on_start` on the active state. Does nothing if it runs already.
    pub fn start(&mut self, resources: &mut T) -> (r: StateResult<()>)
        ensures
            started(old(self)@, final(self)@, *old(resources), *final(resources), r),
    {
        if self.running {
            return Ok(());
        }
        self.running = true;
        let n = self.states.len();
        if n == 0 {
            return Err(StateMachineError::NoStatesPresent);
        }
        let r = self.states[n - 1].on_start(resources);
        proof {
            assert(self.states@.subrange(0, n - 1) =~= old(self)@.stack.subrange(0, n - 1));
        }
        r
    }

    /// Removes the active state, then resumes the one below it; a machine
    /// whose stack runs empty stops running.
    pub fn pop(&mut self, resources: &mut T) -> (r: StateResult<()>)
        ensures
            if old(self)@.running {
                popped(old(self)@, final(self)@, *old(resources), *final(resources), r)
            } else {
                final(self)@ == old(self)@ && *final(resources) == *old(resources) && r is Ok
            },
    {
        if !self.running {
            return Ok(());
        }
        let n = self.states.len();
        if let Some(mut state) = self.states.pop() {
            let r = state.on_stop(resources);
            proof {
                assert(self.states@ =~= old(self)@.stack.drop_last());
                if n >= 2 {
                    assert(self.states@.subrange(0, n - 2) =~= old(self)@.stack.subrange(0, n - 2));
                }
            }
            if r.is_err() {
                return r;
            }
        }
        let ghost stopped_view = self@;
        let ghost mid_resources = *resources;
        let m = self.states.len();
        if m > 0 {
            let r = self.states[m - 1].on_resume(resources);
            proof {
                assert(self.states@.subrange(0, n - 2) =~= stopped_view.stack.subrange(0, n - 2));
            }
            r
        } else {
            self.running = false;
            Ok(())
        }
    }

    /// Pauses the active state and puts `state` above it, as the new active state.
    pub fn push(&mut self, state: S, resources: &mut T) -> (r: StateResult<()>)
        ensures
            if old(self)@.running {
                pushed(old(self)@, state, final(self)@, *old(resources), *final(resources), r)
            } else {
                final(self)@ == old(self)@ && *final(resources) == *old(resources) && r is Ok
            },
    {
        if !self.running {
            return Ok(());
        }
        let n = self.states.len();
        if n > 0 {
            let r = self.states[n - 1].on_pause(resources);
            proof {
                assert(self.states@.subrange(0, n - 1) =~= old(self)@.stack.subrange(0, n - 1));
            }
            if r.is_err() {
                return r;
            }
        }
        let ghost paused = self.states@;
        self.states.push(state);
        let r = self.states[n].on_start(resources);
        proof {
            assert(self.states@.subrange(0, n as int) =~= paused);
            if n > 0 {
                assert(self.states@.subrange(0, n - 1) =~= old(self)@.stack.subrange(0, n - 1));
            }
        }
        r
    }

    /// Stops and drops the active state and puts `state` in its place.
    pub fn switch(&mut self, state: S, resources: &mut T) -> (r: StateResult<()>)
        ensures
            if old(self)@.running {
                switched(old(self)@, state, final(self)@, *old(resources), *final(resources), r)
            } else {
                final(self)@ == old(self)@ && *final(resources) == *old(resources) && r is Ok
            },
    {
        if !self.running {
            return Ok(());
        }
        let n = self.states.len();
        if let Some(mut leaving) = self.states.pop() {
            let r = leaving.on_stop(resources);
            proof {
                assert(self.states@ =~= old(self)@.stack.subrange(0, n - 1));
                assert(self.states@.subrange(0, n - 1) =~= old(self)@.stack.subrange(0, n - 1));
                assert(S::stop_post(old(self)@.stack[n - 1], leaving, *old(resources), *resources, r));
            }
            if r.is_err() {
                return r;
            }
        }
        self.states.push(state);
        let m = self.states.len();
        let r = self.states[m - 1].on_start(resources);
        proof {
            if n > 0 {
                assert(self.states@.subrange(0, n - 1) =~= old(self)@.stack.subrange(0, n - 1));
            }
        }
        r
    }
    /// Stops the machine: removes every state from the top down, calling its
    /// `on_stop`. Does nothing if the machine does not run.
    pub fn stop(&mut self, resources: &mut T) -> (r: StateResult<()>)
        ensures
            if old(self)@.running {
                stopped(old(self)@, final(self)@, *old(resources), *final(resources), r)
            } else {
                final(self)@ == old(self)@ && *final(resources) == *old(resources) && r is Ok
            },
    {
        if !self.running {
            return Ok(());
        }
        let ghost initial = self@;
        let ghost r0 = *resources;
        let mut result: StateResult<()> = Ok(());
        loop
            invariant_except_break
                result == Ok::<(), StateMachineError>(()),
                forall|ra: T, rr: StateResult<()>, rest: Seq<S>|
                    #[trigger] drains(self.states@, *resources, ra, rr, rest) ==> drains(
                        initial.stack,
                        r0,
                        ra,
                        rr,
                        rest,
                    ),
            invariant
                initial == old(self)@,
                r0 == *old(resources),
                self.running,
            ensures
                drains(initial.stack, r0, *resources, result, self.states@),
            decreases self.states.len(),
        {
            if self.states.len() == 0 {
                proof {
                    assert(drains(self.states@, *resources, *resources, result, self.states@));
                }
                break;
            }
            let ghost before = self.states@;
            let ghost r_before = *resources;
            let mut state = self.states.pop().unwrap();
            let r = state.on_stop(resources);
            proof {
                assert(before.drop_last() =~= self.states@);
                assert(S::stop_post(before.last(), state, r_before, *resources, r));
                if r is Ok {
                    assert forall|ra: T, rr: StateResult<()>, rest: Seq<S>|
                        #[trigger] drains(self.states@, *resources, ra, rr, rest) implies drains(
                            initial.stack,
                            r0,
                            ra,
                            rr,
                            rest,
                        ) by {
                        assert(drains(before, r_before, ra, rr, rest));
                    }
                } else {
                    assert(drains(before, r_before, *resources, r, self.states@));
                }
            }
            if r.is_err() {
                result = r;
                break;
            }
        }
        if result.is_ok() {
            self.running = false;
        }
        result
    }

    /// Applies `request`, a transition asked for by the active state.
    pub fn transition(&mut self, request: Transition<S>, resources: &mut T) -> (r: StateResult<()>)
        ensures
            if old(self)@.running {
                transitioned(request, old(self)@, final(self)@, *old(resources), *final(resources), r)
            } else {
                final(self)@ == old(self)@ && *final(resources) == *old(resources) && r is Ok
            },
    {
        if !self.running {
            return Ok(());
        }
        match request {
            Transition::Stay => Ok(()),
            Transition::Pop => self.pop(resources),
            Transition::Push(state) => self.push(state, resources),
            Transition::Switch(state) => self.switch(state, resources),
            Transition::Quit => self.stop(resources),
        }
    }

    /// One tick: `update` on the active state, then the transition it asked for.
    pub fn update(&mut self, resources: &mut T) -> (r: StateResult<()>)
        ensures
            if old(self)@.running {
                updated(old(self)@, final(self)@, *old(resources), *final(resources), r)
            } else {
                final(self)@ == old(self)@ && *final(resources) == *old(resources) && r is Ok
            },
    {
        if !self.running {
            return Ok(());
        }
        let n = self.states.len();
        if n == 0 {
            return Err(StateMachineError::NoStatesPresent);
        }
        let requested = self.states[n - 1].update(resources);
        let ghost mid = self@;
        let ghost rm = *resources;
        proof {
            assert(mid.stack =~= old(self)@.stack.update(n - 1, mid.stack[n - 1]));
        }
        let r = match requested {
            Ok(t) => self.transition(t, resources),
            Err(e) => Err(e),
        };
        proof {
            assert(S::update_post(old(self)@.stack[n - 1], mid.stack[n - 1], *old(resources), rm, requested));
        }
        r
    }
}

} // verus!
