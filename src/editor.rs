use vstd::prelude::*;
use crate::state::{State, StateResult, Transition};

verus! {

/// The editor's screen: a state that keeps itself active and never fails.
#[derive(Default)]
pub struct Editor;

impl State<()> for Editor {
    open spec fn label_spec(&self) -> Seq<char> {
        "Elder Game Engine - Editor"@
    }

    fn label(&self) -> (r: String) {
        String::from_str("Elder Game Engine - Editor")
    }

    fn on_start(&mut self, _resources: &mut ()) -> (r: StateResult<()>) {
        Ok(())
    }

    fn on_stop(&mut self, _resources: &mut ()) -> (r: StateResult<()>) {
        Ok(())
    }

    fn on_pause(&mut self, _resources: &mut ()) -> (r: StateResult<()>) {
        Ok(())
    }

    fn on_resume(&mut self, _resources: &mut ()) -> (r: StateResult<()>) {
        Ok(())
    }

    fn update(&mut self, _resources: &mut ()) -> (r: StateResult<Transition<Self>>) {
        Ok(Transition::Stay)
    }
}

} // verus!
