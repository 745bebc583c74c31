use elder::state::{State, StateMachine, StateMachineError, StateResult, Transition};

/// What the probes write their hook calls to, and the transitions their
/// `update` hands back, in order.
#[derive(Default)]
pub struct Journal {
    events: Vec<String>,
    script: Vec<Step>,
    failing: Vec<String>,
}

#[derive(Clone, Copy)]
pub enum Step {
    Stay,
    Pop,
    Push(&'static str),
    Switch(&'static str),
    Quit,
}

pub struct Probe {
    name: &'static str,
}

fn probe(name: &'static str) -> Probe {
    Probe { name }
}

impl Probe {
    fn note(&self, journal: &mut Journal, hook: &str) -> StateResult<()> {
        let event = format!("{} {}", hook, self.name);
        let fails = journal.failing.contains(&event);
        journal.events.push(event);
        if fails {
            Err(StateMachineError::Hook(format!("{} failed", hook)))
        } else {
            Ok(())
        }
    }
}

impl State<Journal> for Probe {
    fn label(&self) -> String {
        self.name.to_string()
    }

    fn on_start(&mut self, journal: &mut Journal) -> StateResult<()> {
        self.note(journal, "start")
    }

    fn on_stop(&mut self, journal: &mut Journal) -> StateResult<()> {
        self.note(journal, "stop")
    }

    fn on_pause(&mut self, journal: &mut Journal) -> StateResult<()> {
        self.note(journal, "pause")
    }

    fn on_resume(&mut self, journal: &mut Journal) -> StateResult<()> {
        self.note(journal, "resume")
    }

    fn update(&mut self, journal: &mut Journal) -> StateResult<Transition<Self>> {
        self.note(journal, "update")?;
        let step = if journal.script.is_empty() { Step::Stay } else { journal.script.remove(0) };
        Ok(match step {
            Step::Stay => Transition::Stay,
            Step::Pop => Transition::Pop,
            Step::Push(name) => Transition::Push(probe(name)),
            Step::Switch(name) => Transition::Switch(probe(name)),
            Step::Quit => Transition::Quit,
        })
    }
}

fn label(name: &str) -> Option<String> {
    Some(name.to_string())
}

fn running_machine(journal: &mut Journal, names: &[&'static str]) -> StateMachine<Journal, Probe> {
    let mut machine = StateMachine::new(probe(names[0]));
    machine.start(journal).unwrap();
    for name in &names[1..] {
        machine.push(probe(name), journal).unwrap();
    }
    journal.events.clear();
    machine
}

#[test]
fn fresh_machine_shows_no_label() {
    let mut journal = Journal::default();
    let mut machine = StateMachine::new(probe("A"));
    assert!(!machine.is_running());
    assert_eq!(machine.active_state_label(), None);
    assert_eq!(machine.depth(), 1);
    machine.update(&mut journal).unwrap();
    machine.push(probe("B"), &mut journal).unwrap();
    assert!(!machine.is_running());
    assert_eq!(machine.depth(), 1);
    assert!(journal.events.is_empty());
}

#[test]
fn start_twice_starts_once() {
    let mut journal = Journal::default();
    let mut machine = StateMachine::new(probe("A"));
    machine.start(&mut journal).unwrap();
    machine.start(&mut journal).unwrap();
    assert_eq!(journal.events, vec!["start A"]);
    assert_eq!(machine.active_state_label(), label("A"));
}

#[test]
fn quit_stops_every_state_from_the_top() {
    let mut journal = Journal::default();
    let mut machine = running_machine(&mut journal, &["A", "B", "C"]);
    journal.script = vec![Step::Quit];
    machine.update(&mut journal).unwrap();
    assert!(!machine.is_running());
    assert_eq!(machine.depth(), 0);
    assert_eq!(journal.events, vec!["update C", "stop C", "stop B", "stop A"]);
    assert_eq!(machine.active_state_label(), None);
}

#[test]
fn push_pauses_then_starts() {
    let mut journal = Journal::default();
    let mut machine = running_machine(&mut journal, &["A"]);
    machine.push(probe("B"), &mut journal).unwrap();
    assert_eq!(machine.depth(), 2);
    assert_eq!(journal.events, vec!["pause A", "start B"]);
}

#[test]
fn pop_resumes_the_state_below() {
    let mut journal = Journal::default();
    let mut machine = running_machine(&mut journal, &["A", "B"]);
    machine.pop(&mut journal).unwrap();
    assert_eq!(machine.depth(), 1);
    assert!(machine.is_running());
    assert_eq!(journal.events, vec!["stop B", "resume A"]);
}

#[test]
fn pop_of_the_last_state_stops_the_machine() {
    let mut journal = Journal::default();
    let mut machine = running_machine(&mut journal, &["A"]);
    machine.pop(&mut journal).unwrap();
    assert_eq!(machine.depth(), 0);
    assert!(!machine.is_running());
    assert_eq!(journal.events, vec!["stop A"]);
}

#[test]
fn switch_stops_then_starts() {
    let mut journal = Journal::default();
    let mut machine = running_machine(&mut journal, &["A", "B"]);
    machine.switch(probe("C"), &mut journal).unwrap();
    assert_eq!(machine.depth(), 2);
    assert_eq!(journal.events, vec!["stop B", "start C"]);
    assert_eq!(machine.active_state_label(), label("C"));
}

#[test]
fn push_pop_quit_scenario() {
    let mut journal = Journal::default();
    journal.script = vec![Step::Push("B"), Step::Pop, Step::Quit];
    let mut machine = StateMachine::new(probe("A"));
    assert_eq!(machine.depth(), 1);
    machine.start(&mut journal).unwrap();

    machine.update(&mut journal).unwrap();
    assert_eq!(machine.depth(), 2);
    assert_eq!(machine.active_state_label(), label("B"));
    assert_eq!(journal.events, vec!["start A", "update A", "pause A", "start B"]);

    machine.update(&mut journal).unwrap();
    assert_eq!(machine.depth(), 1);
    assert_eq!(machine.active_state_label(), label("A"));
    assert_eq!(journal.events[4..], ["update B", "stop B", "resume A"]);

    machine.update(&mut journal).unwrap();
    assert_eq!(machine.depth(), 0);
    assert!(!machine.is_running());
    assert_eq!(journal.events[7..], ["update A", "stop A"]);
}

#[test]
fn switch_transition_from_update() {
    let mut journal = Journal::default();
    journal.script = vec![Step::Switch("B")];
    let mut machine = running_machine(&mut journal, &["A"]);
    machine.update(&mut journal).unwrap();
    assert_eq!(machine.depth(), 1);
    assert_eq!(journal.events, vec!["update A", "stop A", "start B"]);
}

#[test]
fn stay_transition_changes_nothing() {
    let mut journal = Journal::default();
    let mut machine = running_machine(&mut journal, &["A", "B"]);
    machine.transition(Transition::Stay, &mut journal).unwrap();
    machine.update(&mut journal).unwrap();
    assert_eq!(machine.depth(), 2);
    assert_eq!(journal.events, vec!["update B"]);
}

#[test]
fn start_after_quit_finds_no_state() {
    let mut journal = Journal::default();
    let mut machine = running_machine(&mut journal, &["A"]);
    machine.stop(&mut journal).unwrap();
    assert_eq!(machine.start(&mut journal), Err(StateMachineError::NoStatesPresent));
    assert!(machine.is_running());
    assert_eq!(machine.active_state_label(), None);
    assert_eq!(machine.update(&mut journal), Err(StateMachineError::NoStatesPresent));
    assert!(machine.active_state_mut().is_err());
}

#[test]
fn failing_start_leaves_machine_running() {
    let mut journal = Journal::default();
    journal.failing = vec!["start A".to_string()];
    let mut machine = StateMachine::new(probe("A"));
    let result = machine.start(&mut journal);
    assert_eq!(result, Err(StateMachineError::Hook("start failed".to_string())));
    assert!(machine.is_running());
    assert_eq!(machine.start(&mut journal), Ok(()));
    assert_eq!(journal.events, vec!["start A"]);
}

#[test]
fn failing_stop_in_switch_leaves_replacement_out() {
    let mut journal = Journal::default();
    let mut machine = running_machine(&mut journal, &["A", "B"]);
    journal.failing = vec!["stop B".to_string()];
    let result = machine.switch(probe("C"), &mut journal);
    assert_eq!(result, Err(StateMachineError::Hook("stop failed".to_string())));
    assert_eq!(machine.depth(), 1);
    assert_eq!(machine.active_state_label(), label("A"));
    assert_eq!(journal.events, vec!["stop B"]);
}

#[test]
fn failing_start_in_switch_keeps_replacement() {
    let mut journal = Journal::default();
    let mut machine = running_machine(&mut journal, &["A"]);
    journal.failing = vec!["start C".to_string()];
    let result = machine.switch(probe("C"), &mut journal);
    assert!(result.is_err());
    assert_eq!(machine.depth(), 1);
    assert_eq!(machine.active_state_label(), label("C"));
}

#[test]
fn failing_pause_drops_pushed_state() {
    let mut journal = Journal::default();
    let mut machine = running_machine(&mut journal, &["A"]);
    journal.failing = vec!["pause A".to_string()];
    assert!(machine.push(probe("B"), &mut journal).is_err());
    assert_eq!(machine.depth(), 1);
    assert_eq!(journal.events, vec!["pause A"]);
}

#[test]
fn failing_stop_halts_the_drain() {
    let mut journal = Journal::default();
    let mut machine = running_machine(&mut journal, &["A", "B", "C"]);
    journal.failing = vec!["stop B".to_string()];
    assert!(machine.stop(&mut journal).is_err());
    assert_eq!(machine.depth(), 1);
    assert!(machine.is_running());
    assert_eq!(journal.events, vec!["stop C", "stop B"]);
}

#[test]
fn failing_update_applies_no_transition() {
    let mut journal = Journal::default();
    let mut machine = running_machine(&mut journal, &["A"]);
    journal.script = vec![Step::Quit];
    journal.failing = vec!["update A".to_string()];
    assert!(machine.update(&mut journal).is_err());
    assert_eq!(machine.depth(), 1);
    assert!(machine.is_running());
    assert_eq!(journal.script.len(), 1);
}

#[test]
fn active_state_mut_reaches_the_top() {
    let mut journal = Journal::default();
    let mut machine = running_machine(&mut journal, &["A", "B"]);
    *machine.active_state_mut().unwrap() = probe("Z");
    assert_eq!(machine.active_state_label(), label("Z"));
    assert_eq!(machine.depth(), 2);
}

pub struct Plain;

impl State<()> for Plain {
    fn label(&self) -> String {
        "Unlabeled State".to_string()
    }

    fn on_start(&mut self, _resources: &mut ()) -> StateResult<()> {
        Ok(())
    }

    fn on_stop(&mut self, _resources: &mut ()) -> StateResult<()> {
        Ok(())
    }

    fn on_pause(&mut self, _resources: &mut ()) -> StateResult<()> {
        Ok(())
    }

    fn on_resume(&mut self, _resources: &mut ()) -> StateResult<()> {
        Ok(())
    }

    fn update(&mut self, _resources: &mut ()) -> StateResult<Transition<Self>> {
        Ok(Transition::Stay)
    }
}

#[test]
fn no_op_state_runs_quietly() {
    let mut machine = StateMachine::new(Plain);
    machine.start(&mut ()).unwrap();
    assert_eq!(machine.active_state_label(), label("Unlabeled State"));
    machine.update(&mut ()).unwrap();
    machine.push(Plain, &mut ()).unwrap();
    machine.pop(&mut ()).unwrap();
    assert!(machine.is_running());
    machine.stop(&mut ()).unwrap();
    assert!(!machine.is_running());
}
