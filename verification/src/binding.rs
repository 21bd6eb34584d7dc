//! Decisions of a binding program.
//!
//! A binding program performs an action whenever a watched binding changes:
//! straight away, or once the scene is idle. It stops when its parent program
//! stops. The host runs the action and watches the binding; this module
//! decides what it does for each message.

use vstd::prelude::*;
use crate::ids::ProgramId;

verus! {

/// When the binding action is carried out.
#[derive(Clone, Copy, Debug, PartialEq, Eq, Structural)]
pub enum BindingTrigger {
    /// As soon as the binding changes
    Immediate,
    /// Once the scene is idle
    WaitForIdle,
}

/// Messages to a binding program.
#[derive(Clone, Copy, Debug, PartialEq, Eq, Structural)]
pub enum BindingProgram {
    /// The scene is idle
    Idle,
    /// The binding has changed
    BindingChanged,
    /// A program of the scene has stopped
    Stopped(ProgramId),
    /// Any other update about the scene
    OtherUpdate,
}

/// What the host does next.
#[derive(Clone, Copy, Debug, PartialEq, Eq, Structural)]
pub enum BindingEffect {
    /// Subscribe to updates about the scene (to hear when the parent stops)
    SubscribeToUpdates,
    /// Stop watching the binding
    ReleaseTracker,
    /// Watch the binding again, read its value and run the action with it
    TrackAndRun,
    /// Ask for an idle notification
    RequestIdle,
    /// Stop the binding program
    Stop,
}

/// The configuration of a binding action: when it runs and which program it lives as long as.
#[derive(Clone, Copy, Debug, PartialEq, Eq, Structural)]
pub struct BindingAction {
    pub parent_program: Option<ProgramId>,
    pub trigger: BindingTrigger,
}

/// The effects when the program starts.
pub open spec fn spec_start_effects(a: BindingAction) -> Seq<BindingEffect> {
    if a.parent_program.is_some() {
        seq![BindingEffect::SubscribeToUpdates, BindingEffect::TrackAndRun]
    } else {
        seq![BindingEffect::TrackAndRun]
    }
}

/// The effects of one message.
pub open spec fn spec_binding_effects(a: BindingAction, msg: BindingProgram) -> Seq<BindingEffect> {
    match msg {
        BindingProgram::BindingChanged => match a.trigger {
            BindingTrigger::Immediate => seq![BindingEffect::ReleaseTracker, BindingEffect::TrackAndRun],
            BindingTrigger::WaitForIdle => seq![BindingEffect::ReleaseTracker, BindingEffect::RequestIdle],
        },
        BindingProgram::Idle => seq![BindingEffect::TrackAndRun],
        BindingProgram::Stopped(p) => if a.parent_program == Some(p) {
            seq![BindingEffect::Stop]
        } else {
            Seq::empty()
        },
        BindingProgram::OtherUpdate => Seq::empty(),
    }
}

impl BindingAction {
    /// A binding action that waits for idle and has no parent program.
    pub fn new() -> (a: Self)
        ensures
            a.parent_program.is_none(),
            a.trigger == BindingTrigger::WaitForIdle,
    {
        BindingAction { parent_program: None, trigger: BindingTrigger::WaitForIdle }
    }

    /// The same action with another trigger.
    pub fn with_trigger(self, new_trigger: BindingTrigger) -> (a: Self)
        ensures
            a == (BindingAction { trigger: new_trigger, ..self }),
    {
        BindingAction { trigger: new_trigger, ..self }
    }

    /// The same action, stopping when the given program stops.
    pub fn with_parent_program(self, parent_program: ProgramId) -> (a: Self)
        ensures
            a == (BindingAction { parent_program: Some(parent_program), ..self }),
    {
        BindingAction { parent_program: Some(parent_program), ..self }
    }

    /// What the program does when it starts.
    pub fn start_effects(&self) -> (e: Vec<BindingEffect>)
        ensures
            e@ == spec_start_effects(*self),
    {
        let mut e: Vec<BindingEffect> = Vec::new();
        if self.parent_program.is_some() {
            e.push(BindingEffect::SubscribeToUpdates);
        }
        e.push(BindingEffect::TrackAndRun);
        proof {
            if self.parent_program.is_some() {
                assert(e@ =~= seq![BindingEffect::SubscribeToUpdates, BindingEffect::TrackAndRun]);
            } else {
                assert(e@ =~= seq![BindingEffect::TrackAndRun]);
            }
        }
        e
    }

    /// What the program does for one message.
    pub fn effects(&self, msg: BindingProgram) -> (e: Vec<BindingEffect>)
        ensures
            e@ == spec_binding_effects(*self, msg),
    {
        let mut e: Vec<BindingEffect> = Vec::new();
        match msg {
            BindingProgram::BindingChanged => {
                e.push(BindingEffect::ReleaseTracker);
                match self.trigger {
                    BindingTrigger::Immediate => e.push(BindingEffect::TrackAndRun),
                    BindingTrigger::WaitForIdle => e.push(BindingEffect::RequestIdle),
                }
            },
            BindingProgram::Idle => {
                e.push(BindingEffect::TrackAndRun);
            },
            BindingProgram::Stopped(p) => {
                let is_parent = match self.parent_program {
                    Some(pp) => pp.0 == p.0,
                    None => false,
                };
                if is_parent {
                    e.push(BindingEffect::Stop);
                }
            },
            BindingProgram::OtherUpdate => {},
        }
        assert(e@ =~= spec_binding_effects(*self, msg));
        e
    }
}

/// A binding program stops exactly when its parent program stops.
pub proof fn law_stops_only_with_parent(a: BindingAction, msg: BindingProgram)
    ensures
        spec_binding_effects(a, msg).contains(BindingEffect::Stop)
            <==> (a.parent_program.is_some() && msg == BindingProgram::Stopped(a.parent_program.unwrap())),
{
    let e = spec_binding_effects(a, msg);
    if e.contains(BindingEffect::Stop) {
        let i = choose|i: int| 0 <= i < e.len() && e[i] == BindingEffect::Stop;
        assert(e[i] == BindingEffect::Stop);
    }
    if a.parent_program.is_some() && msg == BindingProgram::Stopped(a.parent_program.unwrap()) {
        assert(e[0] == BindingEffect::Stop);
    }
}

/// An action that waits for idle never runs on a change: it runs only when the scene is idle.
pub proof fn law_wait_for_idle_runs_only_when_idle(a: BindingAction, msg: BindingProgram)
    requires
        a.trigger == BindingTrigger::WaitForIdle,
    ensures
        spec_binding_effects(a, msg).contains(BindingEffect::TrackAndRun) <==> msg == BindingProgram::Idle,
{
    let e = spec_binding_effects(a, msg);
    if e.contains(BindingEffect::TrackAndRun) {
        let i = choose|i: int| 0 <= i < e.len() && e[i] == BindingEffect::TrackAndRun;
        assert(e[i] == BindingEffect::TrackAndRun);
    }
    if msg == BindingProgram::Idle {
        assert(e[0] == BindingEffect::TrackAndRun);
    }
}

} // verus!
