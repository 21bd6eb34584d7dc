//! The controls of a dialog: their order, bounds, values and visibility.
//!
//! The state is generic over what the host stores for a control's type (`K`),
//! its value (`V`) and its bounds (`L`); it decides which controls there are,
//! in which order they are shown and which of them are visible.

use vstd::prelude::*;
use crate::ids::ControlId;
use crate::table::Table;

verus! {

/// Requests that change the controls of a dialog.
pub enum DialogControlRequest<K, V, L> {
    /// Adds a control (at the end of the order) with its bounds, type and first value
    AddControl(ControlId, L, K, V),
    /// Sets the value of a control
    SetControlValue(ControlId, V),
    /// Moves a control
    MoveControl(ControlId, L),
    /// Shows or hides a control
    SetVisible(ControlId, bool),
    /// A request about the dialog itself, which leaves the controls alone
    Other,
}

/// What is stored for one control.
pub struct ControlState<V, L> {
    pub location: L,
    pub value: V,
    pub visible: bool,
}

/// The controls of a dialog.
pub struct EguiDialogState<K, V, L> {
    controls: Vec<(ControlId, K)>,
    states: Table<ControlState<V, L>>,
}

/// The mathematical view of a dialog's controls.
pub struct DialogModel<K, V, L> {
    /// The controls in the order they were added (a control added twice appears twice)
    pub controls: Seq<(ControlId, K)>,
    /// The state of each control
    pub states: Map<u128, ControlState<V, L>>,
}

impl<K, V, L> View for EguiDialogState<K, V, L> {
    type V = DialogModel<K, V, L>;

    closed spec fn view(&self) -> DialogModel<K, V, L> {
        DialogModel { controls: self.controls@, states: self.states.map() }
    }
}

/// The effect of a request on the controls.
pub open spec fn spec_update_state<K, V, L>(m: DialogModel<K, V, L>, req: DialogControlRequest<K, V, L>) -> DialogModel<K, V, L> {
    match req {
        DialogControlRequest::AddControl(c, bounds, kind, value) => DialogModel {
            controls: m.controls.push((c, kind)),
            states: m.states.insert(c.0, ControlState { location: bounds, value: value, visible: true }),
        },
        DialogControlRequest::SetControlValue(c, value) => if m.states.dom().contains(c.0) {
            DialogModel { states: m.states.insert(c.0, ControlState { value: value, ..m.states[c.0] }), ..m }
        } else {
            m
        },
        DialogControlRequest::MoveControl(c, bounds) => if m.states.dom().contains(c.0) {
            DialogModel { states: m.states.insert(c.0, ControlState { location: bounds, ..m.states[c.0] }), ..m }
        } else {
            m
        },
        DialogControlRequest::SetVisible(c, visible) => if m.states.dom().contains(c.0) {
            DialogModel { states: m.states.insert(c.0, ControlState { visible: visible, ..m.states[c.0] }), ..m }
        } else {
            m
        },
        DialogControlRequest::Other => m,
    }
}

/// Whether the control at a position of the order is shown: it has a state and is visible.
pub open spec fn shown<K, V, L>(m: DialogModel<K, V, L>, i: int) -> bool {
    m.states.dom().contains(m.controls[i].0.0) && m.states[m.controls[i].0.0].visible
}

/// The positions in the order of the controls that are shown, in order.
pub open spec fn shown_positions<K, V, L>(m: DialogModel<K, V, L>, n: int) -> Seq<usize>
    decreases n,
{
    if n <= 0 {
        Seq::empty()
    } else if shown(m, n - 1) {
        shown_positions(m, n - 1).push((n - 1) as usize)
    } else {
        shown_positions(m, n - 1)
    }
}

impl<K, V, L> EguiDialogState<K, V, L> {
    /// The table is well formed.
    pub closed spec fn wf(self) -> bool {
        self.states.wf()
    }

    /// A dialog with no controls.
    pub fn new() -> (d: Self)
        ensures
            d.wf(),
            d@.controls == Seq::<(ControlId, K)>::empty(),
            d@.states == Map::<u128, ControlState<V, L>>::empty(),
    {
        EguiDialogState { controls: Vec::new(), states: Table::new() }
    }

    /// Updates the controls for a request.
    pub fn update_state(&mut self, req: DialogControlRequest<K, V, L>)
        requires
            old(self).wf(),
        ensures
            final(self).wf(),
            final(self)@ == spec_update_state(old(self)@, req),
    {
        let ghost m = self@;
        match req {
            DialogControlRequest::AddControl(c, bounds, kind, value) => {
                self.controls.push((c, kind));
                self.states.insert(c.0, ControlState { location: bounds, value, visible: true });
            },
            DialogControlRequest::SetControlValue(c, value) => {
                let ghost om = self.states.map();
                match self.states.remove(c.0) {
                    Some(st) => {
                        self.states.insert(c.0, ControlState { location: st.location, value, visible: st.visible });
                        assert(self.states.map() =~= om.insert(c.0, ControlState { value: value, ..om[c.0] }));
                    },
                    None => {
                        assert(om.remove(c.0) =~= om);
                    },
                }
            },
            DialogControlRequest::MoveControl(c, bounds) => {
                let ghost om = self.states.map();
                match self.states.remove(c.0) {
                    Some(st) => {
                        self.states.insert(c.0, ControlState { location: bounds, value: st.value, visible: st.visible });
                        assert(self.states.map() =~= om.insert(c.0, ControlState { location: bounds, ..om[c.0] }));
                    },
                    None => {
                        assert(om.remove(c.0) =~= om);
                    },
                }
            },
            DialogControlRequest::SetVisible(c, visible) => {
                let ghost om = self.states.map();
                match self.states.remove(c.0) {
                    Some(st) => {
                        self.states.insert(c.0, ControlState { location: st.location, value: st.value, visible });
                        assert(self.states.map() =~= om.insert(c.0, ControlState { visible: visible, ..om[c.0] }));
                    },
                    None => {
                        assert(om.remove(c.0) =~= om);
                    },
                }
            },
            DialogControlRequest::Other => {},
        }
    }

    /// The controls in the order they were added.
    pub fn controls(&self) -> (c: &Vec<(ControlId, K)>)
        ensures
            c@ == self@.controls,
    {
        &self.controls
    }

    /// The state of a control.
    pub fn state(&self, c: ControlId) -> (r: Option<&ControlState<V, L>>)
        requires
            self.wf(),
        ensures
            match r {
                Some(s) => self@.states.dom().contains(c.0) && *s == self@.states[c.0],
                None => !self@.states.dom().contains(c.0),
            },
    {
        self.states.get(c.0)
    }

    /// The positions in the order of the controls that are drawn: those with a state that are visible.
    pub fn visible_controls(&self) -> (r: Vec<usize>)
        requires
            self.wf(),
        ensures
            r@ == shown_positions(self@, self@.controls.len() as int),
    {
        let mut r: Vec<usize> = Vec::new();
        let mut i: usize = 0;
        while i < self.controls.len()
            invariant
                self.wf(),
                i <= self@.controls.len(),
                r@ == shown_positions(self@, i as int),
            decreases self@.controls.len() - i,
        {
            let c = self.controls[i].0;
            let show = match self.states.get(c.0) {
                Some(s) => s.visible,
                None => false,
            };
            if show {
                r.push(i);
            }
            i = i + 1;
        }
        r
    }
}

/// A value, bounds or visibility set on a control is what its state reads back afterwards, the
/// rest of its state is kept, and no other control's state changes.
pub proof fn law_control_reads_back_what_was_set<K, V, L>(m: DialogModel<K, V, L>, req: DialogControlRequest<K, V, L>, other: ControlId)
    requires
        m.states.dom().contains(other.0),
    ensures
        ({
            let after = spec_update_state(m, req).states;
            &&& after.dom().contains(other.0)
            &&& match req {
                DialogControlRequest::SetControlValue(c, v) => c == other ==> after[other.0] == ControlState { value: v, ..m.states[other.0] },
                DialogControlRequest::MoveControl(c, b) => c == other ==> after[other.0] == ControlState { location: b, ..m.states[other.0] },
                DialogControlRequest::SetVisible(c, vis) => c == other ==> after[other.0] == ControlState { visible: vis, ..m.states[other.0] },
                DialogControlRequest::AddControl(c, b, _, v) => c == other ==> after[other.0] == ControlState { location: b, value: v, visible: true },
                DialogControlRequest::Other => true,
            }
            &&& match req {
                DialogControlRequest::SetControlValue(c, _) => c.0 != other.0 ==> after[other.0] == m.states[other.0],
                DialogControlRequest::MoveControl(c, _) => c.0 != other.0 ==> after[other.0] == m.states[other.0],
                DialogControlRequest::SetVisible(c, _) => c.0 != other.0 ==> after[other.0] == m.states[other.0],
                DialogControlRequest::AddControl(c, _, _, _) => c.0 != other.0 ==> after[other.0] == m.states[other.0],
                DialogControlRequest::Other => after[other.0] == m.states[other.0],
            }
        }),
{
}

/// What reaches a running dialog.
#[derive(Clone, Copy, Debug, PartialEq, Eq, Structural)]
pub enum DialogEvent {
    /// The scene is idle (the idle event the dialog asked for)
    Idle,
    /// A binding that the dialog's controls read has changed
    BindingsChanged,
    /// A focus event (pointer or keyboard input for the dialog)
    FocusEvent,
    /// A request that changes the dialog's controls
    Dialog,
}

/// What the host does for an event.
#[derive(Clone, Copy, Debug, PartialEq, Eq, Structural)]
pub struct DialogAction {
    /// Run the dialog's user interface and draw it (with the input gathered so far)
    pub run_ui: bool,
    /// Ask the scene for an idle event
    pub request_idle: bool,
}

/// The pacing of a dialog: it runs its user interface only when idle, and anything else that
/// needs a redraw asks for one idle event unless one is already awaited. The first value is
/// whether an idle event is awaited afterwards.
pub open spec fn spec_dialog_step(awaiting_idle: bool, evt: DialogEvent) -> (bool, DialogAction) {
    match evt {
        DialogEvent::Idle => (false, DialogAction { run_ui: true, request_idle: false }),
        _ => (true, DialogAction { run_ui: false, request_idle: !awaiting_idle }),
    }
}

/// Decides what the host does for an event, given whether an idle event is awaited; returns
/// whether one is awaited afterwards, and the action.
pub fn dialog_step(awaiting_idle: bool, evt: DialogEvent) -> (r: (bool, DialogAction))
    ensures
        r == spec_dialog_step(awaiting_idle, evt),
{
    match evt {
        DialogEvent::Idle => (false, DialogAction { run_ui: true, request_idle: false }),
        _ => (true, DialogAction { run_ui: false, request_idle: !awaiting_idle }),
    }
}

/// Idle requests are never doubled: after any event other than idle an idle event is awaited,
/// so a second such event asks for none; and the user interface runs only on idle.
pub proof fn law_one_idle_request_at_a_time(awaiting_idle: bool, first: DialogEvent, second: DialogEvent)
    requires
        !(first is Idle),
        !(second is Idle),
    ensures
        spec_dialog_step(awaiting_idle, first).0,
        !spec_dialog_step(spec_dialog_step(awaiting_idle, first).0, second).1.request_idle,
        !spec_dialog_step(awaiting_idle, first).1.run_ui,
        spec_dialog_step(awaiting_idle, DialogEvent::Idle).1.run_ui,
{
}

} // verus!
