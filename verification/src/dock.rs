//! The state of a tool dock: the fixed dock at the side of the window, or the
//! floating dock of tools that were dragged onto the canvas.
//!
//! A dock follows the tool state messages sent to its location, keeps each
//! tool's flags (selected, highlighted, pressed, focused, dialog open), looks
//! after the tools' sprites, and tracks a press on a tool until it becomes a
//! click or a drag. The host draws, tests the geometry and runs the animations.

use vstd::prelude::*;
use crate::ids::{ToolId, ControlId, SimObjectId, ProgramId};
use crate::table::Table;
use crate::tool_state::{ToolState, Position, IconId};

verus! {

/// Which dock this is.
#[derive(Clone, Copy, Debug, PartialEq, Eq, Structural)]
pub enum DockKind {
    /// The dock at the side of the window, where tools are ordered by their position
    Fixed,
    /// The dock of tools floating over the canvas, placed by a physics simulation
    Floating,
}

/// How the plinth under a tool is drawn.
#[derive(Clone, Copy, Debug, PartialEq, Eq, Structural)]
pub enum ToolPlinthState {
    Unselected,
    Highlighted,
    Selected,
    Pressed,
    /// Drawn under a tool that is being pulled away (the IEEE-754 bits of the fade ratio)
    StartDrag(u64),
    FloatingUnselected,
    FloatingHighlighted,
    FloatingSelected,
    FloatingPressed,
}

/// One tool in a dock.
pub struct DockTool {
    pub control_id: ControlId,
    /// The tool's object in the physics simulation (floating dock)
    pub sim_id: SimObjectId,
    pub name: String,
    /// Where the tool is (the fixed dock orders by this; the simulation moves floating tools)
    pub position: Position,
    /// Where a floating tool is anchored
    pub anchor: Position,
    pub icon: IconId,
    pub sprite: Option<u64>,
    /// Counts the times the sprite was redrawn
    pub sprite_update: u64,
    pub selected: bool,
    pub highlighted: bool,
    pub pressed: bool,
    pub focused: bool,
    pub dialog_open: bool,
    pub dragged: bool,
}

/// The mathematical view of one tool.
pub struct DockToolModel {
    pub control_id: ControlId,
    pub sim_id: SimObjectId,
    pub name: Seq<char>,
    pub position: Position,
    pub anchor: Position,
    pub icon: IconId,
    pub sprite: Option<u64>,
    pub sprite_update: u64,
    pub selected: bool,
    pub highlighted: bool,
    pub pressed: bool,
    pub focused: bool,
    pub dialog_open: bool,
    pub dragged: bool,
}

impl DockTool {
    pub open spec fn model(self) -> DockToolModel {
        DockToolModel {
            control_id: self.control_id,
            sim_id: self.sim_id,
            name: self.name@,
            position: self.position,
            anchor: self.anchor,
            icon: self.icon,
            sprite: self.sprite,
            sprite_update: self.sprite_update,
            selected: self.selected,
            highlighted: self.highlighted,
            pressed: self.pressed,
            focused: self.focused,
            dialog_open: self.dialog_open,
            dragged: self.dragged,
        }
    }
}

/// The identifiers a new tool gets.
#[derive(Clone, Copy, Debug, PartialEq, Eq, Structural)]
pub struct FreshIds {
    pub control: ControlId,
    pub sim: SimObjectId,
}

/// How far a press has got.
#[derive(Clone, Copy, Debug, PartialEq, Eq, Structural)]
pub enum TrackPhase {
    /// The button is down on the tool (`pulling`: it has moved far enough to pull the tool)
    Pressing { pulling: bool },
    /// The tool is being dragged
    Dragging,
}

/// A press being tracked: which tool, which pointer, and how far it has got.
#[derive(Clone, Copy, Debug, PartialEq, Eq, Structural)]
pub struct Tracking {
    pub tool: ToolId,
    pub pointer: u64,
    pub phase: TrackPhase,
}

/// Pointer events, with what the host measured of the geometry.
#[derive(Clone, Copy, Debug, PartialEq, Eq, Structural)]
pub enum DockPointerEvent {
    /// A button went down over a control of the dock (or over none of them)
    ButtonDown { control: Option<ControlId>, pointer: u64, has_location: bool, left_button: bool },
    /// The pointer moved or dragged. `near`: it is within the small distance from where the press
    /// started that does not pull the tool; `within_pull`: it is within the distance that pulls the
    /// tool without dragging it
    Moved { pointer: u64, has_location: bool, near: bool, within_pull: bool },
    /// A button went up. `inside_tool`: over the pressed tool; `over_dock`: over the dock;
    /// `left_still_down`: the left button is still held
    ButtonUp { pointer: u64, has_location: bool, inside_tool: bool, over_dock: bool, left_still_down: bool },
    /// The pointer action was cancelled
    Cancel { pointer: u64 },
    /// The escape key went down
    Escape,
}

/// Focus events that change a tool's flags.
#[derive(Clone, Copy, Debug, PartialEq, Eq, Structural)]
pub enum DockFocusEvent {
    Focused(ControlId),
    Unfocused(ControlId),
    Enter(ControlId),
    Leave(ControlId),
}

/// What the host does.
#[derive(Clone, Copy, Debug, PartialEq, Eq, Structural)]
pub enum DockCommand {
    /// Give the sprite back to the sprite manager
    ReturnSprite(u64),
    /// Remove the focus claim of a tool's control
    RemoveControlClaim(ControlId),
    /// Ask the sprite manager for a sprite for the tool, then report it with `sprite_assigned`
    NeedSprite(ToolId),
    /// Draw the icon into the tool's sprite
    DrawSprite(ToolId, u64, IconId),
    /// Show the tool pulled towards the pointer
    Pull(ToolId),
    /// The tool starts being dragged: reset its animations
    StartDrag(ToolId),
    /// Show the tool dragged with the pointer
    Drag(ToolId),
    /// Place the tool's dialog next to it and ask for it to be opened
    OpenDialog(ToolId),
    /// Ask for the tool's dialog to be closed
    CloseDialog(ToolId),
    /// Ask for the tool to be selected
    Select(ToolId),
    /// Animate the dragged tool back onto the dock
    CancelDrop(ToolId),
    /// Animate the drop, then put a copy of the tool on the floating dock where it was dropped
    DropOnFloating(ToolId),
    /// Ask for the tool to be moved to where it was dragged
    MoveTool(ToolId),
    /// Clear the tool's drag state and animations
    EndTracking(ToolId),
}

/// The mathematical view of a dock.
pub struct DockModel {
    pub kind: DockKind,
    /// The floating dock that tools dragged off this one go to
    pub floating_program: Option<ProgramId>,
    pub tools: Map<u128, DockToolModel>,
    /// The tools in the order they were added
    pub order: Seq<u128>,
    pub tracking: Option<Tracking>,
}

/// The state of a dock.
pub struct ToolDock {
    kind: DockKind,
    floating_program: Option<ProgramId>,
    tools: Table<DockTool>,
    tracking: Option<Tracking>,
}

/// The table of tools as a map of tool models.
pub open spec fn tool_map(m: Map<u128, DockTool>) -> Map<u128, DockToolModel> {
    m.map_values(|t: DockTool| t.model())
}

impl View for ToolDock {
    type V = DockModel;

    closed spec fn view(&self) -> DockModel {
        DockModel {
            kind: self.kind,
            floating_program: self.floating_program,
            tools: tool_map(self.tools.map()),
            order: self.tools.key_seq(),
            tracking: self.tracking,
        }
    }
}

/// The IEEE-754 bits of the point (0, 0).
pub open spec fn origin() -> Position {
    Position { x_bits: 0, y_bits: 0 }
}

/// The IEEE-754 bits of the point (200, 200), where a new floating tool starts.
pub open spec fn floating_start() -> Position {
    Position { x_bits: 0x4069_0000_0000_0000, y_bits: 0x4069_0000_0000_0000 }
}

/// A tool with no icon, sprite or flags.
pub open spec fn blank_tool(kind: DockKind, fresh: FreshIds, name: Seq<char>, position: Position, anchor: Position, icon: IconId) -> DockToolModel {
    DockToolModel {
        control_id: fresh.control,
        sim_id: if kind == DockKind::Floating { fresh.sim } else { SimObjectId(0) },
        name: name,
        position: position,
        anchor: anchor,
        icon: icon,
        sprite: None,
        sprite_update: 0,
        selected: false,
        highlighted: false,
        pressed: false,
        focused: false,
        dialog_open: false,
        dragged: false,
    }
}

/// A tool added to the dock.
pub open spec fn new_tool(kind: DockKind, fresh: FreshIds) -> DockToolModel {
    match kind {
        DockKind::Fixed => blank_tool(kind, fresh, Seq::empty(), origin(), origin(), IconId(0)),
        DockKind::Floating => blank_tool(kind, fresh, Seq::empty(), floating_start(), origin(), IconId(0)),
    }
}

/// A copy of a tool: the fixed dock copies its position and icon; the floating dock its
/// anchor, name, position and icon. Everything else starts afresh.
pub open spec fn duplicate_tool(kind: DockKind, from: DockToolModel, fresh: FreshIds) -> DockToolModel {
    match kind {
        DockKind::Fixed => blank_tool(kind, fresh, Seq::empty(), from.position, origin(), from.icon),
        DockKind::Floating => blank_tool(kind, fresh, from.name, from.position, from.anchor, from.icon),
    }
}

/// The dock with a tool changed, if the tool is there.
pub open spec fn update_tool(m: DockModel, t: u128, f: spec_fn(DockToolModel) -> DockToolModel) -> DockModel {
    if m.tools.dom().contains(t) {
        DockModel { tools: m.tools.insert(t, f(m.tools[t])), ..m }
    } else {
        m
    }
}

/// The dock with a tool stored (a new tool goes at the end of the order).
pub open spec fn put_tool(m: DockModel, t: u128, tool: DockToolModel) -> DockModel {
    DockModel {
        tools: m.tools.insert(t, tool),
        order: if m.order.contains(t) { m.order } else { m.order.push(t) },
        ..m
    }
}

/// Whether a request can be handled without a counter overflowing.
pub open spec fn can_apply(m: DockModel, msg: ToolState) -> bool {
    match msg {
        ToolState::SetIcon(t, _) => m.tools.dom().contains(t.0) && m.tools[t.0].sprite.is_some()
            ==> m.tools[t.0].sprite_update < u64::MAX,
        _ => true,
    }
}

/// The effect of a tool state message on the dock.
pub open spec fn spec_apply(m: DockModel, msg: ToolState, fresh: FreshIds) -> (DockModel, Seq<DockCommand>) {
    match msg {
        ToolState::AddTool(t) => (put_tool(m, t.0, new_tool(m.kind, fresh)), Seq::empty()),
        ToolState::DuplicateTool(from, to) => if m.tools.dom().contains(from.0) {
            (put_tool(m, to.0, duplicate_tool(m.kind, m.tools[from.0], fresh)), Seq::empty())
        } else {
            (m, Seq::empty())
        },
        ToolState::SetIcon(t, icon) => if m.tools.dom().contains(t.0) {
            let tool = m.tools[t.0];
            match tool.sprite {
                Some(s) => (
                    DockModel { tools: m.tools.insert(t.0, DockToolModel { icon: icon, sprite_update: (tool.sprite_update + 1) as u64, ..tool }), ..m },
                    seq![DockCommand::DrawSprite(t, s, icon)],
                ),
                None => (
                    DockModel { tools: m.tools.insert(t.0, DockToolModel { icon: icon, ..tool }), ..m },
                    seq![DockCommand::NeedSprite(t)],
                ),
            }
        } else {
            (m, Seq::empty())
        },
        ToolState::LocateTool(t, pos) => (
            update_tool(m, t.0, |tool: DockToolModel| if m.kind == DockKind::Fixed {
                DockToolModel { position: pos, ..tool }
            } else {
                DockToolModel { anchor: pos, ..tool }
            }),
            Seq::empty(),
        ),
        ToolState::RemoveTool(t) => if m.tools.dom().contains(t.0) {
            let tool = m.tools[t.0];
            (
                DockModel { tools: m.tools.remove(t.0), order: m.order.remove(m.order.index_of(t.0)), ..m },
                (match tool.sprite { Some(s) => seq![DockCommand::ReturnSprite(s)], None => Seq::empty() })
                    + (if m.kind == DockKind::Fixed { seq![DockCommand::RemoveControlClaim(tool.control_id)] } else { Seq::empty() }),
            )
        } else {
            (m, Seq::empty())
        },
        ToolState::Select(t) => (update_tool(m, t.0, |tool: DockToolModel| DockToolModel { selected: true, ..tool }), Seq::empty()),
        ToolState::Deselect(t) => (update_tool(m, t.0, |tool: DockToolModel| DockToolModel { selected: false, ..tool }), Seq::empty()),
        ToolState::OpenDialog(t) => (update_tool(m, t.0, |tool: DockToolModel| DockToolModel { dialog_open: true, ..tool }), Seq::empty()),
        ToolState::CloseDialog(t) => (update_tool(m, t.0, |tool: DockToolModel| DockToolModel { dialog_open: false, ..tool }), Seq::empty()),
        ToolState::SetName(t, name) => if m.kind == DockKind::Floating {
            (update_tool(m, t.0, |tool: DockToolModel| DockToolModel { name: name@, ..tool }), Seq::empty())
        } else {
            (m, Seq::empty())
        },
        ToolState::SetDialogLocation(_, _) => (m, Seq::empty()),
    }
}

/// The sprite manager assigned a sprite to a tool: it is stored and the icon drawn into it.
pub open spec fn spec_sprite_assigned(m: DockModel, t: ToolId, sprite: u64) -> (DockModel, Seq<DockCommand>) {
    if m.tools.dom().contains(t.0) {
        let tool = m.tools[t.0];
        (
            DockModel { tools: m.tools.insert(t.0, DockToolModel { sprite: Some(sprite), sprite_update: (tool.sprite_update + 1) as u64, ..tool }), ..m },
            seq![DockCommand::DrawSprite(t, sprite, tool.icon)],
        )
    } else {
        (m, Seq::empty())
    }
}

/// The tools with a flag set on every tool whose control is `c`.
pub open spec fn spec_focus_event(m: DockModel, evt: DockFocusEvent) -> DockModel {
    DockModel {
        tools: Map::new(
            |k: u128| m.tools.dom().contains(k),
            |k: u128| {
                let tool = m.tools[k];
                match evt {
                    DockFocusEvent::Focused(c) => if tool.control_id == c { DockToolModel { focused: true, ..tool } } else { tool },
                    DockFocusEvent::Unfocused(c) => if tool.control_id == c { DockToolModel { focused: false, ..tool } } else { tool },
                    DockFocusEvent::Enter(c) => if tool.control_id == c { DockToolModel { highlighted: true, ..tool } } else { tool },
                    DockFocusEvent::Leave(c) => if tool.control_id == c { DockToolModel { highlighted: false, ..tool } } else { tool },
                }
            },
        ),
        ..m
    }
}

/// The plinth under a tool of the fixed dock: selected, else pressed, else highlighted
/// (pointer over it or keyboard focus on it), else unselected.
pub open spec fn spec_plinth_state(t: DockToolModel) -> ToolPlinthState {
    if t.selected {
        ToolPlinthState::Selected
    } else if t.pressed {
        ToolPlinthState::Pressed
    } else if t.highlighted || t.focused {
        ToolPlinthState::Highlighted
    } else {
        ToolPlinthState::Unselected
    }
}

/// The plinth under a tool of the floating dock: selected, else pressed, else highlighted, else unselected.
pub open spec fn spec_floating_plinth_state(t: DockToolModel) -> ToolPlinthState {
    if t.selected {
        ToolPlinthState::FloatingSelected
    } else if t.pressed {
        ToolPlinthState::FloatingPressed
    } else if t.highlighted {
        ToolPlinthState::FloatingHighlighted
    } else {
        ToolPlinthState::FloatingUnselected
    }
}

/// The first tool, in the order they were added, whose control is `c`.
pub open spec fn tool_with_control(tools: Map<u128, DockToolModel>, order: Seq<u128>, c: ControlId) -> Option<u128>
    decreases order.len(),
{
    if order.len() == 0 {
        None
    } else {
        match tool_with_control(tools, order.drop_last(), c) {
            Some(t) => Some(t),
            None => if tools.dom().contains(order.last()) && tools[order.last()].control_id == c {
                Some(order.last())
            } else {
                None
            },
        }
    }
}

/// A flag of the pressed tool, or false if it is gone.
pub open spec fn selected_of(m: DockModel, t: u128) -> bool {
    m.tools.dom().contains(t) && m.tools[t].selected
}

/// The dialog flag of the pressed tool, or false if it is gone.
pub open spec fn dialog_open_of(m: DockModel, t: u128) -> bool {
    m.tools.dom().contains(t) && m.tools[t].dialog_open
}

/// Setting the pressed and dragged flags of a tool, if it is there.
pub open spec fn set_press(m: DockModel, t: u128, pressed: bool, dragged: bool) -> DockModel {
    update_tool(m, t, |tool: DockToolModel| DockToolModel { pressed: pressed, dragged: dragged, ..tool })
}

/// Finishing a press: the tool is released and tracking stops.
pub open spec fn finish(m: DockModel, t: ToolId) -> (DockModel, Seq<DockCommand>) {
    (DockModel { tracking: None, ..set_press(m, t.0, false, false) }, seq![DockCommand::EndTracking(t)])
}

/// A pointer event on the fixed dock.
pub open spec fn spec_fixed_pointer(m: DockModel, evt: DockPointerEvent) -> (DockModel, Seq<DockCommand>) {
    match m.tracking {
        None => match evt {
            DockPointerEvent::ButtonDown { control: Some(c), pointer, has_location, left_button: _ } => {
                match tool_with_control(m.tools, m.order, c) {
                    Some(t) => if has_location {
                        (
                            DockModel {
                                tracking: Some(Tracking { tool: ToolId(t), pointer: pointer, phase: TrackPhase::Pressing { pulling: false } }),
                                ..set_press(m, t, true, false)
                            },
                            Seq::empty(),
                        )
                    } else {
                        (m, Seq::empty())
                    },
                    None => (m, Seq::empty()),
                }
            },
            _ => (m, Seq::empty()),
        },
        Some(tr) => {
            let t = tr.tool;
            match tr.phase {
                TrackPhase::Pressing { pulling } => match evt {
                    DockPointerEvent::Moved { pointer, has_location, near, within_pull } => if pointer != tr.pointer || !has_location {
                        (m, Seq::empty())
                    } else if !pulling && near {
                        (m, Seq::empty())
                    } else if within_pull {
                        (DockModel { tracking: Some(Tracking { phase: TrackPhase::Pressing { pulling: true }, ..tr }), ..m }, seq![DockCommand::Pull(t)])
                    } else {
                        (
                            DockModel { tracking: Some(Tracking { phase: TrackPhase::Dragging, ..tr }), ..set_press(m, t.0, false, false) },
                            seq![DockCommand::StartDrag(t)],
                        )
                    },
                    DockPointerEvent::ButtonUp { pointer, has_location, inside_tool, over_dock: _, left_still_down: _ } => if pointer != tr.pointer {
                        (m, Seq::empty())
                    } else {
                        let decision = if has_location && inside_tool {
                            if selected_of(m, t.0) {
                                if !dialog_open_of(m, t.0) { seq![DockCommand::OpenDialog(t)] } else { seq![DockCommand::CloseDialog(t)] }
                            } else {
                                seq![DockCommand::Select(t)]
                            }
                        } else {
                            Seq::empty()
                        };
                        let (m2, out) = finish(m, t);
                        (m2, decision + out)
                    },
                    DockPointerEvent::Cancel { pointer } => if pointer != tr.pointer { (m, Seq::empty()) } else { finish(m, t) },
                    _ => (m, Seq::empty()),
                },
                TrackPhase::Dragging => match evt {
                    DockPointerEvent::Moved { pointer, has_location, near: _, within_pull: _ } => if pointer == tr.pointer && has_location {
                        (m, seq![DockCommand::Drag(t)])
                    } else {
                        (m, Seq::empty())
                    },
                    DockPointerEvent::ButtonUp { pointer, has_location: _, inside_tool: _, over_dock, left_still_down: _ } => if pointer != tr.pointer {
                        (m, Seq::empty())
                    } else if over_dock || m.floating_program.is_none() {
                        (DockModel { tracking: None, ..m }, seq![DockCommand::CancelDrop(t)])
                    } else {
                        (DockModel { tracking: None, ..m }, seq![DockCommand::DropOnFloating(t)])
                    },
                    DockPointerEvent::Escape => (DockModel { tracking: None, ..m }, seq![DockCommand::CancelDrop(t)]),
                    DockPointerEvent::Cancel { pointer } => if pointer != tr.pointer {
                        (m, Seq::empty())
                    } else {
                        (DockModel { tracking: None, ..m }, seq![DockCommand::CancelDrop(t)])
                    },
                    _ => (m, Seq::empty()),
                },
            }
        },
    }
}

/// A pointer event on the floating dock.
pub open spec fn spec_floating_pointer(m: DockModel, evt: DockPointerEvent) -> (DockModel, Seq<DockCommand>) {
    match m.tracking {
        None => match evt {
            DockPointerEvent::ButtonDown { control: Some(c), pointer, has_location: _, left_button: true } => {
                match tool_with_control(m.tools, m.order, c) {
                    Some(t) => (
                        DockModel {
                            tracking: Some(Tracking { tool: ToolId(t), pointer: pointer, phase: TrackPhase::Pressing { pulling: false } }),
                            ..set_press(m, t, true, false)
                        },
                        Seq::empty(),
                    ),
                    None => (m, Seq::empty()),
                }
            },
            _ => (m, Seq::empty()),
        },
        Some(tr) => {
            let t = tr.tool;
            match tr.phase {
                TrackPhase::Pressing { pulling: _ } => match evt {
                    DockPointerEvent::Moved { pointer, has_location, near: _, within_pull } => if pointer != tr.pointer || !has_location {
                        (m, Seq::empty())
                    } else if within_pull {
                        (m, seq![DockCommand::Pull(t)])
                    } else {
                        (
                            DockModel { tracking: Some(Tracking { phase: TrackPhase::Dragging, ..tr }), ..set_press(m, t.0, false, true) },
                            seq![DockCommand::Pull(t), DockCommand::StartDrag(t)],
                        )
                    },
                    DockPointerEvent::ButtonUp { pointer, has_location: _, inside_tool: _, over_dock: _, left_still_down } => if pointer != tr.pointer || left_still_down {
                        (m, Seq::empty())
                    } else {
                        let (m2, out) = finish(m, t);
                        (m2, seq![DockCommand::Select(t)] + out)
                    },
                    _ => (m, Seq::empty()),
                },
                TrackPhase::Dragging => match evt {
                    DockPointerEvent::Moved { pointer, has_location, near: _, within_pull: _ } => if pointer == tr.pointer && has_location {
                        (m, seq![DockCommand::Drag(t)])
                    } else {
                        (m, Seq::empty())
                    },
                    DockPointerEvent::ButtonUp { pointer, has_location, inside_tool: _, over_dock: _, left_still_down } => if pointer != tr.pointer || left_still_down {
                        (m, Seq::empty())
                    } else {
                        let (m2, out) = finish(m, t);
                        (m2, (if has_location { seq![DockCommand::MoveTool(t)] } else { Seq::empty() }) + out)
                    },
                    _ => (m, Seq::empty()),
                },
            }
        },
    }
}

/// A pointer event on a dock.
pub open spec fn spec_pointer_event(m: DockModel, evt: DockPointerEvent) -> (DockModel, Seq<DockCommand>) {
    match m.kind {
        DockKind::Fixed => spec_fixed_pointer(m, evt),
        DockKind::Floating => spec_floating_pointer(m, evt),
    }
}


proof fn lemma_tool_map_insert(m: Map<u128, DockTool>, k: u128, v: DockTool)
    ensures
        tool_map(m.insert(k, v)) == tool_map(m).insert(k, v.model()),
{
    assert(tool_map(m.insert(k, v)) =~= tool_map(m).insert(k, v.model()));
}

proof fn lemma_tool_map_remove(m: Map<u128, DockTool>, k: u128)
    ensures
        tool_map(m.remove(k)) == tool_map(m).remove(k),
{
    assert(tool_map(m.remove(k)) =~= tool_map(m).remove(k));
}

/// A copy of a tool.
fn copy_tool(t: &DockTool) -> (r: DockTool)
    ensures
        r.model() == t.model(),
{
    DockTool {
        control_id: t.control_id,
        sim_id: t.sim_id,
        name: t.name.clone(),
        position: t.position,
        anchor: t.anchor,
        icon: t.icon,
        sprite: t.sprite,
        sprite_update: t.sprite_update,
        selected: t.selected,
        highlighted: t.highlighted,
        pressed: t.pressed,
        focused: t.focused,
        dialog_open: t.dialog_open,
        dragged: t.dragged,
    }
}

/// A tool with no icon, sprite or flags.
fn make_blank_tool(kind: DockKind, fresh: FreshIds, name: String, position: Position, anchor: Position, icon: IconId) -> (r: DockTool)
    ensures
        r.model() == blank_tool(kind, fresh, name@, position, anchor, icon),
{
    let sim_id = match kind { DockKind::Floating => fresh.sim, DockKind::Fixed => SimObjectId(0) };
    DockTool {
        control_id: fresh.control,
        sim_id,
        name,
        position,
        anchor,
        icon,
        sprite: None,
        sprite_update: 0,
        selected: false,
        highlighted: false,
        pressed: false,
        focused: false,
        dialog_open: false,
        dragged: false,
    }
}

impl ToolDock {
    /// The tool table is well formed.
    pub closed spec fn wf(self) -> bool {
        self.tools.wf()
    }

    /// An empty dock of the given kind; tools dragged off a fixed dock go to `floating_program`.
    pub fn new(kind: DockKind, floating_program: Option<ProgramId>) -> (d: Self)
        ensures
            d.wf(),
            d@.kind == kind,
            d@.floating_program == floating_program,
            d@.tools == Map::<u128, DockToolModel>::empty(),
            d@.order == Seq::<u128>::empty(),
            d@.tracking.is_none(),
    {
        let d = ToolDock { kind, floating_program, tools: Table::new(), tracking: None };
        assert(d@.tools =~= Map::<u128, DockToolModel>::empty());
        d
    }

    /// The tool with the given identifier.
    pub fn tool(&self, t: ToolId) -> (r: Option<&DockTool>)
        requires
            self.wf(),
        ensures
            match r {
                Some(tool) => self@.tools.dom().contains(t.0) && tool.model() == self@.tools[t.0],
                None => !self@.tools.dom().contains(t.0),
            },
    {
        self.tools.get(t.0)
    }

    /// The tools in the order they were added.
    pub fn tool_ids(&self) -> (ids: Vec<u128>)
        requires
            self.wf(),
        ensures
            ids@ == self@.order,
    {
        self.tools.keys()
    }

    /// The press being tracked.
    pub fn tracking(&self) -> (r: Option<Tracking>)
        ensures
            r == self@.tracking,
    {
        self.tracking
    }

    /// Stores a tool (a new one goes at the end of the order).
    fn put(&mut self, t: u128, tool: DockTool)
        requires
            old(self).wf(),
        ensures
            final(self).wf(),
            final(self)@ == put_tool(old(self)@, t, tool.model()),
    {
        let ghost m = self@;
        let ghost om = self.tools.map();
        let ghost tt = tool;
        self.tools.insert(t, tool);
        proof { lemma_tool_map_insert(om, t, tt); }
        assert(self@ =~= put_tool(m, t, tt.model()));
    }

    /// Replaces a tool that is in the dock.
    fn replace(&mut self, t: u128, tool: DockTool)
        requires
            old(self).wf(),
            old(self)@.tools.dom().contains(t),
        ensures
            final(self).wf(),
            final(self)@ == (DockModel { tools: old(self)@.tools.insert(t, tool.model()), ..old(self)@ }),
    {
        let ghost m = self@;
        proof { self.tools.lemma_dom(); }
        self.put(t, tool);
        assert(self@ =~= (DockModel { tools: m.tools.insert(t, tool.model()), ..m }));
    }

    /// A copy of a tool that is in the dock.
    fn copy_of(&self, t: u128) -> (r: Option<DockTool>)
        requires
            self.wf(),
        ensures
            match r {
                Some(tool) => self@.tools.dom().contains(t) && tool.model() == self@.tools[t],
                None => !self@.tools.dom().contains(t),
            },
    {
        match self.tools.get(t) {
            Some(tool) => Some(copy_tool(tool)),
            None => None,
        }
    }

    /// Handles a tool state message sent to this dock, with the identifiers a new tool gets.
    pub fn apply(&mut self, msg: ToolState, fresh: FreshIds) -> (out: Vec<DockCommand>)
        requires
            old(self).wf(),
            can_apply(old(self)@, msg),
        ensures
            final(self).wf(),
            (final(self)@, out@) == spec_apply(old(self)@, msg, fresh),
    {
        let ghost m = self@;
        let mut out: Vec<DockCommand> = Vec::new();
        match msg {
            ToolState::AddTool(t) => {
                let tool = match self.kind {
                    DockKind::Fixed => make_blank_tool(self.kind, fresh, String::new(), Position { x_bits: 0, y_bits: 0 }, Position { x_bits: 0, y_bits: 0 }, IconId(0)),
                    DockKind::Floating => make_blank_tool(self.kind, fresh, String::new(),
                        Position { x_bits: 0x4069_0000_0000_0000, y_bits: 0x4069_0000_0000_0000 }, Position { x_bits: 0, y_bits: 0 }, IconId(0)),
                };
                self.put(t.0, tool);
            },
            ToolState::DuplicateTool(from, to) => {
                match self.copy_of(from.0) {
                    Some(f) => {
                        let tool = match self.kind {
                            DockKind::Fixed => make_blank_tool(self.kind, fresh, String::new(), f.position, Position { x_bits: 0, y_bits: 0 }, f.icon),
                            DockKind::Floating => make_blank_tool(self.kind, fresh, f.name, f.position, f.anchor, f.icon),
                        };
                        self.put(to.0, tool);
                    },
                    None => {},
                }
            },
            ToolState::SetIcon(t, icon) => {
                match self.copy_of(t.0) {
                    Some(mut tool) => {
                        tool.icon = icon;
                        match tool.sprite {
                            Some(s) => {
                                tool.sprite_update = tool.sprite_update + 1;
                                out.push(DockCommand::DrawSprite(t, s, icon));
                            },
                            None => {
                                out.push(DockCommand::NeedSprite(t));
                            },
                        }
                        self.replace(t.0, tool);
                    },
                    None => {},
                }
            },
            ToolState::LocateTool(t, pos) => {
                match self.copy_of(t.0) {
                    Some(mut tool) => {
                        match self.kind {
                            DockKind::Fixed => { tool.position = pos; },
                            DockKind::Floating => { tool.anchor = pos; },
                        }
                        self.replace(t.0, tool);
                    },
                    None => {},
                }
            },
            ToolState::RemoveTool(t) => {
                let ghost om = self.tools.map();
                match self.tools.remove(t.0) {
                    Some(tool) => {
                        proof { lemma_tool_map_remove(om, t.0); }
                        match tool.sprite {
                            Some(s) => { out.push(DockCommand::ReturnSprite(s)); },
                            None => {},
                        }
                        match self.kind {
                            DockKind::Fixed => { out.push(DockCommand::RemoveControlClaim(tool.control_id)); },
                            DockKind::Floating => {},
                        }
                    },
                    None => {
                        assert(om.remove(t.0) =~= om);
                    },
                }
            },
            ToolState::Select(t) => {
                match self.copy_of(t.0) {
                    Some(mut tool) => { tool.selected = true; self.replace(t.0, tool); },
                    None => {},
                }
            },
            ToolState::Deselect(t) => {
                match self.copy_of(t.0) {
                    Some(mut tool) => { tool.selected = false; self.replace(t.0, tool); },
                    None => {},
                }
            },
            ToolState::OpenDialog(t) => {
                match self.copy_of(t.0) {
                    Some(mut tool) => { tool.dialog_open = true; self.replace(t.0, tool); },
                    None => {},
                }
            },
            ToolState::CloseDialog(t) => {
                match self.copy_of(t.0) {
                    Some(mut tool) => { tool.dialog_open = false; self.replace(t.0, tool); },
                    None => {},
                }
            },
            ToolState::SetName(t, name) => {
                match self.kind {
                    DockKind::Floating => {
                        match self.copy_of(t.0) {
                            Some(mut tool) => { tool.name = name; self.replace(t.0, tool); },
                            None => {},
                        }
                    },
                    DockKind::Fixed => {},
                }
            },
            ToolState::SetDialogLocation(_, _) => {},
        }
        assert(out@ =~= spec_apply(m, msg, fresh).1);
        assert(self@ =~= spec_apply(m, msg, fresh).0);
        out
    }

    /// Handles a tool state message sent to this dock; a new tool gets fresh random identifiers.
    pub fn handle(&mut self, msg: ToolState) -> (out: Vec<DockCommand>)
        requires
            old(self).wf(),
            can_apply(old(self)@, msg),
        ensures
            final(self).wf(),
            exists|fresh: FreshIds| (final(self)@, out@) == #[trigger] spec_apply(old(self)@, msg, fresh),
    {
        let needs_ids = match msg {
            ToolState::AddTool(_) => true,
            ToolState::DuplicateTool(_, _) => true,
            _ => false,
        };
        let fresh = if needs_ids {
            let control = ControlId::new();
            let sim = match self.kind {
                DockKind::Floating => SimObjectId::new(),
                DockKind::Fixed => SimObjectId(0),
            };
            FreshIds { control, sim }
        } else {
            FreshIds { control: ControlId(0), sim: SimObjectId(0) }
        };
        self.apply(msg, fresh)
    }

    /// Stores the sprite that the sprite manager assigned to a tool, and draws the icon into it.
    pub fn sprite_assigned(&mut self, t: ToolId, sprite: u64) -> (out: Vec<DockCommand>)
        requires
            old(self).wf(),
            old(self)@.tools.dom().contains(t.0) ==> old(self)@.tools[t.0].sprite_update < u64::MAX,
        ensures
            final(self).wf(),
            (final(self)@, out@) == spec_sprite_assigned(old(self)@, t, sprite),
    {
        let ghost m = self@;
        let mut out: Vec<DockCommand> = Vec::new();
        match self.copy_of(t.0) {
            Some(mut tool) => {
                tool.sprite = Some(sprite);
                tool.sprite_update = tool.sprite_update + 1;
                out.push(DockCommand::DrawSprite(t, sprite, tool.icon));
                self.replace(t.0, tool);
            },
            None => {},
        }
        assert(out@ =~= spec_sprite_assigned(m, t, sprite).1);
        assert(self@ =~= spec_sprite_assigned(m, t, sprite).0);
        out
    }

    /// Updates the focus and highlight flags of the tools for a focus event.
    pub fn focus_event(&mut self, evt: DockFocusEvent)
        requires
            old(self).wf(),
        ensures
            final(self).wf(),
            final(self)@ == spec_focus_event(old(self)@, evt),
    {
        let ghost m = self@;
        let ghost target_tools = spec_focus_event(m, evt).tools;
        let n = self.tools.len();
        let mut i: usize = 0;
        proof { self.tools.lemma_dom(); }
        while i < n
            invariant
                self.wf(),
                n == m.order.len(),
                i <= n,
                self@.order == m.order,
                self@.kind == m.kind,
                self@.floating_program == m.floating_program,
                self@.tracking == m.tracking,
                self@.tools.dom() == m.tools.dom(),
                target_tools == spec_focus_event(m, evt).tools,
                m.order.no_duplicates(),
                forall|k: u128| m.tools.dom().contains(k) <==> #[trigger] m.order.contains(k),
                forall|j: int| 0 <= j < i ==> #[trigger] self@.tools[m.order[j]] == target_tools[m.order[j]],
                forall|j: int| i <= j < n ==> #[trigger] self@.tools[m.order[j]] == m.tools[m.order[j]],
            decreases n - i,
        {
            proof { self.tools.lemma_dom(); }
            let k = self.tools.key_at(i);
            assert(m.order[i as int] == k);
            assert(m.order.contains(k));
            let mut tool = copy_tool(self.tools.value_at(i));
            assert(self.tools.map().dom().contains(k));
            assert(tool.model() == self@.tools[k]);
            assert(tool.model() == m.tools[k]);
            match evt {
                DockFocusEvent::Focused(c) => { if tool.control_id.0 == c.0 { tool.focused = true; } },
                DockFocusEvent::Unfocused(c) => { if tool.control_id.0 == c.0 { tool.focused = false; } },
                DockFocusEvent::Enter(c) => { if tool.control_id.0 == c.0 { tool.highlighted = true; } },
                DockFocusEvent::Leave(c) => { if tool.control_id.0 == c.0 { tool.highlighted = false; } },
            }
            assert(m.tools.dom().contains(k));
            assert(tool.model() == target_tools[k]) by {
                match evt {
                    DockFocusEvent::Focused(c) => { assert((m.tools[k].control_id == c) == (m.tools[k].control_id.0 == c.0)); },
                    DockFocusEvent::Unfocused(c) => { assert((m.tools[k].control_id == c) == (m.tools[k].control_id.0 == c.0)); },
                    DockFocusEvent::Enter(c) => { assert((m.tools[k].control_id == c) == (m.tools[k].control_id.0 == c.0)); },
                    DockFocusEvent::Leave(c) => { assert((m.tools[k].control_id == c) == (m.tools[k].control_id.0 == c.0)); },
                }
            }
            self.replace(k, tool);
            assert forall|j: int| 0 <= j < i + 1 implies #[trigger] self@.tools[m.order[j]] == target_tools[m.order[j]] by {
                if j < i {
                    assert(m.order[j] != k);
                }
            }
            assert forall|j: int| i + 1 <= j < n implies #[trigger] self@.tools[m.order[j]] == m.tools[m.order[j]] by {
                assert(m.order[j] != k);
            }
            i = i + 1;
        }
        assert forall|k: u128| #[trigger] m.tools.dom().contains(k) implies self@.tools[k] == target_tools[k] by {
            assert(m.order.contains(k));
            let j = choose|j: int| 0 <= j < m.order.len() && m.order[j] == k;
            assert(self@.tools[m.order[j]] == target_tools[m.order[j]]);
        }
        assert(self@.tools =~= target_tools);
        assert(self@ =~= spec_focus_event(m, evt));
    }

    /// The plinth drawn under a tool, if it is in the dock.
    pub fn plinth_state(&self, t: ToolId) -> (r: Option<ToolPlinthState>)
        requires
            self.wf(),
        ensures
            r == (if self@.tools.dom().contains(t.0) {
                Some(match self@.kind {
                    DockKind::Fixed => spec_plinth_state(self@.tools[t.0]),
                    DockKind::Floating => spec_floating_plinth_state(self@.tools[t.0]),
                })
            } else {
                None
            }),
    {
        match self.tools.get(t.0) {
            Some(tool) => {
                let state = match self.kind {
                    DockKind::Fixed => if tool.selected {
                        ToolPlinthState::Selected
                    } else if tool.pressed {
                        ToolPlinthState::Pressed
                    } else if tool.highlighted || tool.focused {
                        ToolPlinthState::Highlighted
                    } else {
                        ToolPlinthState::Unselected
                    },
                    DockKind::Floating => if tool.selected {
                        ToolPlinthState::FloatingSelected
                    } else if tool.pressed {
                        ToolPlinthState::FloatingPressed
                    } else if tool.highlighted {
                        ToolPlinthState::FloatingHighlighted
                    } else {
                        ToolPlinthState::FloatingUnselected
                    },
                };
                Some(state)
            },
            None => None,
        }
    }

    /// The first tool, in the order they were added, whose control is `c`.
    pub fn tool_with_control(&self, c: ControlId) -> (r: Option<u128>)
        requires
            self.wf(),
        ensures
            r == tool_with_control(self@.tools, self@.order, c),
    {
        let n = self.tools.len();
        let mut i: usize = 0;
        proof { self.tools.lemma_dom(); }
        while i < n
            invariant
                self.wf(),
                n == self@.order.len(),
                i <= n,
                forall|k: u128| self@.tools.dom().contains(k) <==> #[trigger] self@.order.contains(k),
                tool_with_control(self@.tools, self@.order.subrange(0, i as int), c).is_none(),
            decreases n - i,
        {
            let k = self.tools.key_at(i);
            let tool = self.tools.value_at(i);
            assert(self@.order.subrange(0, i + 1).drop_last() =~= self@.order.subrange(0, i as int));
            assert(self@.order.contains(k)) by { assert(self@.order[i as int] == k); }
            if tool.control_id.0 == c.0 {
                proof { lemma_prefix_found(self@.tools, self@.order, c, i as int); }
                return Some(k);
            }
            i = i + 1;
        }
        assert(self@.order.subrange(0, n as int) =~= self@.order);
        None
    }

    /// Sets the pressed and dragged flags of a tool, if it is there.
    fn set_press(&mut self, t: u128, pressed: bool, dragged: bool)
        requires
            old(self).wf(),
        ensures
            final(self).wf(),
            final(self)@ == set_press(old(self)@, t, pressed, dragged),
    {
        let ghost m = self@;
        match self.copy_of(t) {
            Some(mut tool) => {
                tool.pressed = pressed;
                tool.dragged = dragged;
                self.replace(t, tool);
            },
            None => {},
        }
        assert(self@ =~= set_press(m, t, pressed, dragged));
    }

    /// Finishes a press.
    fn finish(&mut self, t: ToolId, out: &mut Vec<DockCommand>)
        requires
            old(self).wf(),
        ensures
            final(self).wf(),
            final(self)@ == finish(old(self)@, t).0,
            final(out)@ == old(out)@ + finish(old(self)@, t).1,
    {
        let ghost m = self@;
        self.set_press(t.0, false, false);
        self.tracking = None;
        out.push(DockCommand::EndTracking(t));
        assert(self@ =~= finish(m, t).0);
    }

    /// Whether the tool is selected (false if it is gone).
    fn selected_of(&self, t: u128) -> (r: bool)
        requires
            self.wf(),
        ensures
            r == selected_of(self@, t),
    {
        match self.tools.get(t) { Some(tool) => tool.selected, None => false }
    }

    /// Whether the tool's dialog is open (false if it is gone).
    fn dialog_open_of(&self, t: u128) -> (r: bool)
        requires
            self.wf(),
        ensures
            r == dialog_open_of(self@, t),
    {
        match self.tools.get(t) { Some(tool) => tool.dialog_open, None => false }
    }

    /// Handles a pointer event: starts, follows or ends the tracking of a press on a tool.
    pub fn pointer_event(&mut self, evt: DockPointerEvent) -> (out: Vec<DockCommand>)
        requires
            old(self).wf(),
        ensures
            final(self).wf(),
            (final(self)@, out@) == spec_pointer_event(old(self)@, evt),
    {
        let ghost m = self@;
        let mut out: Vec<DockCommand> = Vec::new();
        let fixed = match self.kind { DockKind::Fixed => true, DockKind::Floating => false };
        match self.tracking {
            None => {
                match evt {
                    DockPointerEvent::ButtonDown { control: Some(c), pointer, has_location, left_button } => {
                        if (fixed && has_location) || (!fixed && left_button) {
                            match self.tool_with_control(c) {
                                Some(t) => {
                                    self.set_press(t, true, false);
                                    self.tracking = Some(Tracking { tool: ToolId(t), pointer, phase: TrackPhase::Pressing { pulling: false } });
                                },
                                None => {},
                            }
                        }
                    },
                    _ => {},
                }
            },
            Some(tr) => {
                let t = tr.tool;
                match tr.phase {
                    TrackPhase::Pressing { pulling } => {
                        match evt {
                            DockPointerEvent::Moved { pointer, has_location, near, within_pull } => {
                                if pointer != tr.pointer || !has_location {
                                } else if fixed {
                                    if !pulling && near {
                                    } else if within_pull {
                                        self.tracking = Some(Tracking { tool: tr.tool, pointer: tr.pointer, phase: TrackPhase::Pressing { pulling: true } });
                                        out.push(DockCommand::Pull(t));
                                    } else {
                                        self.set_press(t.0, false, false);
                                        self.tracking = Some(Tracking { tool: tr.tool, pointer: tr.pointer, phase: TrackPhase::Dragging });
                                        out.push(DockCommand::StartDrag(t));
                                    }
                                } else {
                                    out.push(DockCommand::Pull(t));
                                    if !within_pull {
                                        self.set_press(t.0, false, true);
                                        self.tracking = Some(Tracking { tool: tr.tool, pointer: tr.pointer, phase: TrackPhase::Dragging });
                                        out.push(DockCommand::StartDrag(t));
                                    }
                                }
                            },
                            DockPointerEvent::ButtonUp { pointer, has_location, inside_tool, over_dock: _, left_still_down } => {
                                if pointer != tr.pointer {
                                } else if fixed {
                                    if has_location && inside_tool {
                                        if self.selected_of(t.0) {
                                            if !self.dialog_open_of(t.0) {
                                                out.push(DockCommand::OpenDialog(t));
                                            } else {
                                                out.push(DockCommand::CloseDialog(t));
                                            }
                                        } else {
                                            out.push(DockCommand::Select(t));
                                        }
                                    }
                                    self.finish(t, &mut out);
                                } else if !left_still_down {
                                    out.push(DockCommand::Select(t));
                                    self.finish(t, &mut out);
                                }
                            },
                            DockPointerEvent::Cancel { pointer } => {
                                if fixed && pointer == tr.pointer {
                                    self.finish(t, &mut out);
                                }
                            },
                            _ => {},
                        }
                    },
                    TrackPhase::Dragging => {
                        match evt {
                            DockPointerEvent::Moved { pointer, has_location, near: _, within_pull: _ } => {
                                if pointer == tr.pointer && has_location {
                                    out.push(DockCommand::Drag(t));
                                }
                            },
                            DockPointerEvent::ButtonUp { pointer, has_location, inside_tool: _, over_dock, left_still_down } => {
                                if pointer != tr.pointer {
                                } else if fixed {
                                    self.tracking = None;
                                    if over_dock || self.floating_program.is_none() {
                                        out.push(DockCommand::CancelDrop(t));
                                    } else {
                                        out.push(DockCommand::DropOnFloating(t));
                                    }
                                } else if !left_still_down {
                                    if has_location {
                                        out.push(DockCommand::MoveTool(t));
                                    }
                                    self.finish(t, &mut out);
                                }
                            },
                            DockPointerEvent::Escape => {
                                if fixed {
                                    self.tracking = None;
                                    out.push(DockCommand::CancelDrop(t));
                                }
                            },
                            DockPointerEvent::Cancel { pointer } => {
                                if fixed && pointer == tr.pointer {
                                    self.tracking = None;
                                    out.push(DockCommand::CancelDrop(t));
                                }
                            },
                            _ => {},
                        }
                    },
                }
            },
        }
        assert(out@ =~= spec_pointer_event(m, evt).1);
        assert(self@ =~= spec_pointer_event(m, evt).0);
        out
    }
}

/// When the first `i + 1` tools of the order are searched and tool `i` has the control (and none
/// before it had), the search finds tool `i`.
proof fn lemma_prefix_found(tools: Map<u128, DockToolModel>, order: Seq<u128>, c: ControlId, i: int)
    requires
        0 <= i < order.len(),
        tools.dom().contains(order[i]),
        tools[order[i]].control_id == c,
        tool_with_control(tools, order.subrange(0, i), c).is_none(),
    ensures
        tool_with_control(tools, order, c) == Some(order[i]),
    decreases order.len() - i,
{
    if i + 1 == order.len() {
        assert(order.drop_last() =~= order.subrange(0, i));
    } else {
        assert(order.drop_last().subrange(0, i) =~= order.subrange(0, i));
        assert(order.drop_last()[i] == order[i]);
        lemma_prefix_found(tools, order.drop_last(), c, i);
    }
}



/// On the fixed dock, a click (button down then up over the same tool, with the same pointer)
/// on a tool that is not selected asks for it to be selected; on a selected tool it opens the
/// tool's dialog, or closes it if it is open. The tool is released afterwards.
pub proof fn law_click_on_fixed_dock(m: DockModel, c: ControlId, pointer: u64, t: u128)
    requires
        m.kind == DockKind::Fixed,
        m.tracking.is_none(),
        tool_with_control(m.tools, m.order, c) == Some(t),
        m.tools.dom().contains(t),
    ensures
        ({
            let down = DockPointerEvent::ButtonDown { control: Some(c), pointer: pointer, has_location: true, left_button: true };
            let up = DockPointerEvent::ButtonUp { pointer: pointer, has_location: true, inside_tool: true, over_dock: true, left_still_down: false };
            let (m1, out1) = spec_pointer_event(m, down);
            let (m2, out2) = spec_pointer_event(m1, up);
            let tool = ToolId(t);
            &&& out1.len() == 0
            &&& m1.tools[t].pressed
            &&& out2 == (if !m.tools[t].selected {
                    seq![DockCommand::Select(tool), DockCommand::EndTracking(tool)]
                } else if !m.tools[t].dialog_open {
                    seq![DockCommand::OpenDialog(tool), DockCommand::EndTracking(tool)]
                } else {
                    seq![DockCommand::CloseDialog(tool), DockCommand::EndTracking(tool)]
                })
            &&& m2.tracking.is_none()
            &&& !m2.tools[t].pressed
        }),
{
    let down = DockPointerEvent::ButtonDown { control: Some(c), pointer: pointer, has_location: true, left_button: true };
    let up = DockPointerEvent::ButtonUp { pointer: pointer, has_location: true, inside_tool: true, over_dock: true, left_still_down: false };
    let (m1, out1) = spec_pointer_event(m, down);
    let (m2, out2) = spec_pointer_event(m1, up);
    let tool = ToolId(t);
    assert(m1.tools[t].selected == m.tools[t].selected);
    assert(m1.tools[t].dialog_open == m.tools[t].dialog_open);
    if !m.tools[t].selected {
        assert(out2 =~= seq![DockCommand::Select(tool), DockCommand::EndTracking(tool)]);
    } else if !m.tools[t].dialog_open {
        assert(out2 =~= seq![DockCommand::OpenDialog(tool), DockCommand::EndTracking(tool)]);
    } else {
        assert(out2 =~= seq![DockCommand::CloseDialog(tool), DockCommand::EndTracking(tool)]);
    }
}

/// While a tool is dragged (on either dock), each move of the dragging pointer to a known location
/// moves the tool with it, and any other move does nothing; neither changes the dock's state.
pub proof fn law_dragged_tool_follows_pointer(m: DockModel, pointer: u64, has_location: bool, near: bool, within_pull: bool)
    requires
        m.tracking is Some,
        m.tracking->0.phase == TrackPhase::Dragging,
    ensures
        ({
            let tr = m.tracking->0;
            let (after, out) = spec_pointer_event(m, DockPointerEvent::Moved { pointer, has_location, near, within_pull });
            &&& after == m
            &&& out == if pointer == tr.pointer && has_location { seq![DockCommand::Drag(tr.tool)] } else { Seq::<DockCommand>::empty() }
        }),
{
}

/// On the floating dock, pressing the left button on a tool and moving the same pointer out of
/// pulling distance starts dragging it, and every later move of that pointer drags it along.
pub proof fn law_floating_press_and_move_drags(m: DockModel, c: ControlId, t: u128, pointer: u64,
    has_location: bool, near1: bool, near2: bool, pull2: bool)
    requires
        m.kind == DockKind::Floating,
        m.tracking is None,
        tool_with_control(m.tools, m.order, c) == Some(t),
    ensures
        ({
            let (m1, _) = spec_pointer_event(m, DockPointerEvent::ButtonDown { control: Some(c), pointer, has_location, left_button: true });
            let (m2, out2) = spec_pointer_event(m1, DockPointerEvent::Moved { pointer, has_location: true, near: near1, within_pull: false });
            let (m3, out3) = spec_pointer_event(m2, DockPointerEvent::Moved { pointer, has_location: true, near: near2, within_pull: pull2 });
            &&& out2 == seq![DockCommand::Pull(ToolId(t)), DockCommand::StartDrag(ToolId(t))]
            &&& m2.tracking == Some(Tracking { tool: ToolId(t), pointer, phase: TrackPhase::Dragging })
            &&& out3 == seq![DockCommand::Drag(ToolId(t))]
            &&& m3 == m2
        }),
{
}

/// A removed tool's sprite goes back to the sprite manager.
pub proof fn law_removed_tool_returns_sprite(m: DockModel, t: ToolId, fresh: FreshIds)
    requires
        m.tools.dom().contains(t.0),
        m.tools[t.0].sprite.is_some(),
    ensures
        spec_apply(m, ToolState::RemoveTool(t), fresh).1[0] == DockCommand::ReturnSprite(m.tools[t.0].sprite.unwrap()),
        !spec_apply(m, ToolState::RemoveTool(t), fresh).0.tools.dom().contains(t.0),
{
}

/// A number that orders the IEEE-754 bits of `f64` values as `f64::total_cmp` orders the
/// values: negative values (sign bit set) have all their bits flipped, others just the sign bit.
pub open spec fn total_order_key(bits: u64) -> u64 {
    if bits >= 0x8000_0000_0000_0000 { !bits } else { bits | 0x8000_0000_0000_0000 }
}

/// The order key of a value's bits.
pub fn order_key(bits: u64) -> (k: u64)
    ensures
        k == total_order_key(bits),
{
    if bits >= 0x8000_0000_0000_0000 { !bits } else { bits | 0x8000_0000_0000_0000 }
}

/// The position of the first entry whose key is greater than `k` (the length if there is none).
pub open spec fn first_greater(s: Seq<(u64, u128)>, k: u64) -> int
    decreases s.len(),
{
    if s.len() == 0 {
        0
    } else if s[0].0 > k {
        0
    } else {
        1 + first_greater(s.drop_first(), k)
    }
}

/// An entry put after every entry whose key is not greater than its own.
pub open spec fn insert_sorted(s: Seq<(u64, u128)>, x: (u64, u128)) -> Seq<(u64, u128)> {
    s.insert(first_greater(s, x.0), x)
}

/// Entries sorted by key; entries with equal keys keep their order.
pub open spec fn sort_by_key(s: Seq<(u64, u128)>) -> Seq<(u64, u128)>
    decreases s.len(),
{
    if s.len() == 0 {
        s
    } else {
        insert_sorted(sort_by_key(s.drop_last()), s.last())
    }
}

/// The tools of a dock with the order keys of their vertical positions, in the order they were added.
pub open spec fn keyed_tools(m: DockModel) -> Seq<(u64, u128)> {
    Seq::new(m.order.len(), |i: int| (total_order_key(m.tools[m.order[i]].position.y_bits), m.order[i]))
}

/// The tools of a dock from top to bottom: ordered by vertical position (tools at the same
/// position in the order they were added).
pub open spec fn spec_ordered_tools(m: DockModel) -> Seq<u128> {
    sort_by_key(keyed_tools(m)).map_values(|e: (u64, u128)| e.1)
}

/// The entries are in order of their keys.
pub open spec fn sorted_by_key(s: Seq<(u64, u128)>) -> bool {
    forall|i: int, j: int| 0 <= i <= j < s.len() ==> s[i].0 <= s[j].0
}

/// The position found by scanning for the first greater key.
proof fn lemma_first_greater(s: Seq<(u64, u128)>, k: u64, j: int)
    requires
        0 <= j <= s.len(),
        forall|i: int| 0 <= i < j ==> s[i].0 <= k,
        j == s.len() || s[j].0 > k,
    ensures
        first_greater(s, k) == j,
    decreases s.len(),
{
    if s.len() > 0 && j > 0 {
        let t = s.drop_first();
        assert forall|i: int| 0 <= i < j - 1 implies t[i].0 <= k by {
            assert(t[i] == s[i + 1]);
        }
        if j < s.len() {
            assert(t[j - 1] == s[j]);
        }
        lemma_first_greater(t, k, j - 1);
    }
}

/// In a sorted list, the entries before the first greater key are not greater, and those from it on are.
proof fn lemma_first_greater_splits(s: Seq<(u64, u128)>, k: u64)
    requires
        sorted_by_key(s),
    ensures
        0 <= first_greater(s, k) <= s.len(),
        forall|i: int| 0 <= i < first_greater(s, k) ==> s[i].0 <= k,
        forall|i: int| first_greater(s, k) <= i < s.len() ==> s[i].0 > k,
    decreases s.len(),
{
    if s.len() > 0 && s[0].0 <= k {
        let t = s.drop_first();
        assert(sorted_by_key(t)) by {
            assert forall|i: int, j: int| 0 <= i <= j < t.len() implies t[i].0 <= t[j].0 by {
                assert(t[i] == s[i + 1] && t[j] == s[j + 1]);
            }
        }
        lemma_first_greater_splits(t, k);
        assert forall|i: int| 0 <= i < first_greater(s, k) implies s[i].0 <= k by {
            if i > 0 {
                assert(s[i] == t[i - 1]);
            }
        }
        assert forall|i: int| first_greater(s, k) <= i < s.len() implies s[i].0 > k by {
            assert(s[i] == t[i - 1]);
        }
    }
}

/// Sorting puts the entries in order of their keys, and keeps exactly the entries given.
pub proof fn law_sort_by_key_sorts(s: Seq<(u64, u128)>)
    ensures
        sorted_by_key(sort_by_key(s)),
        sort_by_key(s).len() == s.len(),
        forall|x: (u64, u128)| sort_by_key(s).contains(x) <==> s.contains(x),
    decreases s.len(),
{
    if s.len() > 0 {
        let pre = s.drop_last();
        law_sort_by_key_sorts(pre);
        let r0 = sort_by_key(pre);
        let x = s.last();
        lemma_first_greater_splits(r0, x.0);
        let p = first_greater(r0, x.0);
        let r = r0.insert(p, x);
        assert forall|i: int, j: int| 0 <= i <= j < r.len() implies r[i].0 <= r[j].0 by {
            if i < p && j < p {
                assert(r[i] == r0[i] && r[j] == r0[j]);
            } else if i < p && j == p {
                assert(r[i] == r0[i]);
            } else if i < p {
                assert(r[i] == r0[i] && r[j] == r0[j - 1]);
            } else if i == p && j > p {
                assert(r[j] == r0[j - 1]);
            } else if i > p {
                assert(r[i] == r0[i - 1] && r[j] == r0[j - 1]);
            }
        }
        assert forall|y: (u64, u128)| r.contains(y) <==> s.contains(y) by {
            if r.contains(y) {
                let i = choose|i: int| 0 <= i < r.len() && r[i] == y;
                if i < p {
                    assert(r0[i] == y);
                    assert(r0.contains(y));
                    assert(pre.contains(y));
                    let k = choose|k: int| 0 <= k < pre.len() && pre[k] == y;
                    assert(s[k] == y);
                } else if i == p {
                    assert(s[s.len() - 1] == y);
                } else {
                    assert(r0[i - 1] == y);
                    assert(r0.contains(y));
                    assert(pre.contains(y));
                    let k = choose|k: int| 0 <= k < pre.len() && pre[k] == y;
                    assert(s[k] == y);
                }
            }
            if s.contains(y) {
                let k = choose|k: int| 0 <= k < s.len() && s[k] == y;
                if k == s.len() - 1 {
                    assert(r[p] == y);
                } else {
                    assert(pre[k] == y);
                    assert(pre.contains(y));
                    assert(r0.contains(y));
                    let i = choose|i: int| 0 <= i < r0.len() && r0[i] == y;
                    if i < p {
                        assert(r[i] == y);
                    } else {
                        assert(r[i + 1] == y);
                    }
                }
            }
        }
    }
}

/// Sorting keeps the entries given, each as often as it was given.
proof fn lemma_sort_multiset(s: Seq<(u64, u128)>)
    ensures
        sort_by_key(s).to_multiset() == s.to_multiset(),
    decreases s.len(),
{
    broadcast use vstd::seq_lib::group_to_multiset_ensures;
    if s.len() > 0 {
        let pre = s.drop_last();
        lemma_sort_multiset(pre);
        law_sort_by_key_sorts(pre);
        let r0 = sort_by_key(pre);
        lemma_first_greater_splits(r0, s.last().0);
        assert(pre.push(s.last()) =~= s);
        assert(sort_by_key(s) == r0.insert(first_greater(r0, s.last().0), s.last()));
    }
}

/// The tools from top to bottom list every tool of the dock exactly once.
pub proof fn law_ordered_tools_lists_each_tool_once(m: DockModel)
    requires
        m.order.no_duplicates(),
        forall|k: u128| m.tools.dom().contains(k) <==> #[trigger] m.order.contains(k),
    ensures
        spec_ordered_tools(m).len() == m.order.len(),
        spec_ordered_tools(m).no_duplicates(),
        forall|k: u128| m.tools.dom().contains(k) <==> #[trigger] spec_ordered_tools(m).contains(k),
{
    broadcast use vstd::seq_lib::group_to_multiset_ensures;
    let keyed = keyed_tools(m);
    let sorted = sort_by_key(keyed);
    let r = spec_ordered_tools(m);
    law_sort_by_key_sorts(keyed);
    lemma_sort_multiset(keyed);
    assert(keyed.no_duplicates()) by {
        assert forall|i: int, j: int| 0 <= i < keyed.len() && 0 <= j < keyed.len() && i != j implies keyed[i] != keyed[j] by {
            assert(m.order[i] != m.order[j]);
        }
    }
    keyed.lemma_multiset_has_no_duplicates();
    sorted.lemma_multiset_has_no_duplicates_conv();
    // An identifier in the sorted list comes with the key of its tool
    assert forall|i: int| 0 <= i < sorted.len() implies #[trigger] sorted[i] == (total_order_key(m.tools[sorted[i].1].position.y_bits), sorted[i].1)
        && m.order.contains(sorted[i].1) by {
        assert(sorted.contains(sorted[i]));
        assert(keyed.contains(sorted[i]));
        let a = choose|a: int| 0 <= a < keyed.len() && keyed[a] == sorted[i];
        assert(m.order[a] == sorted[i].1);
    }
    assert(r.no_duplicates()) by {
        assert forall|i: int, j: int| 0 <= i < r.len() && 0 <= j < r.len() && i != j implies r[i] != r[j] by {
            assert(r[i] == sorted[i].1 && r[j] == sorted[j].1);
            assert(sorted[i] != sorted[j]);
        }
    }
    assert forall|k: u128| m.tools.dom().contains(k) <==> #[trigger] r.contains(k) by {
        if m.tools.dom().contains(k) {
            assert(m.order.contains(k));
            let a = choose|a: int| 0 <= a < m.order.len() && m.order[a] == k;
            assert(keyed.contains(keyed[a]));
            assert(sorted.contains(keyed[a]));
            let i = choose|i: int| 0 <= i < sorted.len() && sorted[i] == keyed[a];
            assert(r[i] == k);
        }
        if r.contains(k) {
            let i = choose|i: int| 0 <= i < r.len() && r[i] == k;
            assert(r[i] == sorted[i].1);
        }
    }
}

impl ToolDock {
    /// The tools from top to bottom, ordered by their vertical position: each tool of the dock
    /// exactly once.
    pub fn ordered_tools(&self) -> (r: Vec<u128>)
        requires
            self.wf(),
        ensures
            r@ == spec_ordered_tools(self@),
            r@.no_duplicates(),
            r@.len() == self@.tools.dom().len(),
            forall|k: u128| self@.tools.dom().contains(k) <==> #[trigger] r@.contains(k),
    {
        proof {
            self.tools.lemma_dom();
            law_ordered_tools_lists_each_tool_once(self@);
            assert(self@.tools.dom() =~= self@.order.to_set());
            self@.order.unique_seq_to_set();
        }
        let n = self.tools.len();
        let ghost keyed = keyed_tools(self@);
        let mut sorted: Vec<(u64, u128)> = Vec::new();
        let mut i: usize = 0;
        proof { self.tools.lemma_dom(); }
        while i < n
            invariant
                self.wf(),
                n == self@.order.len(),
                keyed == keyed_tools(self@),
                i <= n,
                sorted@ == sort_by_key(keyed.subrange(0, i as int)),
                forall|k: u128| self@.tools.dom().contains(k) <==> #[trigger] self@.order.contains(k),
            decreases n - i,
        {
            let id = self.tools.key_at(i);
            let tool = self.tools.value_at(i);
            assert(self@.order.contains(id)) by { assert(self@.order[i as int] == id); }
            let key = order_key(tool.position.y_bits);
            assert(keyed[i as int] == (key, id));
            let mut j: usize = 0;
            while j < sorted.len() && sorted[j].0 <= key
                invariant
                    j <= sorted@.len(),
                    forall|x: int| 0 <= x < j ==> sorted@[x].0 <= key,
                decreases sorted@.len() - j,
            {
                j = j + 1;
            }
            proof { lemma_first_greater(sorted@, key, j as int); }
            assert(keyed.subrange(0, i + 1).drop_last() =~= keyed.subrange(0, i as int));
            sorted.insert(j, (key, id));
            i = i + 1;
        }
        assert(keyed.subrange(0, n as int) =~= keyed);
        let mut r: Vec<u128> = Vec::new();
        let mut k: usize = 0;
        while k < sorted.len()
            invariant
                k <= sorted@.len(),
                r@ == sorted@.subrange(0, k as int).map_values(|e: (u64, u128)| e.1),
            decreases sorted@.len() - k,
        {
            r.push(sorted[k].1);
            k = k + 1;
            assert(r@ =~= sorted@.subrange(0, k as int).map_values(|e: (u64, u128)| e.1));
        }
        assert(sorted@.subrange(0, sorted@.len() as int) =~= sorted@);
        r
    }
}

/// What the floating dock asks of the physics simulation for one of its tools.
#[derive(Clone, Copy, Debug, PartialEq, Eq, Structural)]
pub enum PhysicsUpdate {
    /// A new tool: create its body, bind its position and make it a dynamic circle
    Create,
    /// The tool started being dragged: make it a kinematic circle
    ToKinematic,
    /// The tool was let go: make it a dynamic circle again
    ToDynamic,
    /// Nothing changed
    Unchanged,
}

/// The physics update for a tool, given whether it was known and dragged before, and whether it is dragged now.
pub open spec fn spec_physics_update(was_dragged: Option<bool>, dragged: bool) -> PhysicsUpdate {
    match was_dragged {
        None => PhysicsUpdate::Create,
        Some(before) => if !before && dragged {
            PhysicsUpdate::ToKinematic
        } else if before && !dragged {
            PhysicsUpdate::ToDynamic
        } else {
            PhysicsUpdate::Unchanged
        },
    }
}

/// Decides the physics update for a tool of the floating dock.
pub fn physics_update(was_dragged: Option<bool>, dragged: bool) -> (u: PhysicsUpdate)
    ensures
        u == spec_physics_update(was_dragged, dragged),
{
    match was_dragged {
        None => PhysicsUpdate::Create,
        Some(before) => if !before && dragged {
            PhysicsUpdate::ToKinematic
        } else if before && !dragged {
            PhysicsUpdate::ToDynamic
        } else {
            PhysicsUpdate::Unchanged
        },
    }
}

/// The controls that had claims before and are no longer present, in their earlier order.
pub open spec fn spec_missing_controls(previous: Seq<ControlId>, current: Seq<ControlId>) -> Seq<ControlId> {
    previous.filter(|c: ControlId| !current.contains(c))
}

/// The controls whose claims the floating dock removes because their tools are gone.
pub fn missing_controls(previous: &Vec<ControlId>, current: &Vec<ControlId>) -> (r: Vec<ControlId>)
    ensures
        r@ == spec_missing_controls(previous@, current@),
{
    let mut r: Vec<ControlId> = Vec::new();
    let mut i: usize = 0;
    while i < previous.len()
        invariant
            i <= previous@.len(),
            r@ == previous@.subrange(0, i as int).filter(|c: ControlId| !current@.contains(c)),
        decreases previous@.len() - i,
    {
        let c = previous[i];
        let mut found = false;
        let mut j: usize = 0;
        while j < current.len()
            invariant
                j <= current@.len(),
                found == (exists|x: int| 0 <= x < j && current@[x] == c),
            decreases current@.len() - j,
        {
            if current[j].0 == c.0 {
                assert(current@[j as int] == c);
                found = true;
            }
            j = j + 1;
        }
        proof {
            if current@.contains(c) {
                let x = choose|x: int| 0 <= x < current@.len() && current@[x] == c;
                assert(found);
            }
        }
        assert(previous@.subrange(0, i + 1).drop_last() =~= previous@.subrange(0, i as int));
        proof {
            reveal(Seq::filter);
            assert(previous@.subrange(0, i + 1).last() == c);
        }
        if !found {
            r.push(c);
        }
        i = i + 1;
    }
    assert(previous@.subrange(0, previous@.len() as int) =~= previous@);
    r
}
} // verus!
