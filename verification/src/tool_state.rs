//! The tool state: which tools exist, which group and type each belongs to,
//! where each is shown, which are selected and joined, and which have their
//! configuration dialog open.
//!
//! `ToolStateMachine::handle` takes one request and returns the messages that
//! the host must deliver: to every general subscriber, or to one program (a
//! tool's location or the owner of a tool type).

use vstd::prelude::*;
use crate::ids::{ToolGroupId, ToolTypeId, ToolId, ProgramId};
use crate::table::Table;
use crate::lists::{seq_insert_unique, seq_without, vec_insert_unique, vec_without, vec_clone_u128, lemma_push_contains};

verus! {

/// A point in the user interface, held as the IEEE-754 bit patterns of its two
/// `f64` coordinates (the state never computes with them, it only stores and forwards them).
#[derive(Clone, Copy, Debug, PartialEq, Eq, Structural)]
pub struct Position {
    pub x_bits: u64,
    pub y_bits: u64,
}

/// A handle for the drawing instructions of a tool icon, held by the host.
/// `IconId(0)` stands for the empty drawing that every new tool starts with.
#[derive(Clone, Copy, Debug, PartialEq, Eq, Structural)]
pub struct IconId(pub u64);

/// Requests that change or query the tool state.
#[derive(Clone, Debug, PartialEq)]
pub enum Tool {
    /// Adds a subscriber to the general tool status events
    Subscribe(ProgramId),
    /// Creates a new tool (which is initially not positioned anywhere)
    CreateTool(ToolGroupId, ToolTypeId, ToolId),
    /// Removes an existing tool from the state
    RemoveTool(ToolId),
    /// Creates a duplicate of the first tool, where the new tool has the second tool ID
    DuplicateTool(ToolId, ToolId),
    /// Joins the second tool to the first so that selecting the first also selects the second
    JoinTools(ToolId, ToolId),
    /// Disconnects a tool from any join, as a joined tool and as a main tool
    DisconnectTool(ToolId),
    /// Sets the program that owns a type of tool
    SetToolTypeOwner(ToolTypeId, ProgramId),
    /// Sets the program that shows a tool, and the tool's position there
    SetToolLocation(ToolId, ProgramId, Position),
    /// Sets where a tool's configuration dialog should be displayed
    SetToolDialogLocation(ToolId, Position),
    /// Sets the name of a tool
    SetToolName(ToolId, String),
    /// Sets the icon of a tool
    SetToolIcon(ToolId, IconId),
    /// Sets which tool is selected when the selected tool of a group is removed
    SetDefaultForGroup(ToolGroupId, ToolId),
    /// Selects a tool (deselecting the other tool in its group)
    Select(ToolId),
    /// Opens the configuration dialog for a tool
    OpenDialog(ToolId),
    /// Closes the configuration dialog for a tool
    CloseDialog(ToolId),
    /// Closes every open dialog
    CloseAllDialogs,
}

/// Messages sent to subscribers, tool locations and tool type owners.
#[derive(Clone, Debug, PartialEq)]
pub enum ToolState {
    AddTool(ToolId),
    DuplicateTool(ToolId, ToolId),
    RemoveTool(ToolId),
    Select(ToolId),
    Deselect(ToolId),
    LocateTool(ToolId, Position),
    SetName(ToolId, String),
    SetIcon(ToolId, IconId),
    SetDialogLocation(ToolId, Position),
    OpenDialog(ToolId),
    CloseDialog(ToolId),
}

/// What the host must do with the result of a request.
#[derive(Clone, Debug, PartialEq)]
pub enum ToolStateOutput {
    /// Send the message to every general subscriber
    ToSubscribers(ToolState),
    /// Send the message to one program
    ToProgram(ProgramId, ToolState),
    /// Add the program to the general subscribers
    AddSubscriber(ProgramId),
}

/// The mathematical state of the tools, keyed by the raw identifier values.
#[verifier::ext_equal]
pub struct ToolStateModel {
    /// The tools that exist
    pub tools: Set<u128>,
    /// The group of each tool
    pub group_of: Map<u128, ToolGroupId>,
    /// The type of each tool
    pub type_of: Map<u128, ToolTypeId>,
    /// The tools of each type, in the order they were added
    pub tools_of_type: Map<u128, Seq<u128>>,
    /// Where each tool's dialog should be opened
    pub dialog_location: Map<u128, Position>,
    /// The tools joined to each main tool, in join order
    pub joined: Map<u128, Seq<u128>>,
    /// The main tool that each joined tool belongs to
    pub join_parent: Map<u128, ToolId>,
    /// Where location messages for each tool are sent (`None`: nowhere yet)
    pub location_sink: Map<u128, Option<ProgramId>>,
    /// The location program that was last set for each tool
    pub location_target: Map<u128, ProgramId>,
    /// The owner of each tool type
    pub owner: Map<u128, ProgramId>,
    /// The name of each tool
    pub names: Map<u128, Seq<char>>,
    /// The icon of each tool
    pub icons: Map<u128, IconId>,
    /// The selected tool of each group
    pub selection: Map<u128, ToolId>,
    /// The groups that have a selection, in the order they first got one
    pub selection_order: Seq<u128>,
    /// The default tool of each group
    pub default_for_group: Map<u128, ToolId>,
    /// The tools whose dialog is open, in the order they were opened
    pub open_dialogs: Seq<u128>,
    /// For each selected main tool, what its selection replaced: each tool it newly selected,
    /// with the selection that tool's group had before (restored when the main tool is deselected)
    pub restore: Map<u128, Seq<(u128, Option<ToolId>)>>,
}

/// The messages for an optional destination.
pub open spec fn to_sink(sink: Option<ProgramId>, msg: ToolState) -> Seq<ToolStateOutput> {
    match sink {
        Some(p) => seq![ToolStateOutput::ToProgram(p, msg)],
        None => Seq::empty(),
    }
}

/// Where messages for a tool's location go.
pub open spec fn location_of(m: ToolStateModel, t: u128) -> Option<ProgramId> {
    if m.location_sink.dom().contains(t) { m.location_sink[t] } else { None }
}

/// The owner of a tool type, if it has one.
pub open spec fn owner_of_type(m: ToolStateModel, ty: u128) -> Option<ProgramId> {
    if m.owner.dom().contains(ty) { Some(m.owner[ty]) } else { None }
}

/// The owner of the type of a tool, if the tool has a type and the type an owner.
pub open spec fn owner_of_tool(m: ToolStateModel, t: u128) -> Option<ProgramId> {
    if m.type_of.dom().contains(t) { owner_of_type(m, m.type_of[t].0) } else { None }
}

/// A message about tool `t` sent to the subscribers, the tool's location and its owner, in that order.
pub open spec fn notify_all(m: ToolStateModel, t: u128, msg: ToolState) -> Seq<ToolStateOutput> {
    seq![ToolStateOutput::ToSubscribers(msg)] + to_sink(location_of(m, t), msg) + to_sink(owner_of_tool(m, t), msg)
}

/// The empty model: no tools at all.
pub open spec fn empty_model() -> ToolStateModel {
    ToolStateModel {
        tools: Set::empty(),
        group_of: Map::empty(),
        type_of: Map::empty(),
        tools_of_type: Map::empty(),
        dialog_location: Map::empty(),
        joined: Map::empty(),
        join_parent: Map::empty(),
        location_sink: Map::empty(),
        location_target: Map::empty(),
        owner: Map::empty(),
        names: Map::empty(),
        icons: Map::empty(),
        selection: Map::empty(),
        selection_order: Seq::empty(),
        default_for_group: Map::empty(),
        open_dialogs: Seq::empty(),
        restore: Map::empty(),
    }
}

/// The view of a table of restore records as a map to sequences.
pub open spec fn restore_map(m: Map<u128, Vec<(u128, Option<ToolId>)>>) -> Map<u128, Seq<(u128, Option<ToolId>)>> {
    m.map_values(|v: Vec<(u128, Option<ToolId>)>| v@)
}

/// The view of a table of identifier lists as a map to sequences.
pub open spec fn list_map(m: Map<u128, Vec<u128>>) -> Map<u128, Seq<u128>> {
    m.map_values(|v: Vec<u128>| v@)
}


/// Setting the default tool of a group.
pub open spec fn spec_set_default_for_group(m: ToolStateModel, g: ToolGroupId, t: ToolId) -> (ToolStateModel, Seq<ToolStateOutput>) {
    (ToolStateModel { default_for_group: m.default_for_group.insert(g.0, t), ..m }, Seq::empty())
}

/// Setting where a tool's dialog opens: the owner of the tool's type is told, and the location is remembered.
pub open spec fn spec_set_dialog_location(m: ToolStateModel, t: ToolId, loc: Position) -> (ToolStateModel, Seq<ToolStateOutput>) {
    (
        ToolStateModel { dialog_location: m.dialog_location.insert(t.0, loc), ..m },
        to_sink(owner_of_tool(m, t.0), ToolState::SetDialogLocation(t, loc)),
    )
}

/// Setting the icon of an existing tool: its location is sent the new icon.
pub open spec fn spec_set_icon(m: ToolStateModel, t: ToolId, icon: IconId) -> (ToolStateModel, Seq<ToolStateOutput>) {
    if m.icons.dom().contains(t.0) {
        (
            ToolStateModel { icons: m.icons.insert(t.0, icon), ..m },
            to_sink(location_of(m, t.0), ToolState::SetIcon(t, icon)),
        )
    } else {
        (m, Seq::empty())
    }
}

/// Setting the name of an existing tool: its location, its owner and the subscribers are told, in that order.
pub open spec fn spec_set_name(m: ToolStateModel, t: ToolId, name: String) -> (ToolStateModel, Seq<ToolStateOutput>) {
    if m.names.dom().contains(t.0) {
        (
            ToolStateModel { names: m.names.insert(t.0, name@), ..m },
            to_sink(location_of(m, t.0), ToolState::SetName(t, name))
                + to_sink(owner_of_tool(m, t.0), ToolState::SetName(t, name))
                + seq![ToolStateOutput::ToSubscribers(ToolState::SetName(t, name))],
        )
    } else {
        (m, Seq::empty())
    }
}

/// The selected tools, one `Select` message each, sent to a program.
pub open spec fn selections_for(m: ToolStateModel, p: ProgramId) -> Seq<ToolStateOutput> {
    Seq::new(
        m.selection_order.len(),
        |i: int| ToolStateOutput::ToProgram(p, ToolState::Select(m.selection[m.selection_order[i]])),
    )
}

/// Subscribing: the new subscriber is sent the current selections, then added to the subscribers.
pub open spec fn spec_subscribe(m: ToolStateModel, p: ProgramId) -> (ToolStateModel, Seq<ToolStateOutput>) {
    (m, selections_for(m, p).push(ToolStateOutput::AddSubscriber(p)))
}

/// Opening the dialog of an existing tool whose dialog is closed.
pub open spec fn spec_open_dialog(m: ToolStateModel, t: ToolId) -> (ToolStateModel, Seq<ToolStateOutput>) {
    if m.tools.contains(t.0) && !m.open_dialogs.contains(t.0) {
        (
            ToolStateModel { open_dialogs: m.open_dialogs.push(t.0), ..m },
            notify_all(m, t.0, ToolState::OpenDialog(t)),
        )
    } else {
        (m, Seq::empty())
    }
}

/// Closing the open dialog of an existing tool.
pub open spec fn spec_close_dialog(m: ToolStateModel, t: ToolId) -> (ToolStateModel, Seq<ToolStateOutput>) {
    if m.tools.contains(t.0) && m.open_dialogs.contains(t.0) {
        (
            ToolStateModel { open_dialogs: m.open_dialogs.remove(m.open_dialogs.index_of(t.0)), ..m },
            notify_all(m, t.0, ToolState::CloseDialog(t)),
        )
    } else {
        (m, Seq::empty())
    }
}

/// The `CloseDialog` notifications for a list of tools, in order.
pub open spec fn close_outputs(m: ToolStateModel, ts: Seq<u128>) -> Seq<ToolStateOutput>
    decreases ts.len(),
{
    if ts.len() == 0 {
        Seq::empty()
    } else {
        close_outputs(m, ts.drop_last()) + notify_all(m, ts.last(), ToolState::CloseDialog(ToolId(ts.last())))
    }
}

/// Closing every open dialog.
pub open spec fn spec_close_all_dialogs(m: ToolStateModel) -> (ToolStateModel, Seq<ToolStateOutput>) {
    (ToolStateModel { open_dialogs: Seq::empty(), ..m }, close_outputs(m, m.open_dialogs))
}

/// The view of a table of names as a map to character sequences.
pub open spec fn name_map(m: Map<u128, String>) -> Map<u128, Seq<char>> {
    m.map_values(|s: String| s@)
}

/// The list stored against a key, or the empty list.
pub open spec fn list_or_empty(m: Map<u128, Seq<u128>>, k: u128) -> Seq<u128> {
    if m.dom().contains(k) { m[k] } else { Seq::empty() }
}

/// Creating a tool: it joins its group and type, gets an empty name and icon and no
/// location yet, and the subscribers and the owner of its type are told.
pub open spec fn spec_create_tool(m: ToolStateModel, g: ToolGroupId, ty: ToolTypeId, t: ToolId) -> (ToolStateModel, Seq<ToolStateOutput>) {
    (
        ToolStateModel {
            tools: m.tools.insert(t.0),
            group_of: m.group_of.insert(t.0, g),
            type_of: m.type_of.insert(t.0, ty),
            tools_of_type: m.tools_of_type.insert(ty.0, seq_insert_unique(list_or_empty(m.tools_of_type, ty.0), t.0)),
            location_sink: m.location_sink.insert(t.0, None),
            names: m.names.insert(t.0, Seq::empty()),
            icons: m.icons.insert(t.0, IconId(0)),
            ..m
        },
        seq![ToolStateOutput::ToSubscribers(ToolState::AddTool(t))] + to_sink(owner_of_type(m, ty.0), ToolState::AddTool(t)),
    )
}

/// Duplicating a tool that has a type, group, name and icon: the new tool copies them, is shown
/// where the source tool was last located, and the owner, that location and the subscribers are told.
pub open spec fn spec_duplicate_tool(m: ToolStateModel, from: ToolId, to: ToolId) -> (ToolStateModel, Seq<ToolStateOutput>) {
    if m.type_of.dom().contains(from.0) && m.group_of.dom().contains(from.0) && m.names.dom().contains(from.0)
        && m.icons.dom().contains(from.0) {
        let ty = m.type_of[from.0];
        let g = m.group_of[from.0];
        let icon = m.icons[from.0];
        let located = m.location_target.dom().contains(from.0);
        (
            ToolStateModel {
                tools: m.tools.insert(to.0),
                group_of: m.group_of.insert(to.0, g),
                type_of: m.type_of.insert(to.0, ty),
                tools_of_type: m.tools_of_type.insert(ty.0, seq_insert_unique(list_or_empty(m.tools_of_type, ty.0), to.0)),
                location_sink: m.location_sink.insert(to.0, if located { Some(m.location_target[from.0]) } else { None }),
                names: m.names.insert(to.0, m.names[from.0]),
                icons: m.icons.insert(to.0, icon),
                ..m
            },
            to_sink(owner_of_type(m, ty.0), ToolState::DuplicateTool(from, to))
                + (if located {
                    seq![
                        ToolStateOutput::ToProgram(m.location_target[from.0], ToolState::DuplicateTool(from, to)),
                        ToolStateOutput::ToProgram(m.location_target[from.0], ToolState::SetIcon(to, icon)),
                    ]
                } else {
                    Seq::empty()
                })
                + seq![ToolStateOutput::ToSubscribers(ToolState::AddTool(to))],
        )
    } else {
        (m, Seq::empty())
    }
}

/// Locating a tool that exists: a new location program is sent the tool (after the old one
/// is told it has gone) and its icon; the location is always sent the position.
pub open spec fn spec_set_location(m: ToolStateModel, t: ToolId, p: ProgramId, pos: Position) -> (ToolStateModel, Seq<ToolStateOutput>) {
    if m.location_sink.dom().contains(t.0) {
        let moved = m.location_target.dom().contains(t.0) && m.location_target[t.0] != p;
        let changed = !m.location_target.dom().contains(t.0) || m.location_target[t.0] != p;
        (
            ToolStateModel {
                location_sink: m.location_sink.insert(t.0, Some(p)),
                location_target: m.location_target.insert(t.0, p),
                ..m
            },
            (if moved { to_sink(m.location_sink[t.0], ToolState::RemoveTool(t)) } else { Seq::empty() })
                + (if changed {
                    seq![ToolStateOutput::ToProgram(p, ToolState::AddTool(t))]
                        + (if m.icons.dom().contains(t.0) {
                            seq![ToolStateOutput::ToProgram(p, ToolState::SetIcon(t, m.icons[t.0]))]
                        } else {
                            Seq::empty()
                        })
                } else {
                    Seq::empty()
                })
                + seq![ToolStateOutput::ToProgram(p, ToolState::LocateTool(t, pos))],
        )
    } else {
        (m, Seq::empty())
    }
}

/// What a new owner of a type is sent for each tool of that type: the tool, then its dialog location if one is known.
pub open spec fn owner_greeting(m: ToolStateModel, p: ProgramId, ts: Seq<u128>) -> Seq<ToolStateOutput>
    decreases ts.len(),
{
    if ts.len() == 0 {
        Seq::empty()
    } else {
        let t = ts.last();
        owner_greeting(m, p, ts.drop_last()) + seq![ToolStateOutput::ToProgram(p, ToolState::AddTool(ToolId(t)))]
            + (if m.dialog_location.dom().contains(t) {
                seq![ToolStateOutput::ToProgram(p, ToolState::SetDialogLocation(ToolId(t), m.dialog_location[t]))]
            } else {
                Seq::empty()
            })
    }
}

/// Setting the owner of a tool type: it is sent every tool of the type.
pub open spec fn spec_set_type_owner(m: ToolStateModel, ty: ToolTypeId, p: ProgramId) -> (ToolStateModel, Seq<ToolStateOutput>) {
    (
        ToolStateModel { owner: m.owner.insert(ty.0, p), ..m },
        owner_greeting(m, p, list_or_empty(m.tools_of_type, ty.0)),
    )
}

/// Takes a tool out of the join it belongs to as a joined tool (a main tool left with no joined tools stops being one).
pub open spec fn spec_detach(m: ToolStateModel, t: u128) -> ToolStateModel {
    if m.join_parent.dom().contains(t) {
        let p = m.join_parent[t].0;
        let joined = if m.joined.dom().contains(p) {
            let rest = seq_without(m.joined[p], t);
            if rest.len() == 0 { m.joined.remove(p) } else { m.joined.insert(p, rest) }
        } else {
            m.joined
        };
        ToolStateModel { join_parent: m.join_parent.remove(t), joined: joined, ..m }
    } else {
        m
    }
}

/// Stops a tool from being a main tool: its joined tools lose their parent.
pub open spec fn spec_release_children(m: ToolStateModel, t: u128) -> ToolStateModel {
    if m.joined.dom().contains(t) {
        ToolStateModel {
            join_parent: m.join_parent.remove_keys(m.joined[t].to_set()),
            joined: m.joined.remove(t),
            ..m
        }
    } else {
        m
    }
}

/// Whether two tools are in the same group.
pub open spec fn same_group(m: ToolStateModel, a: u128, b: u128) -> bool {
    m.group_of.dom().contains(a) && m.group_of.dom().contains(b) && m.group_of[a] == m.group_of[b]
}

/// Joining a tool to a main tool, when both exist and are in different groups (a join of two
/// tools of one group has no effect).
pub open spec fn spec_join_tools(m: ToolStateModel, main: ToolId, j: ToolId) -> (ToolStateModel, Seq<ToolStateOutput>) {
    if m.tools.contains(main.0) && m.tools.contains(j.0) && !same_group(m, main.0, j.0) {
        let d = spec_detach(m, j.0);
        (
            ToolStateModel {
                joined: d.joined.insert(main.0, list_or_empty(d.joined, main.0).push(j.0)),
                join_parent: d.join_parent.insert(j.0, main),
                ..d
            },
            Seq::empty(),
        )
    } else {
        (m, Seq::empty())
    }
}

/// Disconnecting a tool from every join it takes part in.
pub open spec fn spec_disconnect_tool(m: ToolStateModel, t: ToolId) -> (ToolStateModel, Seq<ToolStateOutput>) {
    (spec_release_children(spec_detach(m, t.0), t.0), Seq::empty())
}

/// The owner of an optional type.
pub open spec fn owner_of_opt_type(m: ToolStateModel, ty: Option<ToolTypeId>) -> Option<ProgramId> {
    match ty {
        Some(ty) => owner_of_type(m, ty.0),
        None => None,
    }
}

/// Whether the group's default is a tool of that group (and so can take over its selection).
pub open spec fn usable_default(m: ToolStateModel, g: u128) -> bool {
    m.default_for_group.dom().contains(g) && m.group_of.dom().contains(m.default_for_group[g].0)
        && m.group_of[m.default_for_group[g].0].0 == g
}

/// Removing a tool: it leaves every table and join, stops being its group's default and its
/// type's member; its location (so that the location can let go of the tool, as a dock returns its
/// sprite), the owner of its type and the subscribers are told, in that order. If it was
/// selected, the group's default, whatever tool it names, is announced as selected to the
/// subscribers, the old location and the owner; when the default is a tool of the group it also
/// becomes the group's selection, otherwise the group is left with no selection. Removing a selected main tool deselects it, so
/// the groups it selected go back to their earlier selections, as when it is deselected.
pub open spec fn spec_remove_tool(m: ToolStateModel, t: ToolId) -> (ToolStateModel, Seq<ToolStateOutput>) {
    let (mr, outs, record) = remove_core(m, t);
    let (sel2, order2, restored) = restore_fold(mr, Seq::empty(), mr.selection, mr.selection_order, record);
    (ToolStateModel { selection: sel2, selection_order: order2, ..mr }, outs + restored)
}

/// Removing a tool before its groups are restored: the state, the messages so far, and the
/// restore record to apply (the removed tool's own, if it was selected).
pub open spec fn remove_core(m: ToolStateModel, t: ToolId) -> (ToolStateModel, Seq<ToolStateOutput>, Seq<(u128, Option<ToolId>)>) {
    let ty = if m.type_of.dom().contains(t.0) { Some(m.type_of[t.0]) } else { None };
    let g = if m.group_of.dom().contains(t.0) { Some(m.group_of[t.0]) } else { None };
    let loc = location_of(m, t.0);
    let m1 = ToolStateModel {
        type_of: m.type_of.remove(t.0),
        group_of: m.group_of.remove(t.0),
        names: m.names.remove(t.0),
        icons: m.icons.remove(t.0),
        tools: m.tools.remove(t.0),
        location_sink: m.location_sink.remove(t.0),
        ..m
    };
    let m2 = spec_release_children(spec_detach(m1, t.0), t.0);
    let tools_of_type = match ty {
        Some(ty) => if m2.tools_of_type.dom().contains(ty.0) {
            m2.tools_of_type.insert(ty.0, seq_without(m2.tools_of_type[ty.0], t.0))
        } else {
            m2.tools_of_type
        },
        None => m2.tools_of_type,
    };
    let default_for_group = match g {
        Some(g) => if m2.default_for_group.dom().contains(g.0) && m2.default_for_group[g.0] == t {
            m2.default_for_group.remove(g.0)
        } else {
            m2.default_for_group
        },
        None => m2.default_for_group,
    };
    let m3 = ToolStateModel { default_for_group: default_for_group, ..m2 };
    let was_selected = match g {
        Some(g) => m2.selection.dom().contains(g.0) && m2.selection[g.0] == t,
        None => false,
    };
    let (selection, selection_order) = match g {
        Some(g) => if was_selected {
            if usable_default(m3, g.0) {
                (m2.selection.insert(g.0, default_for_group[g.0]), m2.selection_order)
            } else {
                (m2.selection.remove(g.0), m2.selection_order.remove(m2.selection_order.index_of(g.0)))
            }
        } else {
            (m2.selection, m2.selection_order)
        },
        None => (m2.selection, m2.selection_order),
    };
    let reselect = match g {
        Some(g) => if was_selected && default_for_group.dom().contains(g.0) {
            let d = default_for_group[g.0];
            seq![ToolStateOutput::ToSubscribers(ToolState::Select(d))] + to_sink(loc, ToolState::Select(d))
                + to_sink(owner_of_opt_type(m, ty), ToolState::Select(d))
        } else {
            Seq::empty()
        },
        None => Seq::empty(),
    };
    let mr = ToolStateModel {
        tools_of_type: tools_of_type,
        default_for_group: default_for_group,
        location_target: m2.location_target.remove(t.0),
        restore: m2.restore.remove(t.0),
        selection: selection,
        selection_order: selection_order,
        open_dialogs: if m2.open_dialogs.contains(t.0) {
            m2.open_dialogs.remove(m2.open_dialogs.index_of(t.0))
        } else {
            m2.open_dialogs
        },
        ..m2
    };
    let record = if was_selected && m.restore.dom().contains(t.0) { m.restore[t.0] } else { Seq::empty() };
    (
        mr,
        to_sink(loc, ToolState::RemoveTool(t))
            + to_sink(owner_of_opt_type(m, ty), ToolState::RemoveTool(t))
            + seq![ToolStateOutput::ToSubscribers(ToolState::RemoveTool(t))]
            + reselect,
        record,
    )
}

/// The tools that selecting `t` selects: `t` itself, then the tools joined to it.
pub open spec fn selection_list(m: ToolStateModel, t: u128) -> Seq<u128> {
    seq![t] + list_or_empty(m.joined, t)
}

/// The deselections that selecting a list of tools causes: for each tool in a group whose
/// selected tool is a different one, that selected tool is deselected.
pub open spec fn deselect_outputs(m: ToolStateModel, ts: Seq<u128>) -> Seq<ToolStateOutput>
    decreases ts.len(),
{
    if ts.len() == 0 {
        Seq::empty()
    } else {
        let u = ts.last();
        let here = if m.group_of.dom().contains(u) && m.selection.dom().contains(m.group_of[u].0)
            && m.selection[m.group_of[u].0].0 != u {
            let s = m.selection[m.group_of[u].0];
            notify_all(m, s.0, ToolState::Deselect(s))
        } else {
            Seq::empty()
        };
        deselect_outputs(m, ts.drop_last()) + here
    }
}

/// The (group, tool) pairs that selecting a list of tools newly selects: the tools that have a
/// group whose selected tool (before the request) is not already that tool.
pub open spec fn select_candidates(m: ToolStateModel, ts: Seq<u128>) -> Seq<(u128, u128)>
    decreases ts.len(),
{
    if ts.len() == 0 {
        Seq::empty()
    } else {
        let u = ts.last();
        let rest = select_candidates(m, ts.drop_last());
        if m.group_of.dom().contains(u) && !(m.selection.dom().contains(m.group_of[u].0)
            && m.selection[m.group_of[u].0].0 == u) {
            rest.push((m.group_of[u].0, u))
        } else {
            rest
        }
    }
}

/// The selection table after selecting each candidate in turn (new groups go to the end of the order).
pub open spec fn apply_selects(sel: Map<u128, ToolId>, order: Seq<u128>, cs: Seq<(u128, u128)>) -> (Map<u128, ToolId>, Seq<u128>)
    decreases cs.len(),
{
    if cs.len() == 0 {
        (sel, order)
    } else {
        let (s, o) = apply_selects(sel, order, cs.drop_last());
        let (g, u) = cs.last();
        (s.insert(g, ToolId(u)), if s.dom().contains(g) { o } else { o.push(g) })
    }
}

/// The notifications for the newly selected tools, in order.
pub open spec fn select_outputs(m: ToolStateModel, cs: Seq<(u128, u128)>) -> Seq<ToolStateOutput>
    decreases cs.len(),
{
    if cs.len() == 0 {
        Seq::empty()
    } else {
        select_outputs(m, cs.drop_last()) + notify_all(m, cs.last().1, ToolState::Select(ToolId(cs.last().1)))
    }
}

/// The selection a group has, if any.
pub open spec fn prior_selection(m: ToolStateModel, g: u128) -> Option<ToolId> {
    if m.selection.dom().contains(g) { Some(m.selection[g]) } else { None }
}

/// What selecting a main tool records: each newly selected tool with the selection its group had.
pub open spec fn restore_entries(m: ToolStateModel, cs: Seq<(u128, u128)>) -> Seq<(u128, Option<ToolId>)> {
    Seq::new(cs.len(), |i: int| (cs[i].1, prior_selection(m, cs[i].0)))
}

/// Whether a recorded earlier selection can be restored: none, or a tool still in the group.
pub open spec fn restorable(m: ToolStateModel, g: u128, prev: Option<ToolId>) -> bool {
    match prev {
        Some(p) => m.group_of.dom().contains(p.0) && m.group_of[p.0].0 == g,
        None => true,
    }
}

/// Restoring the earlier selections of a deselected main tool, one record entry after another,
/// from the selection `sel` (in order `order`): a group that still has the tool the main tool
/// selected (and that the current request did not select) goes back to its earlier selection.
pub open spec fn restore_fold(m: ToolStateModel, ts: Seq<u128>, sel: Map<u128, ToolId>, order: Seq<u128>,
    es: Seq<(u128, Option<ToolId>)>) -> (Map<u128, ToolId>, Seq<u128>, Seq<ToolStateOutput>)
    decreases es.len(),
{
    if es.len() == 0 {
        (sel, order, Seq::empty())
    } else {
        let (s, o, out) = restore_fold(m, ts, sel, order, es.drop_last());
        let (j, prev) = es.last();
        if m.group_of.dom().contains(j) && s.dom().contains(m.group_of[j].0) && s[m.group_of[j].0] == ToolId(j)
            && !ts.contains(j) && restorable(m, m.group_of[j].0, prev) {
            let g = m.group_of[j].0;
            match prev {
                Some(p) => (s.insert(g, p), o,
                    out + notify_all(m, j, ToolState::Deselect(ToolId(j))) + notify_all(m, p.0, ToolState::Select(p))),
                None => (s.remove(g), o.remove(o.index_of(g)), out + notify_all(m, j, ToolState::Deselect(ToolId(j)))),
            }
        } else {
            (s, o, out)
        }
    }
}

/// The tool that selecting `u` replaces in its group (the group's selection, when that is a
/// different tool), if any.
pub open spec fn replaced_by(m: ToolStateModel, u: u128) -> Option<u128> {
    if m.group_of.dom().contains(u) && m.selection.dom().contains(m.group_of[u].0)
        && m.selection[m.group_of[u].0].0 != u {
        Some(m.selection[m.group_of[u].0].0)
    } else {
        None
    }
}

/// The record kept for a tool (empty if none).
pub open spec fn record_of(m: ToolStateModel, r: Option<u128>) -> Seq<(u128, Option<ToolId>)> {
    match r {
        Some(r) => if m.restore.dom().contains(r) { m.restore[r] } else { Seq::empty() },
        None => Seq::empty(),
    }
}

/// The records of the tools that selecting the listed tools replaces, one after another.
pub open spec fn replaced_records(m: ToolStateModel, ts: Seq<u128>) -> Seq<(u128, Option<ToolId>)>
    decreases ts.len(),
{
    if ts.len() == 0 {
        Seq::empty()
    } else {
        replaced_records(m, ts.drop_last()) + record_of(m, replaced_by(m, ts.last()))
    }
}

/// The records with those of the tools that selecting the listed tools replaces taken out.
pub open spec fn drop_replaced(m: ToolStateModel, restore: Map<u128, Seq<(u128, Option<ToolId>)>>, ts: Seq<u128>)
    -> Map<u128, Seq<(u128, Option<ToolId>)>>
    decreases ts.len(),
{
    if ts.len() == 0 {
        restore
    } else {
        let r0 = drop_replaced(m, restore, ts.drop_last());
        match replaced_by(m, ts.last()) {
            Some(r) => r0.remove(r),
            None => r0,
        }
    }
}

/// The records of the main tools that selecting `t` (and the tools joined to it) deselects.
pub open spec fn replaced_record(m: ToolStateModel, t: u128) -> Seq<(u128, Option<ToolId>)> {
    replaced_records(m, selection_list(m, t))
}

/// Selecting a tool that has a group: the tool and the tools joined to it become the selected tools
/// of their groups; the tools they replace are deselected first. When a replaced tool was a main
/// tool, the groups it selected go back to their earlier selections (where they still have the
/// tool it selected and this request selects nothing there), and its record is dropped. When `t` is a main tool that
/// was not selected, what it newly selects is recorded with the earlier selections.
pub open spec fn spec_select(m: ToolStateModel, t: ToolId) -> (ToolStateModel, Seq<ToolStateOutput>) {
    if m.group_of.dom().contains(t.0) {
        let ts = selection_list(m, t.0);
        let cs = select_candidates(m, ts);
        let (sel, order) = apply_selects(m.selection, m.selection_order, cs);
        let (sel2, order2, restored) = restore_fold(m, ts, sel, order, replaced_record(m, t.0));
        let g = m.group_of[t.0].0;
        let was = m.selection.dom().contains(g) && m.selection[g] == t;
        let r1 = drop_replaced(m, m.restore, ts);
        let r2 = if !was && m.joined.dom().contains(t.0) { r1.insert(t.0, restore_entries(m, cs)) } else { r1 };
        (
            ToolStateModel { selection: sel2, selection_order: order2, restore: r2, ..m },
            deselect_outputs(m, ts) + select_outputs(m, cs) + restored,
        )
    } else {
        (m, Seq::empty())
    }
}

/// The effect of one request: the next state and the messages to deliver, in order.
pub open spec fn spec_step(m: ToolStateModel, req: Tool) -> (ToolStateModel, Seq<ToolStateOutput>) {
    match req {
        Tool::Subscribe(p) => spec_subscribe(m, p),
        Tool::CreateTool(g, ty, t) => spec_create_tool(m, g, ty, t),
        Tool::RemoveTool(t) => spec_remove_tool(m, t),
        Tool::DuplicateTool(from, to) => spec_duplicate_tool(m, from, to),
        Tool::JoinTools(main, j) => spec_join_tools(m, main, j),
        Tool::DisconnectTool(t) => spec_disconnect_tool(m, t),
        Tool::SetToolTypeOwner(ty, p) => spec_set_type_owner(m, ty, p),
        Tool::SetToolLocation(t, p, pos) => spec_set_location(m, t, p, pos),
        Tool::SetToolDialogLocation(t, loc) => spec_set_dialog_location(m, t, loc),
        Tool::SetToolName(t, name) => spec_set_name(m, t, name),
        Tool::SetToolIcon(t, icon) => spec_set_icon(m, t, icon),
        Tool::SetDefaultForGroup(g, t) => spec_set_default_for_group(m, g, t),
        Tool::Select(t) => spec_select(m, t),
        Tool::OpenDialog(t) => spec_open_dialog(m, t),
        Tool::CloseDialog(t) => spec_close_dialog(m, t),
        Tool::CloseAllDialogs => spec_close_all_dialogs(m),
    }
}

/// Keeps the tool state.
pub struct ToolStateMachine {
    tools: Table<()>,
    group_of: Table<ToolGroupId>,
    type_of: Table<ToolTypeId>,
    tools_of_type: Table<Vec<u128>>,
    dialog_location: Table<Position>,
    joined: Table<Vec<u128>>,
    join_parent: Table<ToolId>,
    location_sink: Table<Option<ProgramId>>,
    location_target: Table<ProgramId>,
    owner: Table<ProgramId>,
    names: Table<String>,
    icons: Table<IconId>,
    selection: Table<ToolId>,
    default_for_group: Table<ToolId>,
    open_dialogs: Table<()>,
    restore: Table<Vec<(u128, Option<ToolId>)>>,
}

impl View for ToolStateMachine {
    type V = ToolStateModel;

    closed spec fn view(&self) -> ToolStateModel {
        ToolStateModel {
            tools: self.tools.map().dom(),
            group_of: self.group_of.map(),
            type_of: self.type_of.map(),
            tools_of_type: list_map(self.tools_of_type.map()),
            dialog_location: self.dialog_location.map(),
            joined: list_map(self.joined.map()),
            join_parent: self.join_parent.map(),
            location_sink: self.location_sink.map(),
            location_target: self.location_target.map(),
            owner: self.owner.map(),
            names: name_map(self.names.map()),
            icons: self.icons.map(),
            selection: self.selection.map(),
            selection_order: self.selection.key_seq(),
            default_for_group: self.default_for_group.map(),
            open_dialogs: self.open_dialogs.key_seq(),
            restore: restore_map(self.restore.map()),
        }
    }
}


/// `list_map` commutes with inserting into the table.
proof fn lemma_list_map_insert(m: Map<u128, Vec<u128>>, k: u128, v: Vec<u128>)
    ensures
        list_map(m.insert(k, v)) == list_map(m).insert(k, v@),
{
    assert(list_map(m.insert(k, v)) =~= list_map(m).insert(k, v@));
}

/// `list_map` commutes with removing from the table.
proof fn lemma_list_map_remove(m: Map<u128, Vec<u128>>, k: u128)
    ensures
        list_map(m.remove(k)) == list_map(m).remove(k),
{
    assert(list_map(m.remove(k)) =~= list_map(m).remove(k));
}

/// `name_map` commutes with inserting into the table.
proof fn lemma_name_map_insert(m: Map<u128, String>, k: u128, v: String)
    ensures
        name_map(m.insert(k, v)) == name_map(m).insert(k, v@),
{
    assert(name_map(m.insert(k, v)) =~= name_map(m).insert(k, v@));
}

/// `name_map` commutes with removing from the table.
proof fn lemma_name_map_remove(m: Map<u128, String>, k: u128)
    ensures
        name_map(m.remove(k)) == name_map(m).remove(k),
{
    assert(name_map(m.remove(k)) =~= name_map(m).remove(k));
}

/// Restoring reads only the groups, locations, types and owners of the model it is given.
proof fn lemma_restore_fold_model(m1: ToolStateModel, m2: ToolStateModel, ts: Seq<u128>, sel: Map<u128, ToolId>,
    order: Seq<u128>, es: Seq<(u128, Option<ToolId>)>)
    requires
        m1.group_of == m2.group_of,
        m1.location_sink == m2.location_sink,
        m1.type_of == m2.type_of,
        m1.owner == m2.owner,
    ensures
        restore_fold(m1, ts, sel, order, es) == restore_fold(m2, ts, sel, order, es),
    decreases es.len(),
{
    if es.len() > 0 {
        lemma_restore_fold_model(m1, m2, ts, sel, order, es.drop_last());
        let (j, prev) = es.last();
        assert(notify_all(m1, j, ToolState::Deselect(ToolId(j))) == notify_all(m2, j, ToolState::Deselect(ToolId(j))));
        match prev {
            Some(p) => { assert(notify_all(m1, p.0, ToolState::Select(p)) == notify_all(m2, p.0, ToolState::Select(p))); },
            None => {},
        }
    }
}

/// `restore_map` commutes with inserting into the table.
proof fn lemma_restore_map_insert(m: Map<u128, Vec<(u128, Option<ToolId>)>>, k: u128, v: Vec<(u128, Option<ToolId>)>)
    ensures
        restore_map(m.insert(k, v)) == restore_map(m).insert(k, v@),
{
    assert(restore_map(m.insert(k, v)) =~= restore_map(m).insert(k, v@));
}

/// `restore_map` commutes with removing from the table.
proof fn lemma_restore_map_remove(m: Map<u128, Vec<(u128, Option<ToolId>)>>, k: u128)
    ensures
        restore_map(m.remove(k)) == restore_map(m).remove(k),
{
    assert(restore_map(m.remove(k)) =~= restore_map(m).remove(k));
}

/// Whether a list holds an identifier.
fn list_contains(v: &Vec<u128>, x: u128) -> (r: bool)
    ensures
        r == v@.contains(x),
{
    let mut i: usize = 0;
    while i < v.len()
        invariant
            i <= v@.len(),
            forall|j: int| 0 <= j < i ==> #[trigger] v@[j] != x,
        decreases v@.len() - i,
    {
        if v[i] == x {
            assert(v@[i as int] == x);
            return true;
        }
        i = i + 1;
    }
    false
}

/// A copy of a restore record.
fn copy_record(v: &Vec<(u128, Option<ToolId>)>) -> (r: Vec<(u128, Option<ToolId>)>)
    ensures
        r@ == v@,
{
    let mut r: Vec<(u128, Option<ToolId>)> = Vec::new();
    let mut i: usize = 0;
    while i < v.len()
        invariant
            i <= v@.len(),
            r@ == v@.subrange(0, i as int),
        decreases v@.len() - i,
    {
        let (a, b) = v[i];
        r.push((a, b));
        i = i + 1;
        assert(r@ =~= v@.subrange(0, i as int));
    }
    assert(v@.subrange(0, v@.len() as int) =~= v@);
    r
}

/// Adds an identifier to the list stored against a key (creating the list if needed).
fn table_list_add(t: &mut Table<Vec<u128>>, key: u128, x: u128)
    requires
        old(t).wf(),
    ensures
        final(t).wf(),
        list_map(final(t).map()) == list_map(old(t).map()).insert(key, seq_insert_unique(list_or_empty(list_map(old(t).map()), key), x)),
{
    let ghost old_map = t.map();
    let mut list = match t.remove(key) {
        Some(l) => l,
        None => Vec::new(),
    };
    assert(list@ == list_or_empty(list_map(old_map), key));
    vec_insert_unique(&mut list, x);
    let ghost l = list;
    t.insert(key, list);
    proof {
        lemma_list_map_insert(old_map.remove(key), key, l);
        assert(old_map.remove(key).insert(key, l) =~= old_map.insert(key, l));
        lemma_list_map_insert(old_map, key, l);
    }
}



/// Removes every listed key from a table.
fn table_remove_keys(t: &mut Table<ToolId>, keys: &Vec<u128>)
    requires
        old(t).wf(),
    ensures
        final(t).wf(),
        final(t).map() == old(t).map().remove_keys(keys@.to_set()),
{
    let ghost parents = t.map();
    let mut i: usize = 0;
    while i < keys.len()
        invariant
            t.wf(),
            i <= keys@.len(),
            forall|k: u128| #[trigger] t.map().dom().contains(k)
                <==> parents.dom().contains(k) && !keys@.subrange(0, i as int).contains(k),
            forall|k: u128| #[trigger] t.map().dom().contains(k) ==> t.map()[k] == parents[k],
        decreases keys@.len() - i,
    {
        t.remove(keys[i]);
        proof {
            assert(keys@.subrange(0, i + 1) =~= keys@.subrange(0, i as int).push(keys@[i as int]));
            assert forall|k: u128| #[trigger] t.map().dom().contains(k)
                <==> parents.dom().contains(k) && !keys@.subrange(0, i + 1).contains(k) by {
                lemma_push_contains(keys@.subrange(0, i as int), keys@[i as int], k);
            }
        }
        i = i + 1;
    }
    proof {
        assert(keys@.subrange(0, keys@.len() as int) =~= keys@);
        assert forall|k: u128| keys@.contains(k) <==> #[trigger] keys@.to_set().contains(k) by {}
        assert(t.map() =~= parents.remove_keys(keys@.to_set()));
    }
}

/// Appends a message for an optional destination.
fn push_to_sink(out: &mut Vec<ToolStateOutput>, sink: Option<ProgramId>, msg: ToolState)
    ensures
        final(out)@ == old(out)@ + to_sink(sink, msg),
{
    match sink {
        Some(p) => {
            out.push(ToolStateOutput::ToProgram(p, msg));
        },
        None => {},
    }
    assert(out@ =~= old(out)@ + to_sink(sink, msg));
}

impl ToolStateMachine {
    /// The tables are well formed.
    pub closed spec fn wf(self) -> bool {
        &&& self.tools.wf()
        &&& self.group_of.wf()
        &&& self.type_of.wf()
        &&& self.tools_of_type.wf()
        &&& self.dialog_location.wf()
        &&& self.joined.wf()
        &&& self.join_parent.wf()
        &&& self.location_sink.wf()
        &&& self.location_target.wf()
        &&& self.owner.wf()
        &&& self.names.wf()
        &&& self.icons.wf()
        &&& self.selection.wf()
        &&& self.default_for_group.wf()
        &&& self.open_dialogs.wf()
        &&& self.restore.wf()
    }

    /// Creates a tool state with no tools.
    pub fn new() -> (s: Self)
        ensures
            s.wf(),
            s@ == empty_model(),
    {
        let s = ToolStateMachine {
            tools: Table::new(),
            group_of: Table::new(),
            type_of: Table::new(),
            tools_of_type: Table::new(),
            dialog_location: Table::new(),
            joined: Table::new(),
            join_parent: Table::new(),
            location_sink: Table::new(),
            location_target: Table::new(),
            owner: Table::new(),
            names: Table::new(),
            icons: Table::new(),
            selection: Table::new(),
            default_for_group: Table::new(),
            open_dialogs: Table::new(),
            restore: Table::new(),
        };
        assert(s@.tools =~= Set::<u128>::empty());
        assert(s@.restore =~= Map::<u128, Seq<(u128, Option<ToolId>)>>::empty());
        assert(s@.tools_of_type =~= Map::<u128, Seq<u128>>::empty());
        assert(s@.joined =~= Map::<u128, Seq<u128>>::empty());
        assert(s@.names =~= Map::<u128, Seq<char>>::empty());
        s
    }

    /// Where location messages for a tool go.
    fn location_of(&self, t: ToolId) -> (r: Option<ProgramId>)
        requires
            self.wf(),
        ensures
            r == location_of(self@, t.0),
    {
        match self.location_sink.get(t.0) {
            Some(sink) => *sink,
            None => None,
        }
    }

    /// The owner of a tool type.
    fn owner_of_type(&self, ty: ToolTypeId) -> (r: Option<ProgramId>)
        requires
            self.wf(),
        ensures
            r == owner_of_type(self@, ty.0),
    {
        match self.owner.get(ty.0) {
            Some(p) => Some(*p),
            None => None,
        }
    }

    /// The owner of the type of a tool.
    fn owner_of_tool(&self, t: ToolId) -> (r: Option<ProgramId>)
        requires
            self.wf(),
        ensures
            r == owner_of_tool(self@, t.0),
    {
        match self.type_of.get(t.0) {
            Some(ty) => self.owner_of_type(*ty),
            None => None,
        }
    }



    /// Processes one request: updates the state and returns the messages that the
    /// host must deliver, in order.
    pub fn handle(&mut self, req: Tool) -> (out: Vec<ToolStateOutput>)
        requires
            old(self).wf(),
        ensures
            final(self).wf(),
            (final(self)@, out@) == spec_step(old(self)@, req),
    {
        match req {
            Tool::Subscribe(p) => self.subscribe(p),
            Tool::CreateTool(g, ty, t) => self.create_tool(g, ty, t),
            Tool::RemoveTool(t) => self.remove_tool(t),
            Tool::DuplicateTool(from, to) => self.duplicate_tool(from, to),
            Tool::JoinTools(main, j) => self.join_tools(main, j),
            Tool::DisconnectTool(t) => self.disconnect_tool(t),
            Tool::SetToolTypeOwner(ty, p) => self.set_type_owner(ty, p),
            Tool::SetToolLocation(t, p, pos) => self.set_location(t, p, pos),
            Tool::SetToolDialogLocation(t, loc) => self.set_dialog_location(t, loc),
            Tool::SetToolName(t, name) => self.set_name(t, name),
            Tool::SetToolIcon(t, icon) => self.set_icon(t, icon),
            Tool::SetDefaultForGroup(g, t) => self.set_default_for_group(g, t),
            Tool::Select(t) => self.select(t),
            Tool::OpenDialog(t) => self.open_dialog(t),
            Tool::CloseDialog(t) => self.close_dialog(t),
            Tool::CloseAllDialogs => self.close_all_dialogs(),
        }
    }

    /// Handles `Tool::SetDefaultForGroup`.
    fn set_default_for_group(&mut self, g: ToolGroupId, t: ToolId) -> (out: Vec<ToolStateOutput>)
        requires
            old(self).wf(),
        ensures
            final(self).wf(),
            (final(self)@, out@) == spec_set_default_for_group(old(self)@, g, t),
    {
        self.default_for_group.insert(g.0, t);
        let out = Vec::new();
        assert(out@ =~= Seq::<ToolStateOutput>::empty());
        out
    }

    /// Handles `Tool::SetToolDialogLocation`.
    fn set_dialog_location(&mut self, t: ToolId, loc: Position) -> (out: Vec<ToolStateOutput>)
        requires
            old(self).wf(),
        ensures
            final(self).wf(),
            (final(self)@, out@) == spec_set_dialog_location(old(self)@, t, loc),
    {
        let mut out = Vec::new();
        let own = self.owner_of_tool(t);
        push_to_sink(&mut out, own, ToolState::SetDialogLocation(t, loc));
        self.dialog_location.insert(t.0, loc);
        assert(out@ =~= to_sink(own, ToolState::SetDialogLocation(t, loc)));
        out
    }

    /// Handles `Tool::SetToolIcon`.
    fn set_icon(&mut self, t: ToolId, icon: IconId) -> (out: Vec<ToolStateOutput>)
        requires
            old(self).wf(),
        ensures
            final(self).wf(),
            (final(self)@, out@) == spec_set_icon(old(self)@, t, icon),
    {
        let mut out = Vec::new();
        if self.icons.contains_key(t.0) {
            self.icons.insert(t.0, icon);
            let loc = self.location_of(t);
            push_to_sink(&mut out, loc, ToolState::SetIcon(t, icon));
        }
        assert(out@ =~= spec_set_icon(old(self)@, t, icon).1);
        out
    }

    /// Handles `Tool::SetToolName`.
    fn set_name(&mut self, t: ToolId, name: String) -> (out: Vec<ToolStateOutput>)
        requires
            old(self).wf(),
        ensures
            final(self).wf(),
            (final(self)@, out@) == spec_set_name(old(self)@, t, name),
    {
        let mut out = Vec::new();
        if self.names.contains_key(t.0) {
            let ghost old_names = self.names.map();
            let stored = name.clone();
            self.names.insert(t.0, stored);
            proof {
                lemma_name_map_insert(old_names, t.0, stored);
            }
            let loc = self.location_of(t);
            push_to_sink(&mut out, loc, ToolState::SetName(t, name.clone()));
            let own = self.owner_of_tool(t);
            push_to_sink(&mut out, own, ToolState::SetName(t, name.clone()));
            out.push(ToolStateOutput::ToSubscribers(ToolState::SetName(t, name)));
        }
        assert(out@ =~= spec_set_name(old(self)@, t, name).1);
        out
    }

    /// Handles `Tool::Subscribe`.
    fn subscribe(&self, p: ProgramId) -> (out: Vec<ToolStateOutput>)
        requires
            self.wf(),
        ensures
            out@ == spec_subscribe(self@, p).1,
    {
        let mut out: Vec<ToolStateOutput> = Vec::new();
        let n = self.selection.len();
        let mut i: usize = 0;
        while i < n
            invariant
                self.wf(),
                n == self@.selection_order.len(),
                i <= n,
                out@ =~= selections_for(self@, p).subrange(0, i as int),
            decreases n - i,
        {
            let g = self.selection.key_at(i);
            let tool = *self.selection.value_at(i);
            out.push(ToolStateOutput::ToProgram(p, ToolState::Select(tool)));
            i = i + 1;
            assert(out@ =~= selections_for(self@, p).subrange(0, i as int));
        }
        out.push(ToolStateOutput::AddSubscriber(p));
        assert(out@ =~= spec_subscribe(self@, p).1);
        out
    }

    /// Handles `Tool::OpenDialog`.
    fn open_dialog(&mut self, t: ToolId) -> (out: Vec<ToolStateOutput>)
        requires
            old(self).wf(),
        ensures
            final(self).wf(),
            (final(self)@, out@) == spec_open_dialog(old(self)@, t),
    {
        let mut out = Vec::new();
        if self.tools.contains_key(t.0) && !self.open_dialogs.contains_key(t.0) {
            self.push_notify_all(&mut out, t, ToolState::OpenDialog(t));
            self.open_dialogs.insert(t.0, ());
        }
        assert(out@ =~= spec_open_dialog(old(self)@, t).1);
        out
    }

    /// Handles `Tool::CloseDialog`.
    fn close_dialog(&mut self, t: ToolId) -> (out: Vec<ToolStateOutput>)
        requires
            old(self).wf(),
        ensures
            final(self).wf(),
            (final(self)@, out@) == spec_close_dialog(old(self)@, t),
    {
        let mut out = Vec::new();
        if self.tools.contains_key(t.0) && self.open_dialogs.contains_key(t.0) {
            self.push_notify_all(&mut out, t, ToolState::CloseDialog(t));
            self.open_dialogs.remove(t.0);
        }
        assert(out@ =~= spec_close_dialog(old(self)@, t).1);
        out
    }

    /// Handles `Tool::CloseAllDialogs`.
    fn close_all_dialogs(&mut self) -> (out: Vec<ToolStateOutput>)
        requires
            old(self).wf(),
        ensures
            final(self).wf(),
            (final(self)@, out@) == spec_close_all_dialogs(old(self)@),
    {
        let mut out: Vec<ToolStateOutput> = Vec::new();
        let open = self.open_dialogs.keys();
        let ghost m = self@;
        let mut i: usize = 0;
        while i < open.len()
            invariant
                self.wf(),
                self@ == m,
                open@ == m.open_dialogs,
                i <= open@.len(),
                out@ == close_outputs(m, open@.subrange(0, i as int)),
            decreases open@.len() - i,
        {
            let t = ToolId(open[i]);
            self.push_notify_all(&mut out, t, ToolState::CloseDialog(t));
            assert(open@.subrange(0, i + 1).drop_last() =~= open@.subrange(0, i as int));
            i = i + 1;
        }
        assert(open@.subrange(0, open@.len() as int) =~= open@);
        self.open_dialogs = Table::new();
        out
    }


    /// Handles `Tool::CreateTool`.
    fn create_tool(&mut self, g: ToolGroupId, ty: ToolTypeId, t: ToolId) -> (out: Vec<ToolStateOutput>)
        requires
            old(self).wf(),
        ensures
            final(self).wf(),
            (final(self)@, out@) == spec_create_tool(old(self)@, g, ty, t),
    {
        let ghost m = self@;
        table_list_add(&mut self.tools_of_type, ty.0, t.0);
        self.group_of.insert(t.0, g);
        self.type_of.insert(t.0, ty);
        self.tools.insert(t.0, ());
        self.location_sink.insert(t.0, None);
        let ghost old_names = self.names.map();
        let empty_name = String::new();
        self.names.insert(t.0, empty_name);
        proof {
            lemma_name_map_insert(old_names, t.0, empty_name);
        }
        self.icons.insert(t.0, IconId(0));
        let mut out = Vec::new();
        out.push(ToolStateOutput::ToSubscribers(ToolState::AddTool(t)));
        let own = self.owner_of_type(ty);
        push_to_sink(&mut out, own, ToolState::AddTool(t));
        assert(self@.tools =~= m.tools.insert(t.0));
        assert(out@ =~= spec_create_tool(m, g, ty, t).1);
        out
    }

    /// Handles `Tool::DuplicateTool`.
    fn duplicate_tool(&mut self, from: ToolId, to: ToolId) -> (out: Vec<ToolStateOutput>)
        requires
            old(self).wf(),
        ensures
            final(self).wf(),
            (final(self)@, out@) == spec_duplicate_tool(old(self)@, from, to),
    {
        let ghost m = self@;
        let mut out = Vec::new();
        let ty = match self.type_of.get(from.0) { Some(ty) => *ty, None => { return out; } };
        let g = match self.group_of.get(from.0) { Some(g) => *g, None => { return out; } };
        let name = match self.names.get(from.0) { Some(n) => n.clone(), None => { return out; } };
        let icon = match self.icons.get(from.0) { Some(i) => *i, None => { return out; } };

        table_list_add(&mut self.tools_of_type, ty.0, to.0);
        self.group_of.insert(to.0, g);
        self.type_of.insert(to.0, ty);
        self.tools.insert(to.0, ());
        let ghost old_names = self.names.map();
        let ghost name_copy = name;
        self.names.insert(to.0, name);
        proof {
            lemma_name_map_insert(old_names, to.0, name_copy);
        }
        self.icons.insert(to.0, icon);

        let own = self.owner_of_type(ty);
        push_to_sink(&mut out, own, ToolState::DuplicateTool(from, to));

        match self.location_target.get(from.0) {
            Some(target) => {
                let target = *target;
                self.location_sink.insert(to.0, Some(target));
                out.push(ToolStateOutput::ToProgram(target, ToolState::DuplicateTool(from, to)));
                out.push(ToolStateOutput::ToProgram(target, ToolState::SetIcon(to, icon)));
            },
            None => {
                self.location_sink.insert(to.0, None);
            },
        }
        out.push(ToolStateOutput::ToSubscribers(ToolState::AddTool(to)));
        assert(self@.tools =~= m.tools.insert(to.0));
        assert(out@ =~= spec_duplicate_tool(m, from, to).1);
        out
    }

    /// Handles `Tool::SetToolLocation`.
    fn set_location(&mut self, t: ToolId, p: ProgramId, pos: Position) -> (out: Vec<ToolStateOutput>)
        requires
            old(self).wf(),
        ensures
            final(self).wf(),
            (final(self)@, out@) == spec_set_location(old(self)@, t, p, pos),
    {
        let ghost m = self@;
        let mut out = Vec::new();
        let sink = match self.location_sink.get(t.0) { Some(s) => *s, None => { return out; } };
        let changed = match self.location_target.get(t.0) {
            Some(old_target) => {
                if *old_target != p {
                    push_to_sink(&mut out, sink, ToolState::RemoveTool(t));
                    true
                } else {
                    false
                }
            },
            None => true,
        };
        self.location_sink.insert(t.0, Some(p));
        self.location_target.insert(t.0, p);
        if changed {
            out.push(ToolStateOutput::ToProgram(p, ToolState::AddTool(t)));
            match self.icons.get(t.0) {
                Some(icon) => {
                    out.push(ToolStateOutput::ToProgram(p, ToolState::SetIcon(t, *icon)));
                },
                None => {},
            }
        }
        out.push(ToolStateOutput::ToProgram(p, ToolState::LocateTool(t, pos)));
        assert(out@ =~= spec_set_location(m, t, p, pos).1);
        out
    }

    /// Handles `Tool::SetToolTypeOwner`.
    fn set_type_owner(&mut self, ty: ToolTypeId, p: ProgramId) -> (out: Vec<ToolStateOutput>)
        requires
            old(self).wf(),
        ensures
            final(self).wf(),
            (final(self)@, out@) == spec_set_type_owner(old(self)@, ty, p),
    {
        let ghost m = self@;
        let mut out: Vec<ToolStateOutput> = Vec::new();
        self.owner.insert(ty.0, p);
        match self.tools_of_type.get(ty.0) {
            Some(list) => {
                let mut i: usize = 0;
                while i < list.len()
                    invariant
                        self.wf(),
                        self@.dialog_location == m.dialog_location,
                        list@ == list_or_empty(m.tools_of_type, ty.0),
                        i <= list@.len(),
                        out@ == owner_greeting(m, p, list@.subrange(0, i as int)),
                    decreases list@.len() - i,
                {
                    let t = list[i];
                    assert(list@.subrange(0, i + 1).drop_last() =~= list@.subrange(0, i as int));
                    out.push(ToolStateOutput::ToProgram(p, ToolState::AddTool(ToolId(t))));
                    match self.dialog_location.get(t) {
                        Some(loc) => {
                            out.push(ToolStateOutput::ToProgram(p, ToolState::SetDialogLocation(ToolId(t), *loc)));
                        },
                        None => {},
                    }
                    i = i + 1;
                    assert(out@ =~= owner_greeting(m, p, list@.subrange(0, i as int)));
                }
                assert(list@.subrange(0, list@.len() as int) =~= list@);
            },
            None => {
                assert(out@ =~= owner_greeting(m, p, Seq::empty()));
            },
        }
        out
    }


    /// Takes a tool out of the join it belongs to as a joined tool.
    fn detach(&mut self, t: ToolId)
        requires
            old(self).wf(),
        ensures
            final(self).wf(),
            final(self)@ == spec_detach(old(self)@, t.0),
    {
        let ghost m = self@;
        match self.join_parent.remove(t.0) {
            Some(parent) => {
                let p = parent.0;
                let ghost old_joined = self.joined.map();
                let rest = match self.joined.get(p) {
                    Some(list) => Some(vec_without(list, t.0)),
                    None => None,
                };
                match rest {
                    Some(rest) => {
                        if rest.len() == 0 {
                            self.joined.remove(p);
                            proof { lemma_list_map_remove(old_joined, p); }
                        } else {
                            let ghost r = rest;
                            self.joined.insert(p, rest);
                            proof { lemma_list_map_insert(old_joined, p, r); }
                        }
                    },
                    None => {},
                }
                assert(self@ =~= spec_detach(m, t.0));
            },
            None => {},
        }
    }

    /// Stops a tool from being a main tool.
    fn release_children(&mut self, t: ToolId)
        requires
            old(self).wf(),
        ensures
            final(self).wf(),
            final(self)@ == spec_release_children(old(self)@, t.0),
    {
        let ghost m = self@;
        let ghost old_joined = self.joined.map();
        match self.joined.remove(t.0) {
            Some(children) => {
                proof { lemma_list_map_remove(old_joined, t.0); }
                table_remove_keys(&mut self.join_parent, &children);
                assert(self@ =~= spec_release_children(m, t.0));
            },
            None => {},
        }
    }

    /// Handles `Tool::JoinTools`.
    fn join_tools(&mut self, main: ToolId, j: ToolId) -> (out: Vec<ToolStateOutput>)
        requires
            old(self).wf(),
        ensures
            final(self).wf(),
            (final(self)@, out@) == spec_join_tools(old(self)@, main, j),
    {
        let out = Vec::new();
        assert(out@ =~= Seq::<ToolStateOutput>::empty());
        let same = match (self.group_of.get(main.0), self.group_of.get(j.0)) {
            (Some(a), Some(b)) => a.0 == b.0,
            _ => false,
        };
        if self.tools.contains_key(main.0) && self.tools.contains_key(j.0) && !same {
            self.detach(j);
            let ghost old_joined = self.joined.map();
            let mut list = match self.joined.get(main.0) {
                Some(l) => vec_clone_u128(l),
                None => Vec::new(),
            };
            list.push(j.0);
            let ghost l = list;
            self.joined.insert(main.0, list);
            proof { lemma_list_map_insert(old_joined, main.0, l); }
            self.join_parent.insert(j.0, main);
        }
        out
    }

    /// Handles `Tool::DisconnectTool`.
    fn disconnect_tool(&mut self, t: ToolId) -> (out: Vec<ToolStateOutput>)
        requires
            old(self).wf(),
        ensures
            final(self).wf(),
            (final(self)@, out@) == spec_disconnect_tool(old(self)@, t),
    {
        self.detach(t);
        self.release_children(t);
        let out = Vec::new();
        assert(out@ =~= Seq::<ToolStateOutput>::empty());
        out
    }

    /// Handles `Tool::RemoveTool`.
    fn remove_tool(&mut self, t: ToolId) -> (out: Vec<ToolStateOutput>)
        requires
            old(self).wf(),
        ensures
            final(self).wf(),
            (final(self)@, out@) == spec_remove_tool(old(self)@, t),
    {
        let ghost m = self@;
        let loc = self.location_of(t);
        let record: Vec<(u128, Option<ToolId>)> = match self.restore.get(t.0) {
            Some(rec) => copy_record(rec),
            None => Vec::new(),
        };
        let ty = self.type_of.remove(t.0);
        let g = self.group_of.remove(t.0);
        let ghost old_names = self.names.map();
        self.names.remove(t.0);
        proof { lemma_name_map_remove(old_names, t.0); }
        self.icons.remove(t.0);
        self.tools.remove(t.0);
        self.location_sink.remove(t.0);
        assert(self@.tools =~= m.tools.remove(t.0));
        let ghost m1 = ToolStateModel {
            type_of: m.type_of.remove(t.0),
            group_of: m.group_of.remove(t.0),
            names: m.names.remove(t.0),
            icons: m.icons.remove(t.0),
            tools: m.tools.remove(t.0),
            location_sink: m.location_sink.remove(t.0),
            ..m
        };
        assert(self@ =~= m1);

        self.detach(t);
        self.release_children(t);
        let ghost m2 = self@;
        assert(m2 == spec_release_children(spec_detach(m1, t.0), t.0));

        match ty {
            Some(ty) => {
                let ghost old_types = self.tools_of_type.map();
                let rest = match self.tools_of_type.get(ty.0) {
                    Some(list) => Some(vec_without(list, t.0)),
                    None => None,
                };
                match rest {
                    Some(rest) => {
                        let ghost r = rest;
                        self.tools_of_type.insert(ty.0, rest);
                        proof { lemma_list_map_insert(old_types, ty.0, r); }
                    },
                    None => {},
                }
            },
            None => {},
        }

        match g {
            Some(g) => {
                let is_default = match self.default_for_group.get(g.0) {
                    Some(d) => *d == t,
                    None => false,
                };
                if is_default {
                    self.default_for_group.remove(g.0);
                }
            },
            None => {},
        }

        self.location_target.remove(t.0);
        let ghost old_restore = self.restore.map();
        self.restore.remove(t.0);
        proof { lemma_restore_map_remove(old_restore, t.0); }

        let mut out = Vec::new();
        let own = match ty {
            Some(ty) => self.owner_of_type(ty),
            None => None,
        };
        push_to_sink(&mut out, loc, ToolState::RemoveTool(t));
        push_to_sink(&mut out, own, ToolState::RemoveTool(t));
        out.push(ToolStateOutput::ToSubscribers(ToolState::RemoveTool(t)));

        let was_selected = match g {
            Some(g) => match self.selection.get(g.0) {
                Some(s) => *s == t,
                None => false,
            },
            None => false,
        };
        match g {
            Some(g) => {
                if was_selected {
                    match self.default_for_group.get(g.0) {
                        Some(d) => {
                            let d = *d;
                            let usable = match self.group_of.get(d.0) {
                                Some(dg) => dg.0 == g.0,
                                None => false,
                            };
                            proof { self.selection.lemma_dom(); }
                            if usable {
                                self.selection.insert(g.0, d);
                            } else {
                                self.selection.remove(g.0);
                            }
                            out.push(ToolStateOutput::ToSubscribers(ToolState::Select(d)));
                            push_to_sink(&mut out, loc, ToolState::Select(d));
                            push_to_sink(&mut out, own, ToolState::Select(d));
                        },
                        None => {
                            self.selection.remove(g.0);
                        },
                    }
                }
            },
            None => {},
        }

        proof { self.open_dialogs.lemma_dom(); }
        self.open_dialogs.remove(t.0);
        assert(out@ =~= remove_core(m, t).1);
        let ghost r = remove_core(m, t).0;
        assert(self@.tools_of_type =~= r.tools_of_type);
        assert(self@.default_for_group =~= r.default_for_group);
        assert(self@.selection =~= r.selection);
        assert(self@.selection_order =~= r.selection_order);
        assert(self@.open_dialogs =~= r.open_dialogs);
        assert(self@.location_target =~= r.location_target);
        assert(self@.restore =~= r.restore);
        assert(self@ =~= r);
        let used: Vec<(u128, Option<ToolId>)> = if was_selected { record } else { Vec::new() };
        assert(m2.restore == m.restore);
        assert(used@ == remove_core(m, t).2);
        let no_tools: Vec<u128> = Vec::new();
        assert(no_tools@ =~= Seq::<u128>::empty());
        self.restore_groups(&no_tools, &used, &mut out);
        out
    }


    /// Restores the earlier selections in a record (see `restore_fold`), with the tools `ts`
    /// that the current request selected.
    fn restore_groups(&mut self, ts: &Vec<u128>, record: &Vec<(u128, Option<ToolId>)>, out: &mut Vec<ToolStateOutput>)
        requires
            old(self).wf(),
        ensures
            final(self).wf(),
            ({
                let r = restore_fold(old(self)@, ts@, old(self)@.selection, old(self)@.selection_order, record@);
                &&& final(self)@ == (ToolStateModel { selection: r.0, selection_order: r.1, ..old(self)@ })
                &&& final(out)@ == old(out)@ + r.2
            }),
    {
        let ghost m = self@;
        let ghost start = out@;
        let mut k: usize = 0;
        while k < record.len()
            invariant
                self.wf(),
                k <= record@.len(),
                self@ == (ToolStateModel { selection: self@.selection, selection_order: self@.selection_order, ..m }),
                ({
                    let r = restore_fold(m, ts@, m.selection, m.selection_order, record@.subrange(0, k as int));
                    &&& self@.selection == r.0
                    &&& self@.selection_order == r.1
                    &&& out@ == start + r.2
                }),
            decreases record@.len() - k,
        {
            let (j, prev) = record[k];
            assert(record@.subrange(0, k + 1).drop_last() =~= record@.subrange(0, k as int));
            assert(record@.subrange(0, k + 1).last() == (j, prev));
            let gj = match self.group_of.get(j) { Some(g) => Some(*g), None => None };
            match gj {
                Some(g) => {
                    let holds = match self.selection.get(g.0) { Some(s) => s.0 == j, None => false };
                    let listed = list_contains(ts, j);
                    let ok = match prev {
                        Some(p) => match self.group_of.get(p.0) { Some(pg) => pg.0 == g.0, None => false },
                        None => true,
                    };
                    if holds && !listed && ok {
                        proof { self.selection.lemma_dom(); }
                        self.push_notify_all(out, ToolId(j), ToolState::Deselect(ToolId(j)));
                        match prev {
                            Some(p) => {
                                self.selection.insert(g.0, p);
                                self.push_notify_all(out, p, ToolState::Select(p));
                            },
                            None => {
                                self.selection.remove(g.0);
                            },
                        }
                    }
                },
                None => {},
            }
            k = k + 1;
            assert(self@ =~= (ToolStateModel { selection: self@.selection, selection_order: self@.selection_order, ..m }));
            assert(out@ =~= start + restore_fold(m, ts@, m.selection, m.selection_order, record@.subrange(0, k as int)).2);
        }
        assert(record@.subrange(0, record@.len() as int) =~= record@);
    }

    /// Handles `Tool::Select`.
    fn select(&mut self, t: ToolId) -> (out: Vec<ToolStateOutput>)
        requires
            old(self).wf(),
        ensures
            final(self).wf(),
            (final(self)@, out@) == spec_select(old(self)@, t),
    {
        let ghost m = self@;
        let mut out: Vec<ToolStateOutput> = Vec::new();
        let gt = match self.group_of.get(t.0) {
            Some(g) => *g,
            None => {
                assert(out@ =~= Seq::<ToolStateOutput>::empty());
                return out;
            },
        };
        let was = match self.selection.get(gt.0) {
            Some(s) => s.0 == t.0,
            None => false,
        };
        let mut list: Vec<u128> = Vec::new();
        list.push(t.0);
        match self.joined.get(t.0) {
            Some(j) => {
                let mut k: usize = 0;
                while k < j.len()
                    invariant
                        k <= j@.len(),
                        list@ == seq![t.0] + j@.subrange(0, k as int),
                    decreases j@.len() - k,
                {
                    list.push(j[k]);
                    k = k + 1;
                    assert(list@ =~= seq![t.0] + j@.subrange(0, k as int));
                }
                assert(j@.subrange(0, j@.len() as int) =~= j@);
            },
            None => {},
        }
        assert(list@ =~= selection_list(m, t.0));

        // Deselect the tools that are replaced, and gather the tools that become selected
        let mut candidates: Vec<(u128, u128)> = Vec::new();
        let mut priors: Vec<(u128, Option<ToolId>)> = Vec::new();
        let mut record: Vec<(u128, Option<ToolId>)> = Vec::new();
        let mut replaced: Vec<Option<u128>> = Vec::new();
        let mut i: usize = 0;
        while i < list.len()
            invariant
                self.wf(),
                self@ == m,
                i <= list@.len(),
                list@ == selection_list(m, t.0),
                out@ == deselect_outputs(m, list@.subrange(0, i as int)),
                candidates@ == select_candidates(m, list@.subrange(0, i as int)),
                priors@ == restore_entries(m, candidates@),
                record@ == replaced_records(m, list@.subrange(0, i as int)),
                replaced@.len() == i,
                forall|x: int| 0 <= x < i ==> #[trigger] replaced@[x] == replaced_by(m, list@[x]),
            decreases list@.len() - i,
        {
            let ghost rec_before = record@;
            let u = list[i];
            assert(list@.subrange(0, i + 1).drop_last() =~= list@.subrange(0, i as int));
            let ghost before = out@;
            let ghost cands = candidates@;
            match self.group_of.get(u) {
                Some(g) => {
                    let g = *g;
                    match self.selection.get(g.0) {
                        Some(sel) => {
                            let sel = *sel;
                            if sel.0 != u {
                                self.push_notify_all(&mut out, sel, ToolState::Deselect(sel));
                                candidates.push((g.0, u));
                                priors.push((u, Some(sel)));
                                match self.restore.get(sel.0) {
                                    Some(rec) => {
                                        let more = copy_record(rec);
                                        let mut x: usize = 0;
                                        while x < more.len()
                                            invariant
                                                x <= more@.len(),
                                                record@ == rec_before + more@.subrange(0, x as int),
                                            decreases more@.len() - x,
                                        {
                                            record.push(more[x]);
                                            x = x + 1;
                                            assert(record@ =~= rec_before + more@.subrange(0, x as int));
                                        }
                                        assert(more@.subrange(0, more@.len() as int) =~= more@);
                                    },
                                    None => {},
                                }
                                replaced.push(Some(sel.0));
                            } else {
                                replaced.push(None);
                            }
                        },
                        None => {
                            candidates.push((g.0, u));
                            priors.push((u, None));
                            replaced.push(None);
                        },
                    }
                },
                None => {
                    replaced.push(None);
                },
            }
            assert(record@ =~= replaced_records(m, list@.subrange(0, i + 1)));
            i = i + 1;
            assert(out@ =~= deselect_outputs(m, list@.subrange(0, i as int)));
            assert(priors@ =~= restore_entries(m, candidates@));
        }
        assert(list@.subrange(0, list@.len() as int) =~= list@);
        let ghost deselected = out@;

        // Select the new tools
        let mut c: usize = 0;
        while c < candidates.len()
            invariant
                self.wf(),
                c <= candidates@.len(),
                candidates@ == select_candidates(m, selection_list(m, t.0)),
                self@ == (ToolStateModel { selection: self@.selection, selection_order: self@.selection_order, ..m }),
                (self@.selection, self@.selection_order) == apply_selects(m.selection, m.selection_order, candidates@.subrange(0, c as int)),
                out@ == deselected + select_outputs(m, candidates@.subrange(0, c as int)),
            decreases candidates@.len() - c,
        {
            let (g, u) = candidates[c];
            assert(candidates@.subrange(0, c + 1).drop_last() =~= candidates@.subrange(0, c as int));
            proof { self.selection.lemma_dom(); }
            self.selection.insert(g, ToolId(u));
            self.push_notify_all(&mut out, ToolId(u), ToolState::Select(ToolId(u)));
            c = c + 1;
            assert(out@ =~= deselected + select_outputs(m, candidates@.subrange(0, c as int)));
            assert(self@ =~= (ToolStateModel { selection: self@.selection, selection_order: self@.selection_order, ..m }));
        }
        assert(candidates@.subrange(0, candidates@.len() as int) =~= candidates@);
        let ghost sel1 = self@.selection;
        let ghost order1 = self@.selection_order;
        let ghost selected = out@;

        // Restore the groups that the replaced main tool selected
        let ghost before_restore = self@;
        self.restore_groups(&list, &record, &mut out);
        proof { lemma_restore_fold_model(before_restore, m, list@, sel1, order1, record@); }
        let ghost after_restore = self@;

        // Update the records
        let mut y: usize = 0;
        while y < replaced.len()
            invariant
                self.wf(),
                y <= replaced@.len(),
                replaced@.len() == list@.len(),
                list@ == selection_list(m, t.0),
                forall|x: int| 0 <= x < list@.len() ==> #[trigger] replaced@[x] == replaced_by(m, list@[x]),
                self@.restore == drop_replaced(m, m.restore, list@.subrange(0, y as int)),
                self@ == (ToolStateModel { restore: self@.restore, ..after_restore }),
            decreases replaced@.len() - y,
        {
            assert(list@.subrange(0, y + 1).drop_last() =~= list@.subrange(0, y as int));
            assert(replaced@[y as int] == replaced_by(m, list@[y as int]));
            match replaced[y] {
                Some(r) => {
                    let ghost old_restore = self.restore.map();
                    self.restore.remove(r);
                    proof { lemma_restore_map_remove(old_restore, r); }
                },
                None => {},
            }
            y = y + 1;
            assert(self@ =~= (ToolStateModel { restore: self@.restore, ..after_restore }));
        }
        assert(list@.subrange(0, list@.len() as int) =~= list@);
        if !was && self.joined.contains_key(t.0) {
            let ghost old_restore = self.restore.map();
            let ghost pr = priors;
            self.restore.insert(t.0, priors);
            proof { lemma_restore_map_insert(old_restore, t.0, pr); }
        }
        assert(self@ =~= spec_select(m, t).0);
        assert(out@ =~= spec_select(m, t).1);
        out
    }

    /// Appends the messages that `notify_all` describes.
    fn push_notify_all(&self, out: &mut Vec<ToolStateOutput>, t: ToolId, msg: ToolState)
        requires
            self.wf(),
        ensures
            final(out)@ == old(out)@ + notify_all(self@, t.0, msg),
    {
        out.push(ToolStateOutput::ToSubscribers(msg.clone_exact()));
        let loc = self.location_of(t);
        push_to_sink(out, loc, msg.clone_exact());
        let own = self.owner_of_tool(t);
        push_to_sink(out, own, msg);
        assert(out@ =~= old(out)@ + notify_all(self@, t.0, msg));
    }
}

impl ToolState {
    /// A copy of the message, equal to it.
    pub fn clone_exact(&self) -> (r: ToolState)
        ensures
            r == *self,
    {
        match self {
            ToolState::AddTool(t) => ToolState::AddTool(*t),
            ToolState::DuplicateTool(a, b) => ToolState::DuplicateTool(*a, *b),
            ToolState::RemoveTool(t) => ToolState::RemoveTool(*t),
            ToolState::Select(t) => ToolState::Select(*t),
            ToolState::Deselect(t) => ToolState::Deselect(*t),
            ToolState::LocateTool(t, p) => ToolState::LocateTool(*t, *p),
            ToolState::SetName(t, n) => ToolState::SetName(*t, n.clone()),
            ToolState::SetIcon(t, i) => ToolState::SetIcon(*t, *i),
            ToolState::SetDialogLocation(t, p) => ToolState::SetDialogLocation(*t, *p),
            ToolState::OpenDialog(t) => ToolState::OpenDialog(*t),
            ToolState::CloseDialog(t) => ToolState::CloseDialog(*t),
        }
    }
}

} // verus!
