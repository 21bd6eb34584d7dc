use flo_scenery::ids::{ProgramId, ToolGroupId, ToolId, ToolTypeId};
use flo_scenery::tool_state::{IconId, Position, Tool, ToolState, ToolStateMachine, ToolStateOutput};

/// Runs requests through a fresh tool state and returns the messages sent to one program.
struct Harness {
    state: ToolStateMachine,
    program: ProgramId,
    received: Vec<ToolState>,
}

impl Harness {
    fn new(program: ProgramId) -> Harness {
        Harness { state: ToolStateMachine::new(), program, received: vec![] }
    }

    fn send_message(&mut self, req: Tool) -> &mut Harness {
        for out in self.state.handle(req) {
            if let ToolStateOutput::ToProgram(target, msg) = out {
                if target == self.program {
                    self.received.push(msg);
                }
            }
        }
        self
    }

    fn expect_message(&mut self, expected: ToolState) -> &mut Harness {
        assert!(!self.received.is_empty(), "Expected toolstate {:?}, but got nothing", expected);
        let actual = self.received.remove(0);
        assert_eq!(actual, expected, "Expected toolstate {:?}, but got {:?}", expected, actual);
        self
    }
}

fn origin() -> Position {
    Position { x_bits: 0.0f64.to_bits(), y_bits: 0.0f64.to_bits() }
}

#[test]
pub fn add_tool_owner() {
    let tool_group = ToolGroupId::new();
    let tool_type = ToolTypeId::new();
    let tool_id_1 = ToolId::new();
    let tool_id_2 = ToolId::new();
    let test_program_id = ProgramId(1);

    Harness::new(test_program_id)
        .send_message(Tool::SetToolTypeOwner(tool_type, test_program_id))
        .send_message(Tool::CreateTool(tool_group, tool_type, tool_id_1))
        .send_message(Tool::CreateTool(tool_group, tool_type, tool_id_2))
        .expect_message(ToolState::AddTool(tool_id_1))
        .expect_message(ToolState::AddTool(tool_id_2));
}

#[test]
pub fn add_tool_to_location() {
    let tool_group = ToolGroupId::new();
    let tool_type = ToolTypeId::new();
    let tool_id_1 = ToolId::new();
    let tool_id_2 = ToolId::new();
    let test_program_id = ProgramId(1);

    Harness::new(test_program_id)
        .send_message(Tool::CreateTool(tool_group, tool_type, tool_id_1))
        .send_message(Tool::CreateTool(tool_group, tool_type, tool_id_2))
        .send_message(Tool::SetToolLocation(tool_id_1, test_program_id, origin()))
        .expect_message(ToolState::AddTool(tool_id_1))
        .expect_message(ToolState::SetIcon(tool_id_1, IconId(0)))
        .expect_message(ToolState::LocateTool(tool_id_1, origin()));
}

#[test]
pub fn select_tool_location() {
    let tool_group = ToolGroupId::new();
    let tool_type = ToolTypeId::new();
    let tool_id_1 = ToolId::new();
    let tool_id_2 = ToolId::new();
    let test_program_id = ProgramId(1);

    Harness::new(test_program_id)
        .send_message(Tool::CreateTool(tool_group, tool_type, tool_id_1))
        .send_message(Tool::CreateTool(tool_group, tool_type, tool_id_2))
        .send_message(Tool::SetToolLocation(tool_id_1, test_program_id, origin()))
        .expect_message(ToolState::AddTool(tool_id_1))
        .expect_message(ToolState::SetIcon(tool_id_1, IconId(0)))
        .expect_message(ToolState::LocateTool(tool_id_1, origin()))
        .send_message(Tool::Select(tool_id_1))
        .expect_message(ToolState::Select(tool_id_1))
        .send_message(Tool::Select(tool_id_2))
        .expect_message(ToolState::Deselect(tool_id_1))
        .send_message(Tool::Select(tool_id_1))
        .expect_message(ToolState::Select(tool_id_1));
}

#[test]
pub fn select_tool_owner() {
    let tool_group = ToolGroupId::new();
    let tool_type = ToolTypeId::new();
    let tool_id_1 = ToolId::new();
    let tool_id_2 = ToolId::new();
    let test_program_id = ProgramId(1);

    Harness::new(test_program_id)
        .send_message(Tool::SetToolTypeOwner(tool_type, test_program_id))
        .send_message(Tool::CreateTool(tool_group, tool_type, tool_id_1))
        .send_message(Tool::CreateTool(tool_group, tool_type, tool_id_2))
        .expect_message(ToolState::AddTool(tool_id_1))
        .expect_message(ToolState::AddTool(tool_id_2))
        .send_message(Tool::Select(tool_id_1))
        .expect_message(ToolState::Select(tool_id_1))
        .send_message(Tool::Select(tool_id_2))
        .expect_message(ToolState::Deselect(tool_id_1))
        .expect_message(ToolState::Select(tool_id_2))
        .send_message(Tool::Select(tool_id_1))
        .expect_message(ToolState::Deselect(tool_id_2))
        .expect_message(ToolState::Select(tool_id_1));
}

#[test]
pub fn does_not_reselect_same_tool() {
    let tool_group = ToolGroupId::new();
    let tool_type = ToolTypeId::new();
    let tool_id_1 = ToolId::new();
    let tool_id_2 = ToolId::new();
    let test_program_id = ProgramId(1);

    println!("ToolID1 = {:?}", tool_id_1);
    println!("ToolID2 = {:?}", tool_id_2);

    let mut harness = Harness::new(test_program_id);
    harness
        .send_message(Tool::SetToolTypeOwner(tool_type, test_program_id))
        .send_message(Tool::CreateTool(tool_group, tool_type, tool_id_1))
        .send_message(Tool::CreateTool(tool_group, tool_type, tool_id_2))
        .expect_message(ToolState::AddTool(tool_id_1))
        .expect_message(ToolState::AddTool(tool_id_2))
        .send_message(Tool::Select(tool_id_1))
        .send_message(Tool::Select(tool_id_1))
        .expect_message(ToolState::Select(tool_id_1))
        .send_message(Tool::Select(tool_id_2))
        .expect_message(ToolState::Deselect(tool_id_1))
        .expect_message(ToolState::Select(tool_id_2));
    assert!(harness.received.is_empty());
}

#[test]
pub fn select_tools_in_groups_owner() {
    let tool_group_1 = ToolGroupId::new();
    let tool_group_2 = ToolGroupId::new();
    let tool_type = ToolTypeId::new();
    let tool_id_1_group1 = ToolId::new();
    let tool_id_2_group1 = ToolId::new();
    let tool_id_1_group2 = ToolId::new();
    let tool_id_2_group2 = ToolId::new();
    let test_program_id = ProgramId(1);

    Harness::new(test_program_id)
        .send_message(Tool::SetToolTypeOwner(tool_type, test_program_id))
        .send_message(Tool::CreateTool(tool_group_1, tool_type, tool_id_1_group1))
        .send_message(Tool::CreateTool(tool_group_1, tool_type, tool_id_2_group1))
        .send_message(Tool::CreateTool(tool_group_2, tool_type, tool_id_1_group2))
        .send_message(Tool::CreateTool(tool_group_2, tool_type, tool_id_2_group2))
        .expect_message(ToolState::AddTool(tool_id_1_group1))
        .expect_message(ToolState::AddTool(tool_id_2_group1))
        .expect_message(ToolState::AddTool(tool_id_1_group2))
        .expect_message(ToolState::AddTool(tool_id_2_group2))
        .send_message(Tool::Select(tool_id_1_group1))
        .send_message(Tool::Select(tool_id_1_group2))
        .expect_message(ToolState::Select(tool_id_1_group1))
        .expect_message(ToolState::Select(tool_id_1_group2))
        .send_message(Tool::Select(tool_id_2_group1))
        .expect_message(ToolState::Deselect(tool_id_1_group1))
        .expect_message(ToolState::Select(tool_id_2_group1))
        .send_message(Tool::Select(tool_id_2_group2))
        .expect_message(ToolState::Deselect(tool_id_1_group2))
        .expect_message(ToolState::Select(tool_id_2_group2))
        .send_message(Tool::Select(tool_id_1_group1))
        .expect_message(ToolState::Deselect(tool_id_2_group1))
        .expect_message(ToolState::Select(tool_id_1_group1));
}

#[test]
pub fn select_tools_as_group_when_joined() {
    let tool_type = ToolTypeId::new();
    let tool_group_1 = ToolGroupId::new();
    let tool_group_2 = ToolGroupId::new();
    let tool_group_3 = ToolGroupId::new();
    let independent_1 = ToolId::new();
    let independent_2 = ToolId::new();
    let independent_3 = ToolId::new();
    let joined_1 = ToolId::new();
    let joined_2 = ToolId::new();
    let joined_3 = ToolId::new();
    let test_program_id = ProgramId(1);

    Harness::new(test_program_id)
        .send_message(Tool::SetToolTypeOwner(tool_type, test_program_id))
        .send_message(Tool::CreateTool(tool_group_1, tool_type, independent_1))
        .send_message(Tool::CreateTool(tool_group_2, tool_type, independent_2))
        .send_message(Tool::CreateTool(tool_group_3, tool_type, independent_3))
        .send_message(Tool::CreateTool(tool_group_1, tool_type, joined_1))
        .send_message(Tool::CreateTool(tool_group_2, tool_type, joined_2))
        .send_message(Tool::CreateTool(tool_group_3, tool_type, joined_3))
        .expect_message(ToolState::AddTool(independent_1))
        .expect_message(ToolState::AddTool(independent_2))
        .expect_message(ToolState::AddTool(independent_3))
        .expect_message(ToolState::AddTool(joined_1))
        .expect_message(ToolState::AddTool(joined_2))
        .expect_message(ToolState::AddTool(joined_3))
        .send_message(Tool::Select(independent_1))
        .send_message(Tool::Select(independent_2))
        .send_message(Tool::Select(independent_3))
        .expect_message(ToolState::Select(independent_1))
        .expect_message(ToolState::Select(independent_2))
        .expect_message(ToolState::Select(independent_3))
        .send_message(Tool::JoinTools(joined_1, joined_2))
        .send_message(Tool::Select(joined_1))
        .expect_message(ToolState::Deselect(independent_1))
        .expect_message(ToolState::Deselect(independent_2))
        .expect_message(ToolState::Select(joined_1))
        .expect_message(ToolState::Select(joined_2));
}

#[test]
pub fn secondary_tool_selection_restores_after_joined_tool_deselected() {
}

#[test]
pub fn change_secondary_tool_selection_after_group_select() {
}

#[test]
pub fn changed_secondary_tool_not_restored_after_group_deselected() {
}

fn subscriber_messages(outputs: Vec<ToolStateOutput>) -> Vec<ToolState> {
    outputs.into_iter().filter_map(|out| match out {
        ToolStateOutput::ToSubscribers(msg) => Some(msg),
        _ => None,
    }).collect()
}

#[test]
fn closing_a_dialog_undoes_opening_it() {
    let mut state = ToolStateMachine::new();
    let (g, ty, t) = (ToolGroupId(1), ToolTypeId(2), ToolId(3));
    state.handle(Tool::CreateTool(g, ty, t));
    assert_eq!(subscriber_messages(state.handle(Tool::OpenDialog(t))), vec![ToolState::OpenDialog(t)]);
    // Opening an open dialog does nothing
    assert!(state.handle(Tool::OpenDialog(t)).is_empty());
    assert_eq!(subscriber_messages(state.handle(Tool::CloseDialog(t))), vec![ToolState::CloseDialog(t)]);
    assert!(state.handle(Tool::CloseDialog(t)).is_empty());
}

#[test]
fn closing_all_dialogs_closes_each_in_order() {
    let mut state = ToolStateMachine::new();
    let (g, ty) = (ToolGroupId(1), ToolTypeId(2));
    let (a, b) = (ToolId(3), ToolId(4));
    state.handle(Tool::CreateTool(g, ty, a));
    state.handle(Tool::CreateTool(g, ty, b));
    state.handle(Tool::OpenDialog(b));
    state.handle(Tool::OpenDialog(a));
    assert_eq!(subscriber_messages(state.handle(Tool::CloseAllDialogs)), vec![ToolState::CloseDialog(b), ToolState::CloseDialog(a)]);
    assert!(state.handle(Tool::CloseAllDialogs).is_empty());
}

#[test]
fn removed_selected_tool_gives_way_to_default() {
    let mut state = ToolStateMachine::new();
    let (g, ty) = (ToolGroupId(1), ToolTypeId(2));
    let (a, b) = (ToolId(3), ToolId(4));
    state.handle(Tool::CreateTool(g, ty, a));
    state.handle(Tool::CreateTool(g, ty, b));
    state.handle(Tool::SetDefaultForGroup(g, b));
    state.handle(Tool::Select(a));
    assert_eq!(subscriber_messages(state.handle(Tool::RemoveTool(a))), vec![ToolState::RemoveTool(a), ToolState::Select(b)]);
    // The removed tool is gone: selecting it or opening its dialog does nothing
    assert!(state.handle(Tool::Select(a)).is_empty());
    assert!(state.handle(Tool::OpenDialog(a)).is_empty());
    // The default is now the group's selection: a new subscriber hears of it
    assert_eq!(state.handle(Tool::Subscribe(ProgramId(8))), vec![
        ToolStateOutput::ToProgram(ProgramId(8), ToolState::Select(b)),
        ToolStateOutput::AddSubscriber(ProgramId(8)),
    ]);
}

#[test]
fn default_that_took_over_is_deselected_by_the_next_selection() {
    let mut state = ToolStateMachine::new();
    let (g, ty) = (ToolGroupId(1), ToolTypeId(2));
    let (t, d, x) = (ToolId(3), ToolId(4), ToolId(5));
    let dock = ProgramId(9);
    state.handle(Tool::CreateTool(g, ty, t));
    state.handle(Tool::CreateTool(g, ty, d));
    state.handle(Tool::CreateTool(g, ty, x));
    state.handle(Tool::SetToolLocation(t, dock, origin()));
    state.handle(Tool::SetDefaultForGroup(g, d));
    state.handle(Tool::Select(t));
    // The old location is told of the removal and of the default that takes over
    assert_eq!(state.handle(Tool::RemoveTool(t)), vec![
        ToolStateOutput::ToProgram(dock, ToolState::RemoveTool(t)),
        ToolStateOutput::ToSubscribers(ToolState::RemoveTool(t)),
        ToolStateOutput::ToSubscribers(ToolState::Select(d)),
        ToolStateOutput::ToProgram(dock, ToolState::Select(d)),
    ]);
    assert_eq!(subscriber_messages(state.handle(Tool::Select(x))), vec![ToolState::Deselect(d), ToolState::Select(x)]);
}

#[test]
fn joining_tools_of_one_group_has_no_effect() {
    let mut state = ToolStateMachine::new();
    let (g, ty) = (ToolGroupId(1), ToolTypeId(2));
    let (m, k, s) = (ToolId(3), ToolId(4), ToolId(5));
    state.handle(Tool::CreateTool(g, ty, m));
    state.handle(Tool::CreateTool(g, ty, k));
    state.handle(Tool::CreateTool(g, ty, s));
    state.handle(Tool::Select(s));
    state.handle(Tool::JoinTools(m, k));
    assert_eq!(subscriber_messages(state.handle(Tool::Select(m))), vec![ToolState::Deselect(s), ToolState::Select(m)]);
}

#[test]
fn deselecting_main_tool_restores_joined_group() {
    let mut state = ToolStateMachine::new();
    let (g1, g2, ty) = (ToolGroupId(1), ToolGroupId(2), ToolTypeId(3));
    let (m, x, k, s2) = (ToolId(4), ToolId(5), ToolId(6), ToolId(7));
    state.handle(Tool::CreateTool(g1, ty, m));
    state.handle(Tool::CreateTool(g1, ty, x));
    state.handle(Tool::CreateTool(g2, ty, k));
    state.handle(Tool::CreateTool(g2, ty, s2));
    state.handle(Tool::Select(s2));
    state.handle(Tool::JoinTools(m, k));
    assert_eq!(subscriber_messages(state.handle(Tool::Select(m))),
        vec![ToolState::Deselect(s2), ToolState::Select(m), ToolState::Select(k)]);
    // Deselecting the main tool puts the joined tool's group back as it was
    assert_eq!(subscriber_messages(state.handle(Tool::Select(x))),
        vec![ToolState::Deselect(m), ToolState::Select(x), ToolState::Deselect(k), ToolState::Select(s2)]);
    // The record is used up: selecting m and x again restores once more, from the new record
    assert_eq!(subscriber_messages(state.handle(Tool::Select(m))),
        vec![ToolState::Deselect(x), ToolState::Deselect(s2), ToolState::Select(m), ToolState::Select(k)]);
}

#[test]
fn changed_secondary_selection_is_not_restored() {
    let mut state = ToolStateMachine::new();
    let (g1, g2, ty) = (ToolGroupId(1), ToolGroupId(2), ToolTypeId(3));
    let (m, x, k, s2, s3) = (ToolId(4), ToolId(5), ToolId(6), ToolId(7), ToolId(8));
    state.handle(Tool::CreateTool(g1, ty, m));
    state.handle(Tool::CreateTool(g1, ty, x));
    state.handle(Tool::CreateTool(g2, ty, k));
    state.handle(Tool::CreateTool(g2, ty, s2));
    state.handle(Tool::CreateTool(g2, ty, s3));
    state.handle(Tool::Select(s2));
    state.handle(Tool::JoinTools(m, k));
    state.handle(Tool::Select(m));
    // The secondary group is changed after the group was selected
    assert_eq!(subscriber_messages(state.handle(Tool::Select(s3))), vec![ToolState::Deselect(k), ToolState::Select(s3)]);
    // Deselecting the main tool leaves it as changed
    assert_eq!(subscriber_messages(state.handle(Tool::Select(x))), vec![ToolState::Deselect(m), ToolState::Select(x)]);
}

#[test]
fn removed_main_tool_releases_joined_tools() {
    let mut state = ToolStateMachine::new();
    let (g1, g2, ty) = (ToolGroupId(1), ToolGroupId(2), ToolTypeId(3));
    let (main, joined) = (ToolId(4), ToolId(5));
    state.handle(Tool::CreateTool(g1, ty, main));
    state.handle(Tool::CreateTool(g2, ty, joined));
    state.handle(Tool::JoinTools(main, joined));
    assert_eq!(subscriber_messages(state.handle(Tool::Select(main))), vec![ToolState::Select(main), ToolState::Select(joined)]);
    // Selecting the same tool again is quiet
    assert!(state.handle(Tool::Select(main)).is_empty());
    // Removing the main tool deselects it: the joined tool's group had no selection before
    assert_eq!(subscriber_messages(state.handle(Tool::RemoveTool(main))), vec![ToolState::RemoveTool(main), ToolState::Deselect(joined)]);
    // The joined tool is on its own now: selecting it selects just it
    assert_eq!(subscriber_messages(state.handle(Tool::Select(joined))), vec![ToolState::Select(joined)]);
}

#[test]
fn disconnected_tool_is_selected_alone() {
    let mut state = ToolStateMachine::new();
    let (g1, g2, ty) = (ToolGroupId(1), ToolGroupId(2), ToolTypeId(3));
    let (main, joined, other) = (ToolId(4), ToolId(5), ToolId(6));
    state.handle(Tool::CreateTool(g1, ty, main));
    state.handle(Tool::CreateTool(g2, ty, joined));
    state.handle(Tool::CreateTool(g2, ty, other));
    state.handle(Tool::JoinTools(main, joined));
    state.handle(Tool::Select(other));
    state.handle(Tool::DisconnectTool(joined));
    // Selecting the main tool no longer selects the tool that was joined to it
    assert_eq!(subscriber_messages(state.handle(Tool::Select(main))), vec![ToolState::Select(main)]);
}

#[test]
fn location_gets_tool_icon_and_position() {
    let mut state = ToolStateMachine::new();
    let (g, ty, t) = (ToolGroupId(1), ToolTypeId(2), ToolId(3));
    let (dock, floating) = (ProgramId(10), ProgramId(11));
    state.handle(Tool::CreateTool(g, ty, t));
    state.handle(Tool::SetToolIcon(t, IconId(7)));
    let pos = origin();
    assert_eq!(state.handle(Tool::SetToolLocation(t, dock, pos)), vec![
        ToolStateOutput::ToProgram(dock, ToolState::AddTool(t)),
        ToolStateOutput::ToProgram(dock, ToolState::SetIcon(t, IconId(7))),
        ToolStateOutput::ToProgram(dock, ToolState::LocateTool(t, pos)),
    ]);
    // Moving to another location removes it from the first
    assert_eq!(state.handle(Tool::SetToolLocation(t, floating, pos)), vec![
        ToolStateOutput::ToProgram(dock, ToolState::RemoveTool(t)),
        ToolStateOutput::ToProgram(floating, ToolState::AddTool(t)),
        ToolStateOutput::ToProgram(floating, ToolState::SetIcon(t, IconId(7))),
        ToolStateOutput::ToProgram(floating, ToolState::LocateTool(t, pos)),
    ]);
}

#[test]
fn removing_selected_main_tool_restores_joined_group() {
    let mut state = ToolStateMachine::new();
    let (g1, g2, ty) = (ToolGroupId(1), ToolGroupId(2), ToolTypeId(3));
    let (m, k, s2) = (ToolId(4), ToolId(5), ToolId(6));
    state.handle(Tool::CreateTool(g1, ty, m));
    state.handle(Tool::CreateTool(g2, ty, k));
    state.handle(Tool::CreateTool(g2, ty, s2));
    state.handle(Tool::Select(s2));
    state.handle(Tool::JoinTools(m, k));
    state.handle(Tool::Select(m));
    // Removing the main tool deselects it: its joined group goes back to s2
    assert_eq!(subscriber_messages(state.handle(Tool::RemoveTool(m))),
        vec![ToolState::RemoveTool(m), ToolState::Deselect(k), ToolState::Select(s2)]);
    assert_eq!(state.handle(Tool::Subscribe(ProgramId(8))), vec![
        ToolStateOutput::ToProgram(ProgramId(8), ToolState::Select(s2)),
        ToolStateOutput::AddSubscriber(ProgramId(8)),
    ]);
}

#[test]
fn main_tool_replaced_by_a_joined_tool_restores_its_group() {
    let mut state = ToolStateMachine::new();
    let (g1, g2, g3, ty) = (ToolGroupId(1), ToolGroupId(2), ToolGroupId(3), ToolTypeId(4));
    let (a, ka, b, kb, s2) = (ToolId(5), ToolId(6), ToolId(7), ToolId(8), ToolId(9));
    state.handle(Tool::CreateTool(g1, ty, a));
    state.handle(Tool::CreateTool(g2, ty, ka));
    state.handle(Tool::CreateTool(g2, ty, s2));
    state.handle(Tool::CreateTool(g3, ty, b));
    state.handle(Tool::CreateTool(g1, ty, kb));
    state.handle(Tool::Select(s2));
    state.handle(Tool::JoinTools(a, ka));
    state.handle(Tool::JoinTools(b, kb));
    state.handle(Tool::Select(a));
    // Selecting b selects kb in a's group: a is deselected, so its joined group goes back to s2
    assert_eq!(subscriber_messages(state.handle(Tool::Select(b))), vec![
        ToolState::Deselect(a), ToolState::Select(b), ToolState::Select(kb), ToolState::Deselect(ka), ToolState::Select(s2),
    ]);
}

#[test]
fn default_from_another_group_is_announced_but_not_selected() {
    let mut state = ToolStateMachine::new();
    let (g1, g2, ty) = (ToolGroupId(1), ToolGroupId(2), ToolTypeId(3));
    let (t, d) = (ToolId(4), ToolId(5));
    state.handle(Tool::CreateTool(g1, ty, t));
    state.handle(Tool::CreateTool(g2, ty, d));
    state.handle(Tool::SetDefaultForGroup(g1, d));
    state.handle(Tool::Select(t));
    assert_eq!(subscriber_messages(state.handle(Tool::RemoveTool(t))), vec![ToolState::RemoveTool(t), ToolState::Select(d)]);
    // The group of the removed tool has no selection: a new subscriber hears of none
    assert_eq!(state.handle(Tool::Subscribe(ProgramId(8))), vec![ToolStateOutput::AddSubscriber(ProgramId(8))]);
}
