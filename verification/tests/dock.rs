use flo_scenery::dock::{missing_controls, order_key, physics_update, DockCommand, DockFocusEvent, DockKind, DockPointerEvent,
    FreshIds, PhysicsUpdate, ToolDock, ToolPlinthState};
use flo_scenery::ids::{ControlId, ProgramId, SimObjectId, ToolId};
use flo_scenery::tool_state::{IconId, Position, ToolState};

fn fresh(n: u128) -> FreshIds {
    FreshIds { control: ControlId(n), sim: SimObjectId(n + 1000) }
}

fn at_y(y: f64) -> Position {
    Position { x_bits: 0.0f64.to_bits(), y_bits: y.to_bits() }
}

fn fixed_dock_with_tool(t: ToolId, control: u128) -> ToolDock {
    let mut dock = ToolDock::new(DockKind::Fixed, Some(ProgramId(50)));
    assert!(dock.apply(ToolState::AddTool(t), fresh(control)).is_empty());
    dock
}

fn down(control: u128) -> DockPointerEvent {
    DockPointerEvent::ButtonDown { control: Some(ControlId(control)), pointer: 0, has_location: true, left_button: true }
}

fn up(inside_tool: bool, over_dock: bool) -> DockPointerEvent {
    DockPointerEvent::ButtonUp { pointer: 0, has_location: true, inside_tool, over_dock, left_still_down: false }
}

fn moved(near: bool, within_pull: bool) -> DockPointerEvent {
    DockPointerEvent::Moved { pointer: 0, has_location: true, near, within_pull }
}

#[test]
fn new_tool_gets_fresh_control_and_no_sprite() {
    let t = ToolId(1);
    let dock = fixed_dock_with_tool(t, 7);
    let tool = dock.tool(t).unwrap();
    assert_eq!(tool.control_id, ControlId(7));
    assert_eq!(tool.sprite, None);
    assert_eq!(tool.icon, IconId(0));
    assert_eq!(dock.plinth_state(t), Some(ToolPlinthState::Unselected));
}

#[test]
fn icon_needs_a_sprite_once() {
    let t = ToolId(1);
    let mut dock = fixed_dock_with_tool(t, 7);
    assert_eq!(dock.apply(ToolState::SetIcon(t, IconId(3)), fresh(0)), vec![DockCommand::NeedSprite(t)]);
    assert_eq!(dock.sprite_assigned(t, 12), vec![DockCommand::DrawSprite(t, 12, IconId(3))]);
    assert_eq!(dock.tool(t).unwrap().sprite_update, 1);
    // With a sprite, a new icon is drawn into the same sprite
    assert_eq!(dock.apply(ToolState::SetIcon(t, IconId(4)), fresh(0)), vec![DockCommand::DrawSprite(t, 12, IconId(4))]);
    assert_eq!(dock.tool(t).unwrap().sprite_update, 2);
    // Removing the tool gives the sprite back and drops its focus claim
    assert_eq!(dock.apply(ToolState::RemoveTool(t), fresh(0)), vec![DockCommand::ReturnSprite(12), DockCommand::RemoveControlClaim(ControlId(7))]);
    assert!(dock.tool(t).is_none());
}

#[test]
fn floating_dock_keeps_name_and_anchor() {
    let t = ToolId(1);
    let copy = ToolId(2);
    let mut dock = ToolDock::new(DockKind::Floating, None);
    dock.apply(ToolState::AddTool(t), fresh(7));
    assert_eq!(dock.tool(t).unwrap().position, Position { x_bits: 200.0f64.to_bits(), y_bits: 200.0f64.to_bits() });
    assert_eq!(dock.tool(t).unwrap().sim_id, SimObjectId(1007));
    dock.apply(ToolState::SetName(t, "Pencil".to_string()), fresh(0));
    dock.apply(ToolState::LocateTool(t, at_y(40.0)), fresh(0));
    assert_eq!(dock.tool(t).unwrap().anchor, at_y(40.0));
    dock.apply(ToolState::DuplicateTool(t, copy), fresh(8));
    let c = dock.tool(copy).unwrap();
    assert_eq!(c.name, "Pencil".to_string());
    assert_eq!(c.anchor, at_y(40.0));
    assert_eq!(c.control_id, ControlId(8));
    // The floating dock makes no focus claim to drop, and has no sprite to return
    assert!(dock.apply(ToolState::RemoveTool(t), fresh(0)).is_empty());
}

#[test]
fn fixed_dock_ignores_names() {
    let t = ToolId(1);
    let mut dock = fixed_dock_with_tool(t, 7);
    dock.apply(ToolState::SetName(t, "Ink".to_string()), fresh(0));
    assert_eq!(dock.tool(t).unwrap().name, "".to_string());
}

#[test]
fn plinth_shows_selection_before_press_and_highlight() {
    let t = ToolId(1);
    let mut dock = fixed_dock_with_tool(t, 7);
    dock.focus_event(DockFocusEvent::Focused(ControlId(7)));
    assert_eq!(dock.plinth_state(t), Some(ToolPlinthState::Highlighted));
    dock.focus_event(DockFocusEvent::Unfocused(ControlId(7)));
    dock.focus_event(DockFocusEvent::Enter(ControlId(8)));
    assert_eq!(dock.plinth_state(t), Some(ToolPlinthState::Unselected));
    dock.focus_event(DockFocusEvent::Enter(ControlId(7)));
    assert_eq!(dock.plinth_state(t), Some(ToolPlinthState::Highlighted));
    dock.pointer_event(down(7));
    assert_eq!(dock.plinth_state(t), Some(ToolPlinthState::Pressed));
    dock.apply(ToolState::Select(t), fresh(0));
    assert_eq!(dock.plinth_state(t), Some(ToolPlinthState::Selected));
}

#[test]
fn click_selects_then_toggles_dialog() {
    let t = ToolId(1);
    let mut dock = fixed_dock_with_tool(t, 7);
    assert!(dock.pointer_event(down(7)).is_empty());
    assert_eq!(dock.pointer_event(up(true, true)), vec![DockCommand::Select(t), DockCommand::EndTracking(t)]);
    dock.apply(ToolState::Select(t), fresh(0));
    dock.pointer_event(down(7));
    assert_eq!(dock.pointer_event(up(true, true)), vec![DockCommand::OpenDialog(t), DockCommand::EndTracking(t)]);
    dock.apply(ToolState::OpenDialog(t), fresh(0));
    dock.pointer_event(down(7));
    assert_eq!(dock.pointer_event(up(true, true)), vec![DockCommand::CloseDialog(t), DockCommand::EndTracking(t)]);
    // Releasing away from the tool does nothing but end the press
    dock.pointer_event(down(7));
    assert_eq!(dock.pointer_event(up(false, true)), vec![DockCommand::EndTracking(t)]);
    assert!(dock.tracking().is_none());
}

#[test]
fn drag_off_the_dock_drops_on_floating_dock() {
    let t = ToolId(1);
    let mut dock = fixed_dock_with_tool(t, 7);
    dock.pointer_event(down(7));
    // A small move does not pull the tool
    assert!(dock.pointer_event(moved(true, true)).is_empty());
    assert_eq!(dock.pointer_event(moved(false, true)), vec![DockCommand::Pull(t)]);
    // Once pulling, even a near move pulls
    assert_eq!(dock.pointer_event(moved(true, true)), vec![DockCommand::Pull(t)]);
    assert_eq!(dock.pointer_event(moved(false, false)), vec![DockCommand::StartDrag(t)]);
    assert_eq!(dock.plinth_state(t), Some(ToolPlinthState::Unselected));
    assert_eq!(dock.pointer_event(moved(false, false)), vec![DockCommand::Drag(t)]);
    // Another pointer is ignored
    assert!(dock.pointer_event(DockPointerEvent::Cancel { pointer: 3 }).is_empty());
    assert_eq!(dock.pointer_event(up(false, false)), vec![DockCommand::DropOnFloating(t)]);
    assert!(dock.tracking().is_none());
}

#[test]
fn drag_back_onto_dock_or_escape_cancels() {
    let t = ToolId(1);
    let mut dock = fixed_dock_with_tool(t, 7);
    dock.pointer_event(down(7));
    dock.pointer_event(moved(false, false));
    assert_eq!(dock.pointer_event(up(false, true)), vec![DockCommand::CancelDrop(t)]);
    dock.pointer_event(down(7));
    dock.pointer_event(moved(false, false));
    assert_eq!(dock.pointer_event(DockPointerEvent::Escape), vec![DockCommand::CancelDrop(t)]);
    // Without a floating dock, a drop is always cancelled
    let mut lonely = ToolDock::new(DockKind::Fixed, None);
    lonely.apply(ToolState::AddTool(t), fresh(7));
    lonely.pointer_event(down(7));
    lonely.pointer_event(moved(false, false));
    assert_eq!(lonely.pointer_event(up(false, false)), vec![DockCommand::CancelDrop(t)]);
}

#[test]
fn floating_tool_click_and_drag() {
    let t = ToolId(1);
    let mut dock = ToolDock::new(DockKind::Floating, None);
    dock.apply(ToolState::AddTool(t), fresh(7));
    // Only the left button presses a floating tool
    let right = DockPointerEvent::ButtonDown { control: Some(ControlId(7)), pointer: 0, has_location: true, left_button: false };
    dock.pointer_event(right);
    assert!(dock.tracking().is_none());
    dock.pointer_event(down(7));
    assert_eq!(dock.plinth_state(t), Some(ToolPlinthState::FloatingPressed));
    assert_eq!(dock.pointer_event(moved(true, true)), vec![DockCommand::Pull(t)]);
    assert_eq!(dock.pointer_event(up(true, false)), vec![DockCommand::Select(t), DockCommand::EndTracking(t)]);
    dock.pointer_event(down(7));
    assert_eq!(dock.pointer_event(moved(false, false)), vec![DockCommand::Pull(t), DockCommand::StartDrag(t)]);
    assert!(dock.tool(t).unwrap().dragged);
    assert_eq!(dock.pointer_event(up(false, false)), vec![DockCommand::MoveTool(t), DockCommand::EndTracking(t)]);
    assert!(!dock.tool(t).unwrap().dragged);
}

#[test]
fn tools_are_ordered_by_vertical_position() {
    let mut dock = ToolDock::new(DockKind::Fixed, None);
    let (a, b, c) = (ToolId(1), ToolId(2), ToolId(3));
    dock.apply(ToolState::AddTool(a), fresh(1));
    dock.apply(ToolState::AddTool(b), fresh(2));
    dock.apply(ToolState::AddTool(c), fresh(3));
    dock.apply(ToolState::LocateTool(a, at_y(0.1)), fresh(0));
    dock.apply(ToolState::LocateTool(b, at_y(-3.0)), fresh(0));
    dock.apply(ToolState::LocateTool(c, at_y(0.1)), fresh(0));
    assert_eq!(dock.ordered_tools(), vec![2, 1, 3]);
    assert!(order_key((-3.0f64).to_bits()) < order_key(0.0f64.to_bits()));
    assert!(order_key((-0.0f64).to_bits()) < order_key(0.0f64.to_bits()));
    assert!(order_key(1.0f64.to_bits()) < order_key(f64::INFINITY.to_bits()));
}

#[test]
fn floating_physics_follows_drags() {
    assert_eq!(physics_update(None, false), PhysicsUpdate::Create);
    assert_eq!(physics_update(Some(false), true), PhysicsUpdate::ToKinematic);
    assert_eq!(physics_update(Some(true), false), PhysicsUpdate::ToDynamic);
    assert_eq!(physics_update(Some(true), true), PhysicsUpdate::Unchanged);
    let missing = missing_controls(&vec![ControlId(1), ControlId(2), ControlId(3)], &vec![ControlId(2)]);
    assert_eq!(missing, vec![ControlId(1), ControlId(3)]);
}
