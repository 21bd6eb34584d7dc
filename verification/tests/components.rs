use flo_scenery::binding::{BindingAction, BindingEffect, BindingProgram, BindingTrigger};
use flo_scenery::dialog_state::{dialog_step, DialogAction, DialogControlRequest, DialogEvent, EguiDialogState};
use flo_scenery::keys::{convert_button, convert_key, key_event, DialogButton, DialogKey, DrawButton, DrawKey, KeyInput, Modifiers};
use flo_scenery::document::DocumentFrames;
use flo_scenery::gl_renderer::{GlRenderer, VertexBufferId};
use flo_scenery::ids::{ControlId, ProgramId, SimJointId, SimObjectId, ToolId};
use flo_scenery::sim::{pair_collides, filters_pairs, BodyHandle, ColliderHandle, JointHandle, SimObjectType, SimulationState,
    TICK_NANOS, MAX_TICKS};
use flo_scenery::sprites::{AssignedSprite, SpriteAllocator, SpriteManager};
use flo_scenery::squish::{escaped_frame, fixed_frame, squish_frame};

#[test]
fn sprites_are_fresh_until_returned() {
    let mut sprites = SpriteAllocator::new();
    assert_eq!(sprites.request_sprite(), 0);
    assert_eq!(sprites.request_sprite(), 1);
    assert_eq!(sprites.request_sprite(), 2);
    sprites.return_sprite(1);
    // A returned sprite is reused before a fresh one
    assert_eq!(sprites.request_sprite(), 1);
    assert_eq!(sprites.request_sprite(), 3);
}

#[test]
fn sprite_returned_twice_is_kept_once() {
    let mut sprites = SpriteAllocator::new();
    let a = sprites.request_sprite();
    let b = sprites.request_sprite();
    sprites.return_sprite(a);
    sprites.return_sprite(a);
    sprites.return_sprite(b);
    // Last returned first, and `a` only once
    assert_eq!(sprites.request_sprite(), b);
    assert_eq!(sprites.request_sprite(), a);
    assert_eq!(sprites.request_sprite(), 2);
}

#[test]
fn sprite_manager_answers_requests_only() {
    let mut sprites = SpriteAllocator::new();
    let p = ProgramId(9);
    assert_eq!(sprites.handle(SpriteManager::RequestSprite(p)), Some((p, AssignedSprite(0))));
    assert_eq!(sprites.handle(SpriteManager::ReturnSprite(0)), None);
    assert_eq!(sprites.handle(SpriteManager::RequestSprite(p)), Some((p, AssignedSprite(0))));
}

#[test]
fn binding_waits_for_idle_by_default() {
    let action = BindingAction::new();
    assert_eq!(action.trigger, BindingTrigger::WaitForIdle);
    assert_eq!(action.start_effects(), vec![BindingEffect::TrackAndRun]);
    assert_eq!(action.effects(BindingProgram::BindingChanged), vec![BindingEffect::ReleaseTracker, BindingEffect::RequestIdle]);
    assert_eq!(action.effects(BindingProgram::Idle), vec![BindingEffect::TrackAndRun]);
}

#[test]
fn immediate_binding_runs_on_change() {
    let action = BindingAction::new().with_trigger(BindingTrigger::Immediate);
    assert_eq!(action.effects(BindingProgram::BindingChanged), vec![BindingEffect::ReleaseTracker, BindingEffect::TrackAndRun]);
}

#[test]
fn binding_stops_with_its_parent() {
    let parent = ProgramId(4);
    let action = BindingAction::new().with_parent_program(parent);
    assert_eq!(action.start_effects(), vec![BindingEffect::SubscribeToUpdates, BindingEffect::TrackAndRun]);
    assert_eq!(action.effects(BindingProgram::Stopped(ProgramId(5))), vec![]);
    assert_eq!(action.effects(BindingProgram::OtherUpdate), vec![]);
    assert_eq!(action.effects(BindingProgram::Stopped(parent)), vec![BindingEffect::Stop]);
    // Without a parent nothing stops it
    assert_eq!(BindingAction::new().effects(BindingProgram::Stopped(parent)), vec![]);
}

#[test]
fn fixed_point_frame_is_little_endian() {
    assert_eq!(fixed_frame(128), vec![0x80, 0x00]);
    assert_eq!(fixed_frame(-256), vec![0x00, 0xff]);
    assert_eq!(fixed_frame(0), vec![0x00, 0x00]);
}

#[test]
fn escaped_frame_has_marker_and_bits() {
    let bits = 700_000.25f32.to_bits();
    let frame = escaped_frame(bits);
    assert_eq!(frame.len(), 6);
    assert_eq!(&frame[0..2], &[0x00, 0x80]);
    assert_eq!(u32::from_le_bytes([frame[2], frame[3], frame[4], frame[5]]), bits);
}

/// Squishes a float as the encoder does: the difference from the last value, escaped when it
/// is too far or not a number.
fn squish(target: &mut Vec<u8>, last: f64, next: f64) -> usize {
    let last = if last.is_infinite() || last.is_nan() { 0.0 } else { last };
    let diff = (next - last) as f32;
    let escape = last.is_nan() || next.is_nan() || diff.abs() > 126.0;
    let fixed_point = (diff * 256.0) as i16;
    let (bytes, written) = squish_frame(escape, fixed_point, diff.to_bits());
    target.extend(bytes);
    written
}

#[test]
fn can_encode_sequence() {
    let mut target = vec![];
    squish(&mut target, 0.0, 0.5);
    squish(&mut target, 0.5, 2.4);
    assert!(target.len() == 4);
}

#[test]
fn zero_is_small() {
    let mut target = vec![];
    squish(&mut target, 0.0, 0.0);
    assert!(target.len() == 2);
}

#[test]
fn one_is_small() {
    let mut target = vec![];
    squish(&mut target, 0.0, 1.0);
    assert!(target.len() == 2);
}

#[test]
fn minus_one_is_small() {
    let mut target = vec![];
    squish(&mut target, 0.0, -1.0);
    assert!(target.len() == 2);
}

#[test]
fn big_difference_is_escaped() {
    let mut target = vec![];
    assert_eq!(squish(&mut target, 0.0, 700_000.25), 4);
    assert_eq!(target.len(), 6);
    assert_eq!(squish(&mut target, 0.0, f64::NAN), 4);
    assert_eq!(target.len(), 12);
}

#[test]
fn document_sends_one_batch_per_frame() {
    let mut frames: DocumentFrames<u32> = DocumentFrames::new();
    frames.draw_item(1, false);
    frames.draw_item(2, false);
    assert!(frames.drawing_done());
    // Already waiting for idle
    frames.draw_item(3, false);
    assert!(!frames.drawing_done());
    assert_eq!(frames.idle(), Some(vec![1, 2, 3]));
    // Nothing more until the window draws the frame
    frames.draw_item(4, false);
    assert!(frames.drawing_done());
    assert_eq!(frames.idle(), None);
    assert!(frames.new_frame());
    assert_eq!(frames.idle(), Some(vec![4]));
}

#[test]
fn clearing_the_canvas_drops_what_waits() {
    let mut frames: DocumentFrames<u32> = DocumentFrames::new();
    frames.draw_item(1, false);
    frames.draw_item(2, true);
    frames.draw_item(3, false);
    frames.drawing_done();
    assert_eq!(frames.idle(), Some(vec![2, 3]));
}

#[test]
fn resize_flushes_at_once() {
    let mut frames: DocumentFrames<u32> = DocumentFrames::new();
    frames.resize(1000, 1000);
    assert_eq!(frames.end_of_batch(), None);
    frames.draw_item(1, false);
    frames.resize(800, 600);
    assert_eq!(frames.end_of_batch(), Some(vec![1]));
    // While the frame is drawn, another resize waits
    frames.draw_item(2, false);
    frames.resize(640, 480);
    assert_eq!(frames.end_of_batch(), None);
    assert!(frames.new_frame());
    assert_eq!(frames.idle(), Some(vec![2]));
}

#[test]
fn dialog_controls_keep_order_and_visibility() {
    let mut dialog: EguiDialogState<&'static str, i32, (u32, u32)> = EguiDialogState::new();
    let a = ControlId(1);
    let b = ControlId(2);
    dialog.update_state(DialogControlRequest::AddControl(a, (0, 0), "label", 0));
    dialog.update_state(DialogControlRequest::AddControl(b, (10, 10), "button", 5));
    assert_eq!(dialog.visible_controls(), vec![0, 1]);
    dialog.update_state(DialogControlRequest::SetVisible(a, false));
    assert_eq!(dialog.visible_controls(), vec![1]);
    dialog.update_state(DialogControlRequest::SetControlValue(b, 7));
    dialog.update_state(DialogControlRequest::MoveControl(b, (20, 30)));
    let state = dialog.state(b).unwrap();
    assert_eq!(state.value, 7);
    assert_eq!(state.location, (20, 30));
    assert!(state.visible);
    // The other control keeps its state
    let other = dialog.state(a).unwrap();
    assert_eq!(other.value, 0);
    assert_eq!(other.location, (0, 0));
    assert!(!other.visible);
    // Unknown controls are ignored
    dialog.update_state(DialogControlRequest::SetVisible(ControlId(99), false));
    dialog.update_state(DialogControlRequest::Other);
    assert_eq!(dialog.controls().len(), 2);
}

#[test]
fn gl_renderer_frees_what_it_created() {
    let mut renderer = GlRenderer::new(3);
    assert_eq!(renderer.vertex_2d_array(), 3);
    assert_eq!(renderer.create_vertex_buffer_2d(VertexBufferId(2), 17), None);
    assert_eq!(renderer.vertex_buffer(VertexBufferId(2)), Some(17));
    assert_eq!(renderer.vertex_buffer(VertexBufferId(0)), None);
    assert_eq!(renderer.create_vertex_buffer_2d(VertexBufferId(2), 18), Some(17));
    assert_eq!(renderer.free_vertex_buffer(VertexBufferId(2)), Some(18));
    assert_eq!(renderer.vertex_buffer(VertexBufferId(2)), None);
    assert_eq!(renderer.buffer_count(), 3);
    renderer.flush();
    assert_eq!(renderer.vertex_2d_array(), 3);
}

#[test]
fn sim_objects_are_found_by_handle() {
    let mut sim = SimulationState::new(false);
    let a = SimObjectId(1);
    sim.create_rigid_body(a, BodyHandle(10));
    let found = sim.objects().get_by_handle(BodyHandle(10)).unwrap();
    assert_eq!(found.object_id, a);
    assert!(found.is_new);
    assert_eq!(found.body_type, SimObjectType::Kinematic);
    assert!(sim.objects().get_by_handle(BodyHandle(11)).is_none());
}

#[test]
fn removing_a_body_removes_its_joints() {
    let mut sim = SimulationState::new(true);
    let (a, b, c) = (SimObjectId(1), SimObjectId(2), SimObjectId(3));
    sim.create_rigid_body(a, BodyHandle(10));
    sim.create_rigid_body(b, BodyHandle(20));
    sim.create_rigid_body(c, BodyHandle(30));
    assert_eq!(sim.joint_bodies(a, b), Some((BodyHandle(10), BodyHandle(20))));
    assert_eq!(sim.joint_bodies(a, SimObjectId(9)), None);
    sim.record_joint(SimJointId(100), a, b, JointHandle(1));
    sim.record_joint(SimJointId(101), b, c, JointHandle(2));
    let removed = sim.remove_rigid_body(b).unwrap();
    assert_eq!(removed.body, BodyHandle(20));
    assert_eq!(removed.joints, vec![JointHandle(1), JointHandle(2)]);
    assert_eq!(sim.joint_handle(SimJointId(100)), None);
    assert_eq!(sim.joint_handle(SimJointId(101)), None);
    assert!(sim.objects().get(a).unwrap().joints.is_empty());
    assert!(sim.objects().get(c).unwrap().joints.is_empty());
    assert!(sim.objects().get(b).is_none());
    assert!(sim.remove_rigid_body(b).is_none());
}

#[test]
fn removing_a_joint_unlinks_both_ends() {
    let mut sim = SimulationState::new(true);
    let (a, b) = (SimObjectId(1), SimObjectId(2));
    sim.create_rigid_body(a, BodyHandle(10));
    sim.create_rigid_body(b, BodyHandle(20));
    sim.record_joint(SimJointId(100), a, b, JointHandle(7));
    assert_eq!(sim.objects().get(a).unwrap().joints, vec![100]);
    assert_eq!(sim.remove_joint(SimJointId(100)), Some(JointHandle(7)));
    assert!(sim.objects().get(a).unwrap().joints.is_empty());
    assert!(sim.objects().get(b).unwrap().joints.is_empty());
    assert_eq!(sim.remove_joint(SimJointId(100)), None);
}

#[test]
fn timer_wakes_once_and_sleeps_when_all_bodies_rest() {
    let mut sim = SimulationState::new(true);
    assert!(sim.wake_timer());
    assert!(!sim.wake_timer());
    let end = sim.end_tick(true, 1);
    assert!(end.send_step && !end.send_sleep && !end.cancel_timer);
    let end = sim.end_tick(false, 0);
    assert!(!end.send_step && end.send_sleep && end.cancel_timer);
    let end = sim.end_tick(false, 2);
    assert!(end.send_step && end.send_sleep && !end.cancel_timer);
    // A simulation that does not manage its timer never asks for ticks
    let mut manual = SimulationState::new(false);
    assert!(!manual.wake_timer());
}

#[test]
fn tick_runs_whole_steps() {
    let mut sim = SimulationState::new(false);
    sim.create_rigid_body(SimObjectId(1), BodyHandle(1));
    sim.object_changed(SimObjectId(1));
    sim.object_changed(SimObjectId(2));
    // Waking up: the clock starts one tick behind, so one step runs
    let time = 10 * TICK_NANOS + 5;
    let changed = sim.begin_tick(time);
    assert_eq!(changed, vec![SimObjectId(1)]);
    assert!(sim.position_plan(SimObjectId(1)).unwrap().set_position_now);
    sim.finish_new_objects();
    assert!(!sim.position_plan(SimObjectId(1)).unwrap().set_position_now);
    assert!(sim.position_plan(SimObjectId(1)).unwrap().set_kinematic_target);
    assert_eq!(sim.run_steps(time), 1);
    // Two and a half ticks later: two steps
    let later = time + 2 * TICK_NANOS + TICK_NANOS / 2;
    assert!(sim.begin_tick(later).is_empty());
    assert_eq!(sim.run_steps(later), 2);
    // Far later: capped, and the clock catches up
    let much_later = later + 1000 * TICK_NANOS;
    sim.begin_tick(much_later);
    assert_eq!(sim.run_steps(much_later), MAX_TICKS);
    assert_eq!(sim.run_steps(much_later), 0);
}

#[test]
fn no_catch_up_steps_after_sleeping() {
    let mut sim = SimulationState::new(false);
    let t0 = 60 * TICK_NANOS;
    sim.begin_tick(t0);
    let steps = sim.run_steps(t0);
    assert_eq!(steps, 1);
    let end = sim.end_tick(false, steps);
    assert!(end.send_step && end.send_sleep && !end.cancel_timer);
    // Ten seconds later the simulation wakes one tick behind: a single step
    let t1 = t0 + 10_000_000_000;
    sim.begin_tick(t1);
    assert_eq!(sim.run_steps(t1), 1);
}

#[test]
fn no_step_event_for_a_tick_without_steps() {
    let mut sim = SimulationState::new(false);
    sim.begin_tick(0);
    let steps = sim.run_steps(0);
    assert_eq!(steps, 0);
    let end = sim.end_tick(false, steps);
    assert!(!end.send_step && end.send_sleep);
}

#[test]
fn collisions_follow_exclusions() {
    let a = SimObjectId(1);
    let b = SimObjectId(2);
    assert!(pair_collides(a, &None, b, &None));
    assert!(!pair_collides(a, &Some(vec![b]), b, &None));
    assert!(!pair_collides(a, &None, b, &Some(vec![a])));
    assert!(pair_collides(a, &Some(vec![SimObjectId(3)]), b, &Some(vec![])));
    assert!(!filters_pairs(SimObjectType::Static));
    assert!(filters_pairs(SimObjectType::Dynamic));
    assert!(filters_pairs(SimObjectType::Kinematic));
}

#[test]
fn body_type_and_collider_changes() {
    let mut sim = SimulationState::new(false);
    let a = SimObjectId(1);
    sim.create_rigid_body(a, BodyHandle(10));
    assert_eq!(sim.set_body_type(a, SimObjectType::Dynamic), Some((BodyHandle(10), None)));
    assert_eq!(sim.set_collider(a, Some(ColliderHandle(5))), Some(None));
    assert_eq!(sim.set_collider(a, None), Some(Some(ColliderHandle(5))));
    assert_eq!(sim.set_body_type(SimObjectId(2), SimObjectType::Static), None);
    let plan = sim.position_plan(a).unwrap();
    assert!(plan.anchor.is_none());
    sim.record_anchor(a, BodyHandle(11), JointHandle(3));
    assert_eq!(sim.position_plan(a).unwrap().anchor, Some(BodyHandle(11)));
}

#[test]
fn new_ids_are_random_version_4_uuids() {
    let mask: u128 = 0x0000_0000_0000_F000_C000_0000_0000_0000;
    let bits: u128 = 0x0000_0000_0000_4000_8000_0000_0000_0000;
    let a = ControlId::new();
    let b = ControlId::new();
    assert_eq!(a.0 & mask, bits);
    assert_eq!(b.0 & mask, bits);
    assert_ne!(a, b);
    assert_eq!(SimObjectId::new().0 & mask, bits);
    assert_eq!(ToolId::new().0 & mask, bits);
}

#[test]
fn window_keys_map_to_dialog_keys() {
    assert_eq!(convert_key(DrawKey::KeyA), Some(DialogKey::A));
    assert_eq!(convert_key(DrawKey::Key0), Some(DialogKey::Num0));
    assert_eq!(convert_key(DrawKey::KeyNumpad7), Some(DialogKey::Num7));
    assert_eq!(convert_key(DrawKey::KeyForwardslash), Some(DialogKey::Slash));
    assert_eq!(convert_key(DrawKey::KeyNumpadAdd), Some(DialogKey::Plus));
    assert_eq!(convert_key(DrawKey::KeyPgDown), Some(DialogKey::PageDown));
    assert_eq!(convert_key(DrawKey::KeyNumpadMultiply), None);
    assert_eq!(convert_key(DrawKey::ModifierShift), None);
    assert_eq!(convert_key(DrawKey::Unknown), None);
    assert_eq!(convert_button(DrawButton::Left), DialogButton::Primary);
    assert_eq!(convert_button(DrawButton::Right), DialogButton::Secondary);
    assert_eq!(convert_button(DrawButton::Other(0)), DialogButton::Extra1);
    assert_eq!(convert_button(DrawButton::Other(5)), DialogButton::Extra2);
}

#[test]
fn modifiers_follow_key_presses() {
    let none = Modifiers { shift: false, alt: false, ctrl: false, mac_cmd: false, command: false };
    let (mods, input) = key_event(none, true, Some(DrawKey::ModifierCtrl), false);
    assert_eq!(input, None);
    assert!(mods.ctrl && mods.command && !mods.mac_cmd);
    let (mac, _) = key_event(none, true, Some(DrawKey::ModifierCtrl), true);
    assert!(mac.ctrl && !mac.command);
    let (same, input) = key_event(mods, true, Some(DrawKey::KeyC), false);
    assert_eq!(same, mods);
    assert_eq!(input, Some(KeyInput { key: DialogKey::C, pressed: true, modifiers: mods }));
    let (released, _) = key_event(mods, false, Some(DrawKey::ModifierCtrl), false);
    assert_eq!(released, none);
    assert_eq!(key_event(none, true, None, false), (none, None));
}

#[test]
fn dialog_asks_for_one_idle_at_a_time() {
    // Waiting for the first idle: input asks for nothing more
    assert_eq!(dialog_step(true, DialogEvent::FocusEvent), (true, DialogAction { run_ui: false, request_idle: false }));
    // On idle the interface runs
    assert_eq!(dialog_step(true, DialogEvent::Idle), (false, DialogAction { run_ui: true, request_idle: false }));
    // After that, the next change asks for one idle, and the one after does not
    assert_eq!(dialog_step(false, DialogEvent::Dialog), (true, DialogAction { run_ui: false, request_idle: true }));
    assert_eq!(dialog_step(true, DialogEvent::BindingsChanged), (true, DialogAction { run_ui: false, request_idle: false }));
}
