use flo_scenery::focus::{FocusState, FocusRequest, FocusSignal, FocusOutput, PointerHits};
use flo_scenery::ids::{ProgramId, ControlId};

fn out(target: ProgramId, signal: FocusSignal) -> FocusOutput {
    FocusOutput { target, signal }
}

fn order_four_controls(state: &mut FocusState, p: ProgramId) -> Vec<ControlId> {
    let c1 = ControlId::new();
    let c2 = ControlId::new();
    let c3 = ControlId::new();
    let c4 = ControlId::new();
    assert!(state.handle(FocusRequest::SetFollowingControl(p, c1, c2)).is_empty());
    assert!(state.handle(FocusRequest::SetFollowingControl(p, c2, c3)).is_empty());
    assert!(state.handle(FocusRequest::SetFollowingControl(p, c3, c4)).is_empty());
    vec![c1, c2, c3, c4]
}

#[test]
fn focus_following_control() {
    let p = ProgramId(100);
    let mut state = FocusState::new();
    let c = order_four_controls(&mut state, p);

    assert_eq!(state.handle(FocusRequest::SetKeyboardFocus(p, c[0])), vec![out(p, FocusSignal::Focused(c[0]))]);
    assert_eq!(state.handle(FocusRequest::FocusNext), vec![out(p, FocusSignal::Unfocused(c[0])), out(p, FocusSignal::Focused(c[1]))]);
    assert_eq!(state.handle(FocusRequest::FocusNext), vec![out(p, FocusSignal::Unfocused(c[1])), out(p, FocusSignal::Focused(c[2]))]);
    assert_eq!(state.handle(FocusRequest::FocusNext), vec![out(p, FocusSignal::Unfocused(c[2])), out(p, FocusSignal::Focused(c[3]))]);
}

#[test]
fn focus_previous_control() {
    let p = ProgramId(100);
    let mut state = FocusState::new();
    let c = order_four_controls(&mut state, p);

    assert_eq!(state.handle(FocusRequest::SetKeyboardFocus(p, c[3])), vec![out(p, FocusSignal::Focused(c[3]))]);
    assert_eq!(state.handle(FocusRequest::FocusPrevious), vec![out(p, FocusSignal::Unfocused(c[3])), out(p, FocusSignal::Focused(c[2]))]);
    assert_eq!(state.handle(FocusRequest::FocusPrevious), vec![out(p, FocusSignal::Unfocused(c[2])), out(p, FocusSignal::Focused(c[1]))]);
    assert_eq!(state.handle(FocusRequest::FocusPrevious), vec![out(p, FocusSignal::Unfocused(c[1])), out(p, FocusSignal::Focused(c[0]))]);
}

#[test]
fn focus_previous_control_makes_loop() {
    let p = ProgramId(100);
    let mut state = FocusState::new();
    let c = order_four_controls(&mut state, p);

    assert_eq!(state.handle(FocusRequest::SetKeyboardFocus(p, c[3])), vec![out(p, FocusSignal::Focused(c[3]))]);
    assert_eq!(state.handle(FocusRequest::FocusPrevious), vec![out(p, FocusSignal::Unfocused(c[3])), out(p, FocusSignal::Focused(c[2]))]);
    assert_eq!(state.handle(FocusRequest::FocusPrevious), vec![out(p, FocusSignal::Unfocused(c[2])), out(p, FocusSignal::Focused(c[1]))]);
    assert_eq!(state.handle(FocusRequest::FocusPrevious), vec![out(p, FocusSignal::Unfocused(c[1])), out(p, FocusSignal::Focused(c[0]))]);
    assert_eq!(state.handle(FocusRequest::FocusPrevious), vec![out(p, FocusSignal::Unfocused(c[0])), out(p, FocusSignal::Focused(c[3]))]);
}

#[test]
fn focus_following_control_makes_loop() {
    let p = ProgramId(100);
    let mut state = FocusState::new();
    let c = order_four_controls(&mut state, p);

    assert_eq!(state.handle(FocusRequest::SetKeyboardFocus(p, c[0])), vec![out(p, FocusSignal::Focused(c[0]))]);
    assert_eq!(state.handle(FocusRequest::FocusNext), vec![out(p, FocusSignal::Unfocused(c[0])), out(p, FocusSignal::Focused(c[1]))]);
    assert_eq!(state.handle(FocusRequest::FocusNext), vec![out(p, FocusSignal::Unfocused(c[1])), out(p, FocusSignal::Focused(c[2]))]);
    assert_eq!(state.handle(FocusRequest::FocusNext), vec![out(p, FocusSignal::Unfocused(c[2])), out(p, FocusSignal::Focused(c[3]))]);
    assert_eq!(state.handle(FocusRequest::FocusNext), vec![out(p, FocusSignal::Unfocused(c[3])), out(p, FocusSignal::Focused(c[0]))]);
}

/// A circle claimed by a program or by one of its controls.
struct Claim {
    program: ProgramId,
    control: Option<ControlId>,
    center: (f64, f64),
    radius: f64,
}

/// The hits of a point, as the host measures them.
fn hits_at(claims: &[Claim], x: f64, y: f64) -> Option<PointerHits> {
    let mut programs = vec![];
    let mut controls = vec![];
    for claim in claims {
        let (dx, dy) = (x - claim.center.0, y - claim.center.1);
        if (dx * dx + dy * dy).sqrt() <= claim.radius {
            if !programs.contains(&claim.program) {
                programs.push(claim.program);
            }
            if let Some(control) = claim.control {
                controls.push((claim.program, control));
            }
        }
    }
    Some(PointerHits { programs, controls })
}

#[test]
fn mouse_click_in_region() {
    let program1 = ProgramId(1);
    let program2 = ProgramId(2);
    let canvas = ProgramId(3);
    let claims = [
        Claim { program: program1, control: None, center: (300.0, 500.0), radius: 100.0 },
        Claim { program: program2, control: None, center: (700.0, 500.0), radius: 100.0 },
    ];
    let in_program1 = || hits_at(&claims, 300.0, 500.0);
    let in_program2 = || hits_at(&claims, 700.0, 500.0);
    let on_canvas = || hits_at(&claims, 390.0, 590.0);

    let mut state = FocusState::new();
    assert!(state.handle(FocusRequest::ClaimRegion(program1, 0)).is_empty());
    assert!(state.handle(FocusRequest::ClaimRegion(program2, 1)).is_empty());
    assert!(state.handle(FocusRequest::SetCanvas(canvas)).is_empty());

    // The pointer stays with program 1 while the button is down
    assert_eq!(state.handle(FocusRequest::ButtonDown(in_program1())),
        vec![out(program1, FocusSignal::Enter(None)), out(program1, FocusSignal::Forward(None))]);
    assert_eq!(state.handle(FocusRequest::PointerMoved(in_program2())), vec![out(program1, FocusSignal::Forward(None))]);
    assert_eq!(state.handle(FocusRequest::ButtonUp), vec![out(program1, FocusSignal::Forward(None))]);

    // Moves go to whichever program they are over
    assert_eq!(state.handle(FocusRequest::PointerMoved(in_program2())),
        vec![out(program1, FocusSignal::Leave(None)), out(program2, FocusSignal::Enter(None)), out(program2, FocusSignal::Forward(None))]);
    assert_eq!(state.handle(FocusRequest::PointerMoved(in_program2())), vec![out(program2, FocusSignal::Forward(None))]);
    assert_eq!(state.handle(FocusRequest::PointerMoved(in_program1())),
        vec![out(program2, FocusSignal::Leave(None)), out(program1, FocusSignal::Enter(None)), out(program1, FocusSignal::Forward(None))]);
    assert_eq!(state.handle(FocusRequest::PointerMoved(in_program1())), vec![out(program1, FocusSignal::Forward(None))]);

    assert_eq!(state.handle(FocusRequest::PointerMoved(on_canvas())),
        vec![out(program1, FocusSignal::Leave(None)), out(canvas, FocusSignal::Enter(None)), out(canvas, FocusSignal::Forward(None))]);
    assert_eq!(state.handle(FocusRequest::PointerMoved(on_canvas())), vec![out(canvas, FocusSignal::Forward(None))]);
}

#[test]
fn mouse_click_in_control_region() {
    let program1 = ProgramId(1);
    let canvas = ProgramId(3);
    let control1 = ControlId::new();
    let control2 = ControlId::new();
    let claims = [
        Claim { program: program1, control: Some(control1), center: (300.0, 500.0), radius: 100.0 },
        Claim { program: program1, control: Some(control2), center: (700.0, 500.0), radius: 100.0 },
    ];
    let in_program1 = || hits_at(&claims, 300.0, 500.0);
    let in_program2 = || hits_at(&claims, 700.0, 500.0);
    let on_canvas = || hits_at(&claims, 390.0, 590.0);

    let mut state = FocusState::new();
    assert!(state.handle(FocusRequest::ClaimControlRegion(program1, control1, 0)).is_empty());
    assert!(state.handle(FocusRequest::ClaimControlRegion(program1, control2, 1)).is_empty());
    assert!(state.handle(FocusRequest::SetCanvas(canvas)).is_empty());

    assert_eq!(state.handle(FocusRequest::ButtonDown(in_program1())),
        vec![out(program1, FocusSignal::Enter(None)), out(program1, FocusSignal::Enter(Some(control1))),
            out(program1, FocusSignal::Forward(Some(control1)))]);
    assert_eq!(state.handle(FocusRequest::PointerMoved(in_program2())), vec![out(program1, FocusSignal::Forward(Some(control1)))]);
    assert_eq!(state.handle(FocusRequest::ButtonUp), vec![out(program1, FocusSignal::Forward(Some(control1)))]);

    assert_eq!(state.handle(FocusRequest::PointerMoved(in_program2())),
        vec![out(program1, FocusSignal::Leave(Some(control1))), out(program1, FocusSignal::Enter(Some(control2))),
            out(program1, FocusSignal::Forward(Some(control2)))]);
    assert_eq!(state.handle(FocusRequest::PointerMoved(in_program2())), vec![out(program1, FocusSignal::Forward(Some(control2)))]);
    assert_eq!(state.handle(FocusRequest::PointerMoved(in_program1())),
        vec![out(program1, FocusSignal::Leave(Some(control2))), out(program1, FocusSignal::Enter(Some(control1))),
            out(program1, FocusSignal::Forward(Some(control1)))]);
    assert_eq!(state.handle(FocusRequest::PointerMoved(in_program1())), vec![out(program1, FocusSignal::Forward(Some(control1)))]);

    // Leaving the control, then the program, then entering the canvas
    assert_eq!(state.handle(FocusRequest::PointerMoved(on_canvas())),
        vec![out(program1, FocusSignal::Leave(Some(control1))), out(program1, FocusSignal::Leave(None)),
            out(canvas, FocusSignal::Enter(None)), out(canvas, FocusSignal::Forward(None))]);
    assert_eq!(state.handle(FocusRequest::PointerMoved(on_canvas())), vec![out(canvas, FocusSignal::Forward(None))]);
}

#[test]
fn claiming_program_is_greeted_with_scale_and_size() {
    let p = ProgramId(7);
    let mut state = FocusState::new();
    let scale = 2.0f64.to_bits();
    let (w, h) = (800.0f64.to_bits(), 600.0f64.to_bits());
    assert!(state.handle(FocusRequest::Scale(scale)).is_empty());
    assert!(state.handle(FocusRequest::Resize(w, h)).is_empty());
    assert_eq!(state.handle(FocusRequest::ClaimRegion(p, 3)),
        vec![out(p, FocusSignal::Scale(scale)), out(p, FocusSignal::Resize(w, h))]);
    // A second claim is no first claim
    assert!(state.handle(FocusRequest::ClaimRegion(p, 4)).is_empty());
    // Closing the window goes to every known program
    assert_eq!(state.handle(FocusRequest::Closed), vec![out(p, FocusSignal::Forward(None))]);
}

#[test]
fn key_goes_to_focused_control() {
    let p = ProgramId(7);
    let c = ControlId(42);
    let mut state = FocusState::new();
    assert!(state.handle(FocusRequest::Key).is_empty());
    state.handle(FocusRequest::SetKeyboardFocus(p, c));
    assert_eq!(state.handle(FocusRequest::Key), vec![out(p, FocusSignal::Forward(Some(c)))]);
}

#[test]
fn stopped_program_loses_claims_and_order() {
    let p1 = ProgramId(1);
    let p2 = ProgramId(2);
    let mut state = FocusState::new();
    state.handle(FocusRequest::ClaimRegion(p1, 0));
    state.handle(FocusRequest::SetFollowingSubProgram(p1, p2));
    assert_eq!(state.handle(FocusRequest::Closed), vec![out(p1, FocusSignal::Forward(None)), out(p2, FocusSignal::Forward(None))]);
    state.handle(FocusRequest::ProgramStopped(p1));
    assert_eq!(state.handle(FocusRequest::Closed), vec![out(p2, FocusSignal::Forward(None))]);
    // With no claims left, a press goes nowhere
    assert!(state.handle(FocusRequest::ButtonDown(hits_at(&[], 1.0, 1.0))).is_empty());
    assert_eq!(state.lock_count(), 1);
    assert!(state.handle(FocusRequest::ButtonUp).is_empty());
    assert_eq!(state.lock_count(), 0);
    // A release with no matching press leaves the pointer unlocked
    assert!(state.handle(FocusRequest::ButtonUp).is_empty());
    assert_eq!(state.lock_count(), 0);
}

#[test]
fn focus_moves_to_next_program() {
    let p1 = ProgramId(1);
    let p2 = ProgramId(2);
    let a = ControlId(10);
    let b = ControlId(20);
    let c = ControlId(30);
    let mut state = FocusState::new();
    state.handle(FocusRequest::SetFollowingControl(p1, a, b));
    state.handle(FocusRequest::SetFollowingControl(p2, c, ControlId(31)));
    state.handle(FocusRequest::SetKeyboardFocus(p1, b));
    // b is the last control of p1: the next is the first of p2
    assert_eq!(state.handle(FocusRequest::FocusNext), vec![out(p1, FocusSignal::Unfocused(b)), out(p2, FocusSignal::Focused(c))]);
    // and back again
    assert_eq!(state.handle(FocusRequest::FocusPrevious), vec![out(p2, FocusSignal::Unfocused(c)), out(p1, FocusSignal::Focused(b))]);
}

#[test]
fn removed_control_claim_is_not_hit() {
    let p = ProgramId(1);
    let c = ControlId(5);
    let mut state = FocusState::new();
    state.handle(FocusRequest::ClaimControlRegion(p, c, 0));
    state.handle(FocusRequest::RemoveControlClaim(p, c));
    let hits = Some(PointerHits { programs: vec![p], controls: vec![(p, c)] });
    assert_eq!(state.handle(FocusRequest::PointerMoved(hits)),
        vec![out(p, FocusSignal::Enter(None)), out(p, FocusSignal::Forward(None))]);
    state.handle(FocusRequest::RemoveClaim(p));
    let hits = Some(PointerHits { programs: vec![p], controls: vec![] });
    assert_eq!(state.handle(FocusRequest::PointerMoved(hits)), vec![out(p, FocusSignal::Leave(None))]);
}
