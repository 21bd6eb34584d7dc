//! Routing of keyboard and pointer events to the subprograms of the scene.
//!
//! Subprograms claim regions of the window (and regions for their controls,
//! each with a z-index) and take part in a keyboard focus order. The host
//! tests the geometry (which claimed regions contain the pointer); this state
//! decides which program and control the pointer is over, which control has
//! keyboard focus, and which signals each program is sent.

use vstd::prelude::*;
use crate::ids::{ControlId, ProgramId};
use crate::table::Table;
use crate::lists::{seq_without, vec_without, vec_clone_u128, vec_position, first_index, is_first_index,
    lemma_first_index_exists, lemma_first_index_unique, lemma_without_contains, seq_dedup, vec_dedup, vec_insert_at,
    lemma_without_absent, lemma_without_insert, lemma_without_push, lemma_without_no_dup};

verus! {

/// The claimed regions that contain the pointer, as tested by the host: the programs whose
/// region (or one of whose control regions) contains it, and the controls whose region contains it.
#[derive(Clone, Debug, PartialEq)]
pub struct PointerHits {
    pub programs: Vec<ProgramId>,
    pub controls: Vec<(ProgramId, ControlId)>,
}

/// Requests to the focus state.
#[derive(Clone, Debug, PartialEq)]
pub enum FocusRequest {
    /// The window scale changed (IEEE-754 bits of the new scale)
    Scale(u64),
    /// The window was resized (IEEE-754 bits of the new width and height)
    Resize(u64, u64),
    /// The window was closed
    Closed,
    /// A pointer button went down, with the regions that contain the pointer (`None`: the pointer has no location)
    ButtonDown(Option<PointerHits>),
    /// A pointer button went up
    ButtonUp,
    /// Any other pointer action that moves the pointer (move, drag, cancel)
    PointerMoved(Option<PointerHits>),
    /// A key went down or up
    Key,
    /// A subprogram stopped running
    ProgramStopped(ProgramId),
    /// Sets the control that has keyboard focus
    SetKeyboardFocus(ProgramId, ControlId),
    /// Orders the first control just before the second control within a program
    SetFollowingControl(ProgramId, ControlId, ControlId),
    /// Orders the first program just before the second program
    SetFollowingSubProgram(ProgramId, ProgramId),
    /// Moves keyboard focus to the next control
    FocusNext,
    /// Moves keyboard focus to the previous control
    FocusPrevious,
    /// Sets the program that receives events outside every claimed region
    SetCanvas(ProgramId),
    /// Claims a region for a program, with a z-index
    ClaimRegion(ProgramId, usize),
    /// Claims a region for a control of a program, with a z-index
    ClaimControlRegion(ProgramId, ControlId, usize),
    /// Removes the claims of a program
    RemoveClaim(ProgramId),
    /// Removes the claims of one control of a program
    RemoveControlClaim(ProgramId, ControlId),
}

/// What a program is sent.
#[derive(Clone, Copy, Debug, PartialEq, Eq, Structural)]
pub enum FocusSignal {
    /// The control received keyboard focus
    Focused(ControlId),
    /// The control lost keyboard focus
    Unfocused(ControlId),
    /// The pointer entered the program (`None`) or one of its controls
    Enter(Option<ControlId>),
    /// The pointer left the program (`None`) or one of its controls
    Leave(Option<ControlId>),
    /// The event being handled, for the program (`None`) or one of its controls
    Forward(Option<ControlId>),
    /// The window scale (IEEE-754 bits)
    Scale(u64),
    /// The window size (IEEE-754 bits of width and height)
    Resize(u64, u64),
}

/// A signal for one program.
#[derive(Clone, Copy, Debug, PartialEq, Eq, Structural)]
pub struct FocusOutput {
    pub target: ProgramId,
    pub signal: FocusSignal,
}

/// The claims of one program: the z-index of its region and its control regions, in claim order.
pub struct ClaimModel {
    pub z_index: usize,
    pub controls: Seq<(u128, usize)>,
}

/// The mathematical focus state.
#[verifier::ext_equal]
pub struct FocusModel {
    /// The program that receives events outside every claimed region
    pub canvas: Option<ProgramId>,
    /// The claims of each program
    pub claims: Map<u128, ClaimModel>,
    /// The programs with claims, in the order they first claimed
    pub claim_order: Seq<u128>,
    /// The keyboard order of the controls of each program
    pub tab_order: Map<u128, Seq<u128>>,
    /// The keyboard order of the programs
    pub program_order: Seq<u128>,
    /// The program the pointer is over
    pub pointer_program: Option<ProgramId>,
    /// The control the pointer is over
    pub pointer_control: Option<ControlId>,
    /// Buttons that are down (the pointer target does not change while any is)
    pub lock_count: nat,
    /// The program and control with keyboard focus
    pub focused: Option<(ProgramId, ControlId)>,
    /// The last scale sent (IEEE-754 bits)
    pub scale: Option<u64>,
    /// The last window size sent (IEEE-754 bits)
    pub bounds: Option<(u64, u64)>,
}

/// One signal as a sequence.
pub open spec fn one(target: ProgramId, signal: FocusSignal) -> Seq<FocusOutput> {
    seq![FocusOutput { target: target, signal: signal }]
}

/// The program after `p` in the keyboard order (wrapping round to the first).
pub open spec fn next_subprogram(m: FocusModel, p: u128) -> Option<u128> {
    if m.program_order.contains(p) {
        let i = first_index(m.program_order, p);
        Some(m.program_order[if i + 1 >= m.program_order.len() { 0 } else { i + 1 }])
    } else {
        None
    }
}

/// The program before `p` in the keyboard order (wrapping round to the last).
pub open spec fn previous_subprogram(m: FocusModel, p: u128) -> Option<u128> {
    if m.program_order.contains(p) {
        let i = first_index(m.program_order, p);
        Some(m.program_order[if i == 0 { m.program_order.len() - 1 } else { i - 1 }])
    } else {
        None
    }
}

/// The control after the focused one: the next in its program, or else the first of the next program.
pub open spec fn next_control(m: FocusModel, current: Option<(ProgramId, ControlId)>) -> Option<(ProgramId, ControlId)> {
    match current {
        Some((p, c)) => if m.tab_order.dom().contains(p.0) && m.tab_order[p.0].contains(c.0) {
            let l = m.tab_order[p.0];
            let pos = first_index(l, c.0);
            if pos + 1 >= l.len() {
                match next_subprogram(m, p.0) {
                    Some(np) => if m.tab_order.dom().contains(np) && m.tab_order[np].len() > 0 {
                        Some((ProgramId(np), ControlId(m.tab_order[np][0])))
                    } else {
                        None
                    },
                    None => None,
                }
            } else {
                Some((p, ControlId(l[pos + 1])))
            }
        } else {
            None
        },
        None => None,
    }
}

/// The control before the focused one: the previous in its program, or else the last of the previous program.
pub open spec fn previous_control(m: FocusModel, current: Option<(ProgramId, ControlId)>) -> Option<(ProgramId, ControlId)> {
    match current {
        Some((p, c)) => if m.tab_order.dom().contains(p.0) && m.tab_order[p.0].contains(c.0) {
            let l = m.tab_order[p.0];
            let pos = first_index(l, c.0);
            if pos == 0 {
                match previous_subprogram(m, p.0) {
                    Some(pp) => if m.tab_order.dom().contains(pp) && m.tab_order[pp].len() > 0 {
                        Some((ProgramId(pp), ControlId(m.tab_order[pp].last())))
                    } else {
                        None
                    },
                    None => None,
                }
            } else {
                Some((p, ControlId(l[pos - 1])))
            }
        } else {
            None
        },
        None => None,
    }
}

/// Moving keyboard focus: the focused control is told it lost focus, then the new one that it has it.
pub open spec fn spec_set_keyboard_focus(m: FocusModel, p: ProgramId, c: ControlId) -> (FocusModel, Seq<FocusOutput>) {
    (
        FocusModel { focused: Some((p, c)), ..m },
        match m.focused {
            Some((op, oc)) => one(op, FocusSignal::Unfocused(oc)),
            None => Seq::empty(),
        } + one(p, FocusSignal::Focused(c)),
    )
}

/// Moving focus to the next control, if there is one.
pub open spec fn spec_focus_next(m: FocusModel) -> (FocusModel, Seq<FocusOutput>) {
    match next_control(m, m.focused) {
        Some((p, c)) => spec_set_keyboard_focus(m, p, c),
        None => (m, Seq::empty()),
    }
}

/// Moving focus to the previous control, if there is one.
pub open spec fn spec_focus_previous(m: FocusModel) -> (FocusModel, Seq<FocusOutput>) {
    match previous_control(m, m.focused) {
        Some((p, c)) => spec_set_keyboard_focus(m, p, c),
        None => (m, Seq::empty()),
    }
}

/// The list stored against a key, or the empty list.
pub open spec fn order_or_empty(m: Map<u128, Seq<u128>>, k: u128) -> Seq<u128> {
    if m.dom().contains(k) { m[k] } else { Seq::empty() }
}

/// `s` with `x` placed just before `before` (which is added at the end if missing), after taking `x` out.
pub open spec fn place_before(s: Seq<u128>, x: u128, before: u128) -> Seq<u128> {
    let rest = seq_without(s, x);
    if rest.contains(before) {
        rest.insert(first_index(rest, before), x)
    } else {
        rest.push(before).insert(rest.len() as int, x)
    }
}

/// Ordering a control just before another within a program (the program joins the keyboard order if needed).
pub open spec fn spec_set_following_control(m: FocusModel, p: ProgramId, c: ControlId, next: ControlId) -> (FocusModel, Seq<FocusOutput>) {
    (
        FocusModel {
            program_order: if m.program_order.contains(p.0) { m.program_order } else { m.program_order.push(p.0) },
            tab_order: m.tab_order.insert(p.0, place_before(order_or_empty(m.tab_order, p.0), c.0, next.0)),
            ..m
        },
        Seq::empty(),
    )
}

/// Ordering a program just before another (both get a control order if they have none).
pub open spec fn spec_set_following_subprogram(m: FocusModel, p: ProgramId, next: ProgramId) -> (FocusModel, Seq<FocusOutput>) {
    let t1 = if m.tab_order.dom().contains(p.0) { m.tab_order } else { m.tab_order.insert(p.0, Seq::empty()) };
    let t2 = if t1.dom().contains(next.0) { t1 } else { t1.insert(next.0, Seq::empty()) };
    (
        FocusModel { tab_order: t2, program_order: place_before(m.program_order, p.0, next.0), ..m },
        Seq::empty(),
    )
}

/// Setting the canvas program.
pub open spec fn spec_set_canvas(m: FocusModel, p: ProgramId) -> (FocusModel, Seq<FocusOutput>) {
    (FocusModel { canvas: Some(p), ..m }, Seq::empty())
}

/// The greeting a program gets when it first claims a region: the stored scale and window size.
pub open spec fn greeting(m: FocusModel, p: ProgramId) -> Seq<FocusOutput> {
    (match m.scale { Some(s) => one(p, FocusSignal::Scale(s)), None => Seq::empty() })
        + (match m.bounds { Some((w, h)) => one(p, FocusSignal::Resize(w, h)), None => Seq::empty() })
}

/// Claiming a region for a program (`control` is `None`) or for one of its controls. A program's
/// first claim creates its entry (z-index 0, no controls) and greets it.
pub open spec fn spec_claim(m: FocusModel, p: ProgramId, control: Option<ControlId>, z: usize) -> (FocusModel, Seq<FocusOutput>) {
    let is_new = !m.claims.dom().contains(p.0);
    let before = if is_new { ClaimModel { z_index: 0, controls: Seq::empty() } } else { m.claims[p.0] };
    let after = match control {
        Some(c) => ClaimModel { z_index: before.z_index, controls: before.controls.push((c.0, z)) },
        None => ClaimModel { z_index: z, controls: before.controls },
    };
    (
        FocusModel {
            claims: m.claims.insert(p.0, after),
            claim_order: if is_new { m.claim_order.push(p.0) } else { m.claim_order },
            ..m
        },
        if is_new { greeting(m, p) } else { Seq::empty() },
    )
}

/// The control claims without those of one control.
pub open spec fn controls_without(s: Seq<(u128, usize)>, c: u128) -> Seq<(u128, usize)>
    decreases s.len(),
{
    if s.len() == 0 {
        s
    } else if s.last().0 == c {
        controls_without(s.drop_last(), c)
    } else {
        controls_without(s.drop_last(), c).push(s.last())
    }
}

/// Removing every claim of a program.
pub open spec fn spec_remove_claim(m: FocusModel, p: ProgramId) -> (FocusModel, Seq<FocusOutput>) {
    if m.claims.dom().contains(p.0) {
        (
            FocusModel {
                claims: m.claims.remove(p.0),
                claim_order: m.claim_order.remove(m.claim_order.index_of(p.0)),
                ..m
            },
            Seq::empty(),
        )
    } else {
        (m, Seq::empty())
    }
}

/// Removing the claims of one control of a program.
pub open spec fn spec_remove_control_claim(m: FocusModel, p: ProgramId, c: ControlId) -> (FocusModel, Seq<FocusOutput>) {
    if m.claims.dom().contains(p.0) {
        let old = m.claims[p.0];
        (
            FocusModel {
                claims: m.claims.insert(p.0, ClaimModel { z_index: old.z_index, controls: controls_without(old.controls, c.0) }),
                ..m
            },
            Seq::empty(),
        )
    } else {
        (m, Seq::empty())
    }
}

/// A program that stops loses its claims and its place in the keyboard order.
pub open spec fn spec_program_stopped(m: FocusModel, p: ProgramId) -> (FocusModel, Seq<FocusOutput>) {
    let m1 = spec_remove_claim(m, p).0;
    (
        FocusModel {
            tab_order: m1.tab_order.remove(p.0),
            program_order: seq_without(m1.program_order, p.0),
            ..m1
        },
        Seq::empty(),
    )
}

/// Every program that has claimed a region or takes part in the keyboard order, each once.
pub open spec fn known_programs(m: FocusModel) -> Seq<u128> {
    seq_dedup(m.claim_order + m.program_order)
}

/// The event being handled, forwarded to every known program.
pub open spec fn broadcast(m: FocusModel) -> Seq<FocusOutput> {
    Seq::new(
        known_programs(m).len(),
        |i: int| FocusOutput { target: ProgramId(known_programs(m)[i]), signal: FocusSignal::Forward(None) },
    )
}

/// A key event goes to the focused control.
pub open spec fn spec_key(m: FocusModel) -> (FocusModel, Seq<FocusOutput>) {
    (
        m,
        match m.focused {
            Some((p, c)) => one(p, FocusSignal::Forward(Some(c))),
            None => Seq::empty(),
        },
    )
}

/// The event being handled goes to the pointer target.
pub open spec fn to_pointer(m: FocusModel) -> Seq<FocusOutput> {
    match m.pointer_program {
        Some(p) => one(p, FocusSignal::Forward(m.pointer_control)),
        None => Seq::empty(),
    }
}

/// The claimed program with the highest z-index among the hits (the last of them on a tie).
pub open spec fn top_program(m: FocusModel, hits: Seq<ProgramId>) -> Option<ProgramId>
    decreases hits.len(),
{
    if hits.len() == 0 {
        None
    } else {
        let best = top_program(m, hits.drop_last());
        let x = hits.last();
        if !m.claims.dom().contains(x.0) {
            best
        } else {
            match best {
                Some(b) => if m.claims[x.0].z_index >= m.claims[b.0].z_index { Some(x) } else { Some(b) },
                None => Some(x),
            }
        }
    }
}

/// Of a program's control claims (in claim order), the hit one with the highest z-index (the last of them on a tie).
pub open spec fn top_control(p: ProgramId, claims: Seq<(u128, usize)>, hits: Seq<(ProgramId, ControlId)>) -> Option<(u128, usize)>
    decreases claims.len(),
{
    if claims.len() == 0 {
        None
    } else {
        let best = top_control(p, claims.drop_last(), hits);
        let x = claims.last();
        if !hits.contains((p, ControlId(x.0))) {
            best
        } else {
            match best {
                Some(b) => if x.1 >= b.1 { Some(x) } else { Some(b) },
                None => Some(x),
            }
        }
    }
}

/// The signals that leave the current pointer target: its control (if any), then the program.
pub open spec fn leave_current(m: FocusModel) -> Seq<FocusOutput> {
    match m.pointer_program {
        Some(op) => one(op, FocusSignal::Leave(m.pointer_control))
            + (if m.pointer_control.is_some() { one(op, FocusSignal::Leave(None)) } else { Seq::empty() }),
        None => Seq::empty(),
    }
}

/// Moving the pointer target to a program (leaving the old one and entering the new one if it changes).
pub open spec fn move_to_program(m: FocusModel, p: ProgramId) -> (FocusModel, Seq<FocusOutput>) {
    (
        FocusModel { pointer_program: Some(p), ..m },
        if m.pointer_program != Some(p) { leave_current(m) + one(p, FocusSignal::Enter(None)) } else { Seq::empty() },
    )
}

/// Choosing the pointer target from the hits, unless a button is down: the top claimed program,
/// or else the canvas, or else nothing; then the top hit control of that program.
pub open spec fn spec_retarget(m: FocusModel, hits: Option<PointerHits>) -> (FocusModel, Seq<FocusOutput>) {
    if m.lock_count > 0 {
        (m, Seq::empty())
    } else {
        let target = match hits {
            Some(h) => top_program(m, h.programs@),
            None => None,
        };
        let (m1, out1) = match target {
            Some(tp) => move_to_program(m, tp),
            None => match m.canvas {
                Some(cv) => move_to_program(m, cv),
                None => (FocusModel { pointer_program: None, ..m }, leave_current(m)),
            },
        };
        match (target, hits) {
            (Some(tp), Some(h)) => {
                let new_control = match top_control(tp, m.claims[tp.0].controls, h.controls@) {
                    Some(c) => Some(ControlId(c.0)),
                    None => None,
                };
                if new_control != m1.pointer_control {
                    (
                        FocusModel { pointer_control: new_control, ..m1 },
                        out1
                            + (match m1.pointer_control {
                                Some(oc) => one(tp, FocusSignal::Leave(Some(oc))),
                                None => Seq::empty(),
                            })
                            + (match new_control {
                                Some(nc) => one(tp, FocusSignal::Enter(Some(nc))),
                                None => Seq::empty(),
                            }),
                    )
                } else {
                    (m1, out1)
                }
            },
            _ => (FocusModel { pointer_control: None, ..m1 }, out1),
        }
    }
}

/// A button going down: the pointer target is chosen, then locked, then sent the event.
pub open spec fn spec_button_down(m: FocusModel, hits: Option<PointerHits>) -> (FocusModel, Seq<FocusOutput>) {
    let (m1, out1) = spec_retarget(m, hits);
    let m2 = FocusModel { lock_count: m1.lock_count + 1, ..m1 };
    (m2, out1 + to_pointer(m2))
}

/// A button going up: the pointer target is unlocked by one (a button-up with no unmatched
/// button-down leaves it unlocked) and sent the event.
pub open spec fn spec_button_up(m: FocusModel) -> (FocusModel, Seq<FocusOutput>) {
    let m1 = FocusModel { lock_count: if m.lock_count > 0 { (m.lock_count - 1) as nat } else { 0 }, ..m };
    (m1, to_pointer(m1))
}

/// Another pointer action: the pointer target is chosen, then sent the event.
pub open spec fn spec_pointer_moved(m: FocusModel, hits: Option<PointerHits>) -> (FocusModel, Seq<FocusOutput>) {
    let (m1, out1) = spec_retarget(m, hits);
    (m1, out1 + to_pointer(m1))
}

/// The effect of one request: the next state and the signals to deliver, in order.
pub open spec fn spec_focus_step(m: FocusModel, req: FocusRequest) -> (FocusModel, Seq<FocusOutput>) {
    match req {
        FocusRequest::Scale(s) => (FocusModel { scale: Some(s), ..m }, broadcast(m)),
        FocusRequest::Resize(w, h) => (FocusModel { bounds: Some((w, h)), ..m }, broadcast(m)),
        FocusRequest::Closed => (m, broadcast(m)),
        FocusRequest::ButtonDown(hits) => spec_button_down(m, hits),
        FocusRequest::ButtonUp => spec_button_up(m),
        FocusRequest::PointerMoved(hits) => spec_pointer_moved(m, hits),
        FocusRequest::Key => spec_key(m),
        FocusRequest::ProgramStopped(p) => spec_program_stopped(m, p),
        FocusRequest::SetKeyboardFocus(p, c) => spec_set_keyboard_focus(m, p, c),
        FocusRequest::SetFollowingControl(p, c, next) => spec_set_following_control(m, p, c, next),
        FocusRequest::SetFollowingSubProgram(p, next) => spec_set_following_subprogram(m, p, next),
        FocusRequest::FocusNext => spec_focus_next(m),
        FocusRequest::FocusPrevious => spec_focus_previous(m),
        FocusRequest::SetCanvas(p) => spec_set_canvas(m, p),
        FocusRequest::ClaimRegion(p, z) => spec_claim(m, p, None, z),
        FocusRequest::ClaimControlRegion(p, c, z) => spec_claim(m, p, Some(c), z),
        FocusRequest::RemoveClaim(p) => spec_remove_claim(m, p),
        FocusRequest::RemoveControlClaim(p, c) => spec_remove_control_claim(m, p, c),
    }
}


/// The top program, when there is one, is a claimed program among the hits.
pub proof fn lemma_top_program_claimed(m: FocusModel, hits: Seq<ProgramId>)
    ensures
        match top_program(m, hits) {
            Some(p) => m.claims.dom().contains(p.0) && hits.contains(p),
            None => true,
        },
    decreases hits.len(),
{
    if hits.len() > 0 {
        lemma_top_program_claimed(m, hits.drop_last());
        match top_program(m, hits) {
            Some(p) => {
                if p == hits.last() {
                    assert(hits[hits.len() - 1] == p);
                } else {
                    let w = choose|w: int| 0 <= w < hits.drop_last().len() && hits.drop_last()[w] == p;
                    assert(hits[w] == p);
                }
            },
            None => {},
        }
    }
}

/// The claims of one program.
struct RegionClaim {
    z_index: usize,
    controls: Vec<(u128, usize)>,
}

impl RegionClaim {
    spec fn model(self) -> ClaimModel {
        ClaimModel { z_index: self.z_index, controls: self.controls@ }
    }
}

/// The claims table as a map of claim models.
spec fn claim_map(m: Map<u128, RegionClaim>) -> Map<u128, ClaimModel> {
    m.map_values(|c: RegionClaim| c.model())
}

/// The control-order table as a map of sequences.
pub open spec fn order_map(m: Map<u128, Vec<u128>>) -> Map<u128, Seq<u128>> {
    m.map_values(|v: Vec<u128>| v@)
}

/// The focus state: claims, keyboard order, pointer target and keyboard focus.
pub struct FocusState {
    canvas: Option<ProgramId>,
    claims: Table<RegionClaim>,
    tab_order: Table<Vec<u128>>,
    program_order: Vec<u128>,
    pointer_program: Option<ProgramId>,
    pointer_control: Option<ControlId>,
    lock_count: usize,
    focused: Option<(ProgramId, ControlId)>,
    scale: Option<u64>,
    bounds: Option<(u64, u64)>,
}

impl View for FocusState {
    type V = FocusModel;

    closed spec fn view(&self) -> FocusModel {
        FocusModel {
            canvas: self.canvas,
            claims: claim_map(self.claims.map()),
            claim_order: self.claims.key_seq(),
            tab_order: order_map(self.tab_order.map()),
            program_order: self.program_order@,
            pointer_program: self.pointer_program,
            pointer_control: self.pointer_control,
            lock_count: self.lock_count as nat,
            focused: self.focused,
            scale: self.scale,
            bounds: self.bounds,
        }
    }
}

/// The state with nothing claimed, ordered or focused.
pub open spec fn empty_focus_model() -> FocusModel {
    FocusModel {
        canvas: None,
        claims: Map::empty(),
        claim_order: Seq::empty(),
        tab_order: Map::empty(),
        program_order: Seq::empty(),
        pointer_program: None,
        pointer_control: None,
        lock_count: 0,
        focused: None,
        scale: None,
        bounds: None,
    }
}

/// Appends one signal.
fn push_one(out: &mut Vec<FocusOutput>, target: ProgramId, signal: FocusSignal)
    ensures
        final(out)@ == old(out)@ + one(target, signal),
{
    out.push(FocusOutput { target, signal });
    assert(out@ =~= old(out)@ + one(target, signal));
}

/// `order_map` commutes with inserting into the table.
proof fn lemma_order_map_insert(m: Map<u128, Vec<u128>>, k: u128, v: Vec<u128>)
    ensures
        order_map(m.insert(k, v)) == order_map(m).insert(k, v@),
{
    assert(order_map(m.insert(k, v)) =~= order_map(m).insert(k, v@));
}

/// `order_map` commutes with removing from the table.
proof fn lemma_order_map_remove(m: Map<u128, Vec<u128>>, k: u128)
    ensures
        order_map(m.remove(k)) == order_map(m).remove(k),
{
    assert(order_map(m.remove(k)) =~= order_map(m).remove(k));
}

/// `claim_map` commutes with inserting into the table.
proof fn lemma_claim_map_insert(m: Map<u128, RegionClaim>, k: u128, v: RegionClaim)
    ensures
        claim_map(m.insert(k, v)) == claim_map(m).insert(k, v.model()),
{
    assert(claim_map(m.insert(k, v)) =~= claim_map(m).insert(k, v.model()));
}

/// `claim_map` commutes with removing from the table.
proof fn lemma_claim_map_remove(m: Map<u128, RegionClaim>, k: u128)
    ensures
        claim_map(m.remove(k)) == claim_map(m).remove(k),
{
    assert(claim_map(m.remove(k)) =~= claim_map(m).remove(k));
}

/// The lookup of a key in the claims view.
proof fn lemma_claim_map_lookup(m: Map<u128, RegionClaim>, k: u128)
    requires
        m.dom().contains(k),
    ensures
        claim_map(m).dom().contains(k),
        claim_map(m)[k] == m[k].model(),
{
}

/// A copy of a list of control claims.
fn clone_controls(v: &Vec<(u128, usize)>) -> (r: Vec<(u128, usize)>)
    ensures
        r@ == v@,
{
    let mut r: Vec<(u128, usize)> = Vec::new();
    let mut i: usize = 0;
    while i < v.len()
        invariant
            i <= v@.len(),
            r@ == v@.subrange(0, i as int),
        decreases v@.len() - i,
    {
        r.push(v[i]);
        i = i + 1;
        assert(r@ =~= v@.subrange(0, i as int));
    }
    assert(v@.subrange(0, v@.len() as int) =~= v@);
    r
}

/// The control claims without those of one control.
fn controls_without_exec(v: &Vec<(u128, usize)>, c: u128) -> (r: Vec<(u128, usize)>)
    ensures
        r@ == controls_without(v@, c),
{
    let mut r: Vec<(u128, usize)> = Vec::new();
    let mut i: usize = 0;
    while i < v.len()
        invariant
            i <= v@.len(),
            r@ == controls_without(v@.subrange(0, i as int), c),
        decreases v@.len() - i,
    {
        assert(v@.subrange(0, i + 1).drop_last() =~= v@.subrange(0, i as int));
        if v[i].0 != c {
            r.push(v[i]);
        }
        i = i + 1;
    }
    assert(v@.subrange(0, v@.len() as int) =~= v@);
    r
}

/// `x` placed just before `before` in a list, after taking `x` out.
fn vec_place_before(v: &Vec<u128>, x: u128, before: u128) -> (r: Vec<u128>)
    ensures
        r@ == place_before(v@, x, before),
{
    let mut rest = vec_without(v, x);
    match vec_position(&rest, before) {
        Some(i) => {
            vec_insert_at(&mut rest, i, x);
        },
        None => {
            let n = rest.len();
            rest.push(before);
            vec_insert_at(&mut rest, n, x);
        },
    }
    rest
}

/// True if the hits contain the control of the program.
fn control_is_hit(hits: &Vec<(ProgramId, ControlId)>, p: ProgramId, c: u128) -> (r: bool)
    ensures
        r == hits@.contains((p, ControlId(c))),
{
    let mut i: usize = 0;
    while i < hits.len()
        invariant
            i <= hits@.len(),
            forall|j: int| 0 <= j < i ==> #[trigger] hits@[j] != (p, ControlId(c)),
        decreases hits@.len() - i,
    {
        let (hp, hc) = hits[i];
        if hp.0 == p.0 && hc.0 == c {
            assert(hits@[i as int] == (p, ControlId(c)));
            return true;
        }
        i = i + 1;
    }
    false
}

impl FocusState {
    /// The tables are well formed.
    pub closed spec fn wf(self) -> bool {
        &&& self.claims.wf()
        &&& self.tab_order.wf()
    }

    /// Creates a focus state with nothing claimed, ordered or focused.
    pub fn new() -> (s: Self)
        ensures
            s.wf(),
            s@ == empty_focus_model(),
    {
        let s = FocusState {
            canvas: None,
            claims: Table::new(),
            tab_order: Table::new(),
            program_order: Vec::new(),
            pointer_program: None,
            pointer_control: None,
            lock_count: 0,
            focused: None,
            scale: None,
            bounds: None,
        };
        assert(s@.claims =~= Map::<u128, ClaimModel>::empty());
        assert(s@.tab_order =~= Map::<u128, Seq<u128>>::empty());
        s
    }

    /// The program after `p` in the keyboard order.
    fn next_subprogram(&self, p: u128) -> (r: Option<u128>)
        requires
            self.wf(),
        ensures
            r == next_subprogram(self@, p),
    {
        match vec_position(&self.program_order, p) {
            Some(i) => {
                let len = self.program_order.len();
                assert(i < len);
                let n = if i + 1 >= len { 0 } else { i + 1 };
                Some(self.program_order[n])
            },
            None => None,
        }
    }

    /// The program before `p` in the keyboard order.
    fn previous_subprogram(&self, p: u128) -> (r: Option<u128>)
        requires
            self.wf(),
        ensures
            r == previous_subprogram(self@, p),
    {
        match vec_position(&self.program_order, p) {
            Some(i) => {
                let n = if i == 0 { self.program_order.len() - 1 } else { i - 1 };
                Some(self.program_order[n])
            },
            None => None,
        }
    }

    /// The control after the focused one.
    fn next_control(&self, current: Option<(ProgramId, ControlId)>) -> (r: Option<(ProgramId, ControlId)>)
        requires
            self.wf(),
        ensures
            r == next_control(self@, current),
    {
        let (p, c) = match current { Some(pc) => pc, None => { return None; } };
        let l = match self.tab_order.get(p.0) { Some(l) => l, None => { return None; } };
        let pos = match vec_position(l, c.0) { Some(pos) => pos, None => { return None; } };
        let len = l.len();
        assert(pos < len);
        if pos + 1 >= len {
            let np = match self.next_subprogram(p.0) { Some(np) => np, None => { return None; } };
            match self.tab_order.get(np) {
                Some(nl) => {
                    if nl.len() > 0 {
                        Some((ProgramId(np), ControlId(nl[0])))
                    } else {
                        None
                    }
                },
                None => None,
            }
        } else {
            Some((p, ControlId(l[pos + 1])))
        }
    }

    /// The control before the focused one.
    fn previous_control(&self, current: Option<(ProgramId, ControlId)>) -> (r: Option<(ProgramId, ControlId)>)
        requires
            self.wf(),
        ensures
            r == previous_control(self@, current),
    {
        let (p, c) = match current { Some(pc) => pc, None => { return None; } };
        let l = match self.tab_order.get(p.0) { Some(l) => l, None => { return None; } };
        let pos = match vec_position(l, c.0) { Some(pos) => pos, None => { return None; } };
        if pos == 0 {
            let pp = match self.previous_subprogram(p.0) { Some(pp) => pp, None => { return None; } };
            match self.tab_order.get(pp) {
                Some(pl) => {
                    if pl.len() > 0 {
                        Some((ProgramId(pp), ControlId(pl[pl.len() - 1])))
                    } else {
                        None
                    }
                },
                None => None,
            }
        } else {
            Some((p, ControlId(l[pos - 1])))
        }
    }

    /// Moves keyboard focus to a control.
    fn set_keyboard_focus(&mut self, p: ProgramId, c: ControlId, out: &mut Vec<FocusOutput>)
        requires
            old(self).wf(),
        ensures
            final(self).wf(),
            final(self)@ == spec_set_keyboard_focus(old(self)@, p, c).0,
            final(out)@ == old(out)@ + spec_set_keyboard_focus(old(self)@, p, c).1,
    {
        let ghost m = self@;
        match self.focused {
            Some((op, oc)) => {
                push_one(out, op, FocusSignal::Unfocused(oc));
            },
            None => {},
        }
        self.focused = Some((p, c));
        push_one(out, p, FocusSignal::Focused(c));
        assert(out@ =~= old(out)@ + spec_set_keyboard_focus(m, p, c).1);
    }

    /// Moves keyboard focus to the next control.
    fn focus_next(&mut self, out: &mut Vec<FocusOutput>)
        requires
            old(self).wf(),
        ensures
            final(self).wf(),
            final(self)@ == spec_focus_next(old(self)@).0,
            final(out)@ == old(out)@ + spec_focus_next(old(self)@).1,
    {
        match self.next_control(self.focused) {
            Some((p, c)) => self.set_keyboard_focus(p, c, out),
            None => { assert(out@ =~= old(out)@ + Seq::<FocusOutput>::empty()); },
        }
    }

    /// Moves keyboard focus to the previous control.
    fn focus_previous(&mut self, out: &mut Vec<FocusOutput>)
        requires
            old(self).wf(),
        ensures
            final(self).wf(),
            final(self)@ == spec_focus_previous(old(self)@).0,
            final(out)@ == old(out)@ + spec_focus_previous(old(self)@).1,
    {
        match self.previous_control(self.focused) {
            Some((p, c)) => self.set_keyboard_focus(p, c, out),
            None => { assert(out@ =~= old(out)@ + Seq::<FocusOutput>::empty()); },
        }
    }

    /// Orders a control just before another within a program.
    fn set_following_control(&mut self, p: ProgramId, c: ControlId, next: ControlId)
        requires
            old(self).wf(),
        ensures
            final(self).wf(),
            final(self)@ == spec_set_following_control(old(self)@, p, c, next).0,
    {
        let ghost m = self@;
        if vec_position(&self.program_order, p.0).is_none() {
            self.program_order.push(p.0);
        }
        let placed = match self.tab_order.get(p.0) {
            Some(l) => vec_place_before(l, c.0, next.0),
            None => {
                let empty: Vec<u128> = Vec::new();
                vec_place_before(&empty, c.0, next.0)
            },
        };
        let ghost old_orders = self.tab_order.map();
        let ghost pl = placed;
        self.tab_order.insert(p.0, placed);
        proof { lemma_order_map_insert(old_orders, p.0, pl); }
        assert(self@ =~= spec_set_following_control(m, p, c, next).0);
    }

    /// Orders a program just before another.
    fn set_following_subprogram(&mut self, p: ProgramId, next: ProgramId)
        requires
            old(self).wf(),
        ensures
            final(self).wf(),
            final(self)@ == spec_set_following_subprogram(old(self)@, p, next).0,
    {
        let ghost m = self@;
        if !self.tab_order.contains_key(p.0) {
            let ghost o = self.tab_order.map();
            let e: Vec<u128> = Vec::new();
            let ghost ee = e;
            self.tab_order.insert(p.0, e);
            proof { lemma_order_map_insert(o, p.0, ee); assert(ee@ =~= Seq::<u128>::empty()); }
        }
        if !self.tab_order.contains_key(next.0) {
            let ghost o = self.tab_order.map();
            let e: Vec<u128> = Vec::new();
            let ghost ee = e;
            self.tab_order.insert(next.0, e);
            proof { lemma_order_map_insert(o, next.0, ee); assert(ee@ =~= Seq::<u128>::empty()); }
        }
        self.program_order = vec_place_before(&self.program_order, p.0, next.0);
        assert(self@ =~= spec_set_following_subprogram(m, p, next).0);
    }

    /// Claims a region for a program or one of its controls.
    fn claim(&mut self, p: ProgramId, control: Option<ControlId>, z: usize, out: &mut Vec<FocusOutput>)
        requires
            old(self).wf(),
        ensures
            final(self).wf(),
            final(self)@ == spec_claim(old(self)@, p, control, z).0,
            final(out)@ == old(out)@ + spec_claim(old(self)@, p, control, z).1,
    {
        let ghost m = self@;
        let ghost old_claims = self.claims.map();
        proof { self.claims.lemma_dom(); }
        let before = match self.claims.get(p.0) {
            Some(cl) => RegionClaim { z_index: cl.z_index, controls: clone_controls(&cl.controls) },
            None => {
                match self.scale {
                    Some(sc) => { push_one(out, p, FocusSignal::Scale(sc)); },
                    None => {},
                }
                match self.bounds {
                    Some((w, h)) => { push_one(out, p, FocusSignal::Resize(w, h)); },
                    None => {},
                }
                RegionClaim { z_index: 0, controls: Vec::new() }
            },
        };
        let after = match control {
            Some(c) => {
                let mut controls = before.controls;
                controls.push((c.0, z));
                RegionClaim { z_index: before.z_index, controls: controls }
            },
            None => RegionClaim { z_index: z, controls: before.controls },
        };
        let ghost a = after;
        self.claims.insert(p.0, after);
        proof {
            lemma_claim_map_insert(old_claims, p.0, a);
            assert(a.model() == (match control {
                Some(c) => ClaimModel { z_index: (if old_claims.dom().contains(p.0) { old_claims[p.0].model() } else { ClaimModel { z_index: 0, controls: Seq::empty() } }).z_index,
                    controls: (if old_claims.dom().contains(p.0) { old_claims[p.0].model() } else { ClaimModel { z_index: 0, controls: Seq::empty() } }).controls.push((c.0, z)) },
                None => ClaimModel { z_index: z, controls: (if old_claims.dom().contains(p.0) { old_claims[p.0].model() } else { ClaimModel { z_index: 0, controls: Seq::empty() } }).controls },
            }));
        }
        assert(out@ =~= old(out)@ + spec_claim(m, p, control, z).1);
        assert(self@ =~= spec_claim(m, p, control, z).0);
    }

    /// Removes every claim of a program.
    fn remove_claim(&mut self, p: ProgramId)
        requires
            old(self).wf(),
        ensures
            final(self).wf(),
            final(self)@ == spec_remove_claim(old(self)@, p).0,
    {
        let ghost m = self@;
        let ghost old_claims = self.claims.map();
        self.claims.remove(p.0);
        proof { lemma_claim_map_remove(old_claims, p.0); }
        assert(self@ =~= spec_remove_claim(m, p).0);
    }

    /// Removes the claims of one control of a program.
    fn remove_control_claim(&mut self, p: ProgramId, c: ControlId)
        requires
            old(self).wf(),
        ensures
            final(self).wf(),
            final(self)@ == spec_remove_control_claim(old(self)@, p, c).0,
    {
        let ghost m = self@;
        let ghost old_claims = self.claims.map();
        let updated = match self.claims.get(p.0) {
            Some(cl) => {
                proof { lemma_claim_map_lookup(old_claims, p.0); }
                Some(RegionClaim { z_index: cl.z_index, controls: controls_without_exec(&cl.controls, c.0) })
            },
            None => None,
        };
        match updated {
            Some(u) => {
                let ghost uu = u;
                proof {
                    self.claims.lemma_dom();
                    assert(old_claims.dom().contains(p.0));
                    assert(self.claims.key_seq().contains(p.0));
                }
                self.claims.insert(p.0, u);
                proof {
                    lemma_claim_map_insert(old_claims, p.0, uu);
                    lemma_claim_map_lookup(old_claims, p.0);
                    assert(uu.model() == ClaimModel { z_index: m.claims[p.0].z_index, controls: controls_without(m.claims[p.0].controls, c.0) });
                    assert(self@.claims =~= m.claims.insert(p.0, uu.model()));
                    assert(self@.claim_order =~= m.claim_order);
                }
            },
            None => {},
        }
        assert(self@ =~= spec_remove_control_claim(m, p, c).0);
    }

    /// Forgets a program that has stopped.
    fn program_stopped(&mut self, p: ProgramId)
        requires
            old(self).wf(),
        ensures
            final(self).wf(),
            final(self)@ == spec_program_stopped(old(self)@, p).0,
    {
        let ghost m = self@;
        self.remove_claim(p);
        let ghost o = self.tab_order.map();
        self.tab_order.remove(p.0);
        proof { lemma_order_map_remove(o, p.0); }
        self.program_order = vec_without(&self.program_order, p.0);
        assert(self@ =~= spec_program_stopped(m, p).0);
    }

    /// Forwards the event being handled to every known program.
    fn broadcast(&self, out: &mut Vec<FocusOutput>)
        requires
            self.wf(),
        ensures
            final(out)@ == old(out)@ + broadcast(self@),
    {
        let mut all = self.claims.keys();
        let mut k: usize = 0;
        while k < self.program_order.len()
            invariant
                k <= self.program_order@.len(),
                all@ == self.claims.key_seq() + self.program_order@.subrange(0, k as int),
            decreases self.program_order@.len() - k,
        {
            all.push(self.program_order[k]);
            k = k + 1;
            assert(all@ =~= self.claims.key_seq() + self.program_order@.subrange(0, k as int));
        }
        assert(self.program_order@.subrange(0, self.program_order@.len() as int) =~= self.program_order@);
        let known = vec_dedup(&all);
        let ghost start = out@;
        let mut i: usize = 0;
        while i < known.len()
            invariant
                i <= known@.len(),
                known@ == known_programs(self@),
                out@ == start + broadcast(self@).subrange(0, i as int),
            decreases known@.len() - i,
        {
            push_one(out, ProgramId(known[i]), FocusSignal::Forward(None));
            i = i + 1;
            assert(out@ =~= start + broadcast(self@).subrange(0, i as int));
        }
        assert(broadcast(self@).subrange(0, known@.len() as int) =~= broadcast(self@));
    }

    /// Forwards the event being handled to the pointer target.
    fn send_to_pointer(&self, out: &mut Vec<FocusOutput>)
        ensures
            final(out)@ == old(out)@ + to_pointer(self@),
    {
        match self.pointer_program {
            Some(p) => { push_one(out, p, FocusSignal::Forward(self.pointer_control)); },
            None => { assert(out@ =~= old(out)@ + Seq::<FocusOutput>::empty()); },
        }
    }

    /// The claimed program with the highest z-index among the hits.
    fn top_program(&self, hits: &Vec<ProgramId>) -> (r: Option<ProgramId>)
        requires
            self.wf(),
        ensures
            r == top_program(self@, hits@),
    {
        let mut best: Option<(ProgramId, usize)> = None;
        let mut i: usize = 0;
        while i < hits.len()
            invariant
                self.wf(),
                i <= hits@.len(),
                match best {
                    Some((b, z)) => top_program(self@, hits@.subrange(0, i as int)) == Some(b)
                        && self@.claims.dom().contains(b.0) && self@.claims[b.0].z_index == z,
                    None => top_program(self@, hits@.subrange(0, i as int)) == None::<ProgramId>,
                },
            decreases hits@.len() - i,
        {
            let x = hits[i];
            assert(hits@.subrange(0, i + 1).drop_last() =~= hits@.subrange(0, i as int));
            let ghost cm = self.claims.map();
            match self.claims.get(x.0) {
                Some(cl) => {
                    proof { lemma_claim_map_lookup(cm, x.0); }
                    let z = cl.z_index;
                    match best {
                        Some((_b, bz)) => {
                            if z >= bz {
                                best = Some((x, z));
                            }
                        },
                        None => {
                            best = Some((x, z));
                        },
                    }
                },
                None => {},
            }
            i = i + 1;
        }
        assert(hits@.subrange(0, hits@.len() as int) =~= hits@);
        match best {
            Some((b, _)) => Some(b),
            None => None,
        }
    }

    /// The top hit control claim of a program.
    fn top_control(p: ProgramId, claims: &Vec<(u128, usize)>, hits: &Vec<(ProgramId, ControlId)>) -> (r: Option<(u128, usize)>)
        ensures
            r == top_control(p, claims@, hits@),
    {
        let mut best: Option<(u128, usize)> = None;
        let mut i: usize = 0;
        while i < claims.len()
            invariant
                i <= claims@.len(),
                best == top_control(p, claims@.subrange(0, i as int), hits@),
            decreases claims@.len() - i,
        {
            let x = claims[i];
            assert(claims@.subrange(0, i + 1).drop_last() =~= claims@.subrange(0, i as int));
            if control_is_hit(hits, p, x.0) {
                match best {
                    Some(b) => {
                        if x.1 >= b.1 {
                            best = Some(x);
                        }
                    },
                    None => {
                        best = Some(x);
                    },
                }
            }
            i = i + 1;
        }
        assert(claims@.subrange(0, claims@.len() as int) =~= claims@);
        best
    }

    /// Moves the pointer target to a program.
    fn move_to_program(&mut self, p: ProgramId, out: &mut Vec<FocusOutput>)
        requires
            old(self).wf(),
        ensures
            final(self).wf(),
            final(self)@ == move_to_program(old(self)@, p).0,
            final(out)@ == old(out)@ + move_to_program(old(self)@, p).1,
    {
        let ghost m = self@;
        let changed = match self.pointer_program {
            Some(op) => op.0 != p.0,
            None => true,
        };
        if changed {
            self.leave_current(out);
            push_one(out, p, FocusSignal::Enter(None));
        }
        self.pointer_program = Some(p);
        assert(out@ =~= old(out)@ + move_to_program(m, p).1);
    }

    /// Leaves the current pointer target.
    fn leave_current(&self, out: &mut Vec<FocusOutput>)
        ensures
            final(out)@ == old(out)@ + leave_current(self@),
    {
        match self.pointer_program {
            Some(op) => {
                push_one(out, op, FocusSignal::Leave(self.pointer_control));
                if self.pointer_control.is_some() {
                    push_one(out, op, FocusSignal::Leave(None));
                }
            },
            None => {},
        }
        assert(out@ =~= old(out)@ + leave_current(self@));
    }

    /// Chooses the pointer target from the hits, unless a button is down.
    fn retarget(&mut self, hits: &Option<PointerHits>, out: &mut Vec<FocusOutput>)
        requires
            old(self).wf(),
        ensures
            final(self).wf(),
            final(self)@ == spec_retarget(old(self)@, *hits).0,
            final(out)@ == old(out)@ + spec_retarget(old(self)@, *hits).1,
    {
        let ghost m = self@;
        if self.lock_count > 0 {
            assert(out@ =~= old(out)@ + Seq::<FocusOutput>::empty());
            return;
        }
        let target = match hits {
            Some(h) => self.top_program(&h.programs),
            None => None,
        };
        match target {
            Some(tp) => self.move_to_program(tp, out),
            None => match self.canvas {
                Some(cv) => self.move_to_program(cv, out),
                None => {
                    self.leave_current(out);
                    self.pointer_program = None;
                },
            },
        }
        let ghost m1 = self@;
        let ghost out1 = out@;
        match (target, hits) {
            (Some(tp), Some(h)) => {
                let ghost cm = self.claims.map();
                let top = match self.claims.get(tp.0) {
                    Some(cl) => {
                        proof { lemma_claim_map_lookup(cm, tp.0); }
                        Self::top_control(tp, &cl.controls, &h.controls)
                    },
                    None => None,
                };
                let new_control = match top {
                    Some(c) => Some(ControlId(c.0)),
                    None => None,
                };
                let same = match (new_control, self.pointer_control) {
                    (Some(a), Some(b)) => a.0 == b.0,
                    (None, None) => true,
                    _ => false,
                };
                if !same {
                    match self.pointer_control {
                        Some(oc) => { push_one(out, tp, FocusSignal::Leave(Some(oc))); },
                        None => {},
                    }
                    match new_control {
                        Some(nc) => { push_one(out, tp, FocusSignal::Enter(Some(nc))); },
                        None => {},
                    }
                    self.pointer_control = new_control;
                }
                proof {
                    assert(m.claims.dom().contains(tp.0)) by { lemma_top_program_claimed(m, h.programs@); }
                }
            },
            _ => {
                self.pointer_control = None;
            },
        }
        assert(out@ =~= old(out)@ + spec_retarget(m, *hits).1);
        assert(self@ =~= spec_retarget(m, *hits).0);
    }

    /// Sets the program that receives events outside every claimed region.
    fn set_canvas(&mut self, p: ProgramId)
        requires
            old(self).wf(),
        ensures
            final(self).wf(),
            final(self)@ == spec_set_canvas(old(self)@, p).0,
    {
        self.canvas = Some(p);
    }

    /// Sends a key event to the control with keyboard focus.
    fn send_to_focus(&self, out: &mut Vec<FocusOutput>)
        ensures
            final(out)@ == old(out)@ + spec_key(self@).1,
    {
        match self.focused {
            Some((p, c)) => { push_one(out, p, FocusSignal::Forward(Some(c))); },
            None => { assert(out@ =~= old(out)@ + Seq::<FocusOutput>::empty()); },
        }
    }

    /// The number of pointer buttons held down, which lock the pointer target.
    pub fn lock_count(&self) -> (n: usize)
        ensures
            n == self@.lock_count,
    {
        self.lock_count
    }

    /// Handles one request: updates the state and returns the signals to deliver, in order.
    ///
    /// The lock count counts the buttons held down, up to `usize::MAX` of them.
    pub fn handle(&mut self, req: FocusRequest) -> (out: Vec<FocusOutput>)
        requires
            old(self).wf(),
            req is ButtonDown ==> old(self)@.lock_count < usize::MAX,
        ensures
            final(self).wf(),
            (final(self)@, out@) == spec_focus_step(old(self)@, req),
    {
        let ghost m = self@;
        let mut out: Vec<FocusOutput> = Vec::new();
        match req {
            FocusRequest::Scale(sc) => {
                self.broadcast(&mut out);
                self.scale = Some(sc);
            },
            FocusRequest::Resize(w, h) => {
                self.broadcast(&mut out);
                self.bounds = Some((w, h));
            },
            FocusRequest::Closed => {
                self.broadcast(&mut out);
            },
            FocusRequest::ButtonDown(hits) => {
                self.retarget(&hits, &mut out);
                assert(self@.lock_count == m.lock_count);
                self.lock_count = self.lock_count + 1;
                self.send_to_pointer(&mut out);
            },
            FocusRequest::ButtonUp => {
                if self.lock_count > 0 {
                    self.lock_count = self.lock_count - 1;
                }
                self.send_to_pointer(&mut out);
            },
            FocusRequest::PointerMoved(hits) => {
                self.retarget(&hits, &mut out);
                self.send_to_pointer(&mut out);
            },
            FocusRequest::Key => {
                self.send_to_focus(&mut out);
            },
            FocusRequest::ProgramStopped(p) => {
                self.program_stopped(p);
            },
            FocusRequest::SetKeyboardFocus(p, c) => {
                self.set_keyboard_focus(p, c, &mut out);
            },
            FocusRequest::SetFollowingControl(p, c, next) => {
                self.set_following_control(p, c, next);
            },
            FocusRequest::SetFollowingSubProgram(p, next) => {
                self.set_following_subprogram(p, next);
            },
            FocusRequest::FocusNext => {
                self.focus_next(&mut out);
            },
            FocusRequest::FocusPrevious => {
                self.focus_previous(&mut out);
            },
            FocusRequest::SetCanvas(p) => {
                self.set_canvas(p);
            },
            FocusRequest::ClaimRegion(p, z) => {
                self.claim(p, None, z, &mut out);
            },
            FocusRequest::ClaimControlRegion(p, c, z) => {
                self.claim(p, Some(c), z, &mut out);
            },
            FocusRequest::RemoveClaim(p) => {
                self.remove_claim(p);
            },
            FocusRequest::RemoveControlClaim(p, c) => {
                self.remove_control_claim(p, c);
            },
        }
        assert(out@ =~= spec_focus_step(m, req).1);
        assert(self@ =~= spec_focus_step(m, req).0);
        out
    }
}


/// Placing `x` before `before` (two different identifiers): `x` is then found first at some
/// position and `before` first at the next one.
proof fn lemma_place_before(s: Seq<u128>, x: u128, before: u128)
    requires
        x != before,
    ensures
        ({
            let r = place_before(s, x, before);
            let i = first_index(r, x);
            &&& is_first_index(r, x, i)
            &&& is_first_index(r, before, i + 1)
        }),
{
    let rest = seq_without(s, x);
    let r = place_before(s, x, before);
    assert(!rest.contains(x)) by { lemma_without_contains(s, x, x); }
    if rest.contains(before) {
        lemma_first_index_exists(rest, before);
        let i = first_index(rest, before);
        assert(r == rest.insert(i, x));
        assert(r[i] == x);
        assert(r[i + 1] == before);
        assert forall|j: int| 0 <= j < i implies #[trigger] r[j] != x by {
            assert(r[j] == rest[j]);
            assert(rest.contains(rest[j]));
        }
        assert(is_first_index(r, x, i));
        lemma_first_index_unique(r, x, i);
        assert forall|j: int| 0 <= j < i + 1 implies #[trigger] r[j] != before by {
            if j < i {
                assert(r[j] == rest[j]);
            }
        }
        assert(is_first_index(r, before, i + 1));
    } else {
        let n = rest.len() as int;
        assert(r =~= rest.push(before).insert(n, x));
        assert(r[n] == x);
        assert(r[n + 1] == before);
        assert forall|j: int| 0 <= j < n implies #[trigger] r[j] != x by {
            assert(r[j] == rest[j]);
            assert(rest.contains(rest[j]));
        }
        assert(is_first_index(r, x, n));
        lemma_first_index_unique(r, x, n);
        assert forall|j: int| 0 <= j < n + 1 implies #[trigger] r[j] != before by {
            if j < n {
                assert(r[j] == rest[j]);
                assert(rest.contains(rest[j]));
            }
        }
        assert(is_first_index(r, before, n + 1));
    }
}

/// After ordering control `c` just before control `next` of a program, moving focus forward
/// from `c` goes to `next`, and moving it back from `next` goes to `c`.
pub proof fn law_following_control_is_next(m: FocusModel, p: ProgramId, c: ControlId, next: ControlId)
    requires
        c != next,
    ensures
        next_control(spec_set_following_control(m, p, c, next).0, Some((p, c))) == Some((p, next)),
        previous_control(spec_set_following_control(m, p, c, next).0, Some((p, next))) == Some((p, c)),
{
    let m2 = spec_set_following_control(m, p, c, next).0;
    let l = place_before(order_or_empty(m.tab_order, p.0), c.0, next.0);
    assert(c.0 != next.0);
    lemma_place_before(order_or_empty(m.tab_order, p.0), c.0, next.0);
    let i = first_index(l, c.0);
    assert(m2.tab_order[p.0] == l);
    assert(l.contains(c.0)) by { assert(l[i] == c.0); }
    assert(l.contains(next.0)) by { assert(l[i + 1] == next.0); }
    lemma_first_index_unique(l, next.0, i + 1);
}

/// Ordering control `c` just before control `next` (two different controls) in a program whose
/// order holds each control once: afterwards the order holds each control once, holds `c`
/// immediately before `next` (`next` is added at the end if it was missing), and keeps the other
/// controls in their relative order; the program is in the keyboard order of programs.
pub proof fn law_set_following_control_order(m: FocusModel, p: ProgramId, c: ControlId, next: ControlId)
    requires
        c != next,
        order_or_empty(m.tab_order, p.0).no_duplicates(),
    ensures
        ({
            let before = order_or_empty(m.tab_order, p.0);
            let m2 = spec_set_following_control(m, p, c, next).0;
            let after = m2.tab_order[p.0];
            &&& m2.tab_order.dom().contains(p.0)
            &&& after.no_duplicates()
            &&& after.contains(c.0) && after.contains(next.0)
            &&& after.index_of(next.0) == after.index_of(c.0) + 1
            &&& !before.contains(next.0) ==> after.last() == next.0
            &&& seq_without(seq_without(after, c.0), next.0) == seq_without(seq_without(before, c.0), next.0)
            &&& m2.program_order.contains(p.0)
        }),
{
    let before = order_or_empty(m.tab_order, p.0);
    let m2 = spec_set_following_control(m, p, c, next).0;
    let after = m2.tab_order[p.0];
    let rest = seq_without(before, c.0);
    assert(c.0 != next.0);
    assert(after == place_before(before, c.0, next.0));
    lemma_without_no_dup(before, c.0);
    assert(!rest.contains(c.0)) by { lemma_without_contains(before, c.0, c.0); }
    lemma_without_absent(rest, c.0);
    lemma_place_before(before, c.0, next.0);
    let i = first_index(after, c.0);
    assert(after[i] == c.0 && after[i + 1] == next.0);
    if rest.contains(next.0) {
        lemma_first_index_exists(rest, next.0);
        let k = first_index(rest, next.0);
        assert(after == rest.insert(k, c.0));
        lemma_without_insert(rest, k, c.0);
        assert(after.no_duplicates()) by {
            assert forall|a: int, b: int| 0 <= a < after.len() && 0 <= b < after.len() && a != b implies after[a] != after[b] by {
                if a == k {
                    assert(rest.contains(after[b])) by {
                        if b < k { assert(after[b] == rest[b]); } else { assert(after[b] == rest[b - 1]); }
                    }
                } else if b == k {
                    assert(rest.contains(after[a])) by {
                        if a < k { assert(after[a] == rest[a]); } else { assert(after[a] == rest[a - 1]); }
                    }
                } else {
                    let ra = if a < k { a } else { a - 1 };
                    let rb = if b < k { b } else { b - 1 };
                    assert(after[a] == rest[ra] && after[b] == rest[rb]);
                }
            }
        }
        assert(before.contains(next.0)) by { lemma_without_contains(before, c.0, next.0); }
    } else {
        let n = rest.len() as int;
        assert(after =~= rest.push(next.0).insert(n, c.0));
        lemma_without_insert(rest.push(next.0), n, c.0);
        lemma_without_push(rest, next.0, c.0);
        lemma_without_push(rest, next.0, next.0);
        lemma_without_absent(rest, next.0);
        assert(after.no_duplicates()) by {
            assert forall|a: int, b: int| 0 <= a < after.len() && 0 <= b < after.len() && a != b implies after[a] != after[b] by {
                if a < n && b < n {
                    assert(after[a] == rest[a] && after[b] == rest[b]);
                } else if a < n {
                    assert(after[a] == rest[a]);
                    assert(rest.contains(rest[a]));
                } else if b < n {
                    assert(after[b] == rest[b]);
                    assert(rest.contains(rest[b]));
                }
            }
        }
        assert(after.last() == next.0);
    }
    lemma_first_index_unique(after, c.0, i);
    lemma_first_index_unique(after, next.0, i + 1);
    assert(after.contains(c.0));
    assert(after.contains(next.0));
    assert(after.index_of(c.0) == i) by {
        let j = after.index_of(c.0);
        assert(after[j] == c.0);
    }
    assert(after.index_of(next.0) == i + 1) by {
        let j = after.index_of(next.0);
        assert(after[j] == next.0);
    }
    if !m.program_order.contains(p.0) {
        assert(m2.program_order[m.program_order.len() as int] == p.0);
    }
}

/// The top program has a z-index at least that of every claimed hit, and there is one whenever
/// some hit is claimed.
proof fn lemma_top_program_is_highest(m: FocusModel, hits: Seq<ProgramId>)
    ensures
        forall|i: int| 0 <= i < hits.len() && m.claims.dom().contains(#[trigger] hits[i].0) ==>
            top_program(m, hits) is Some
            && m.claims[hits[i].0].z_index <= m.claims[(top_program(m, hits)->0).0].z_index,
    decreases hits.len(),
{
    if hits.len() > 0 {
        let pre = hits.drop_last();
        lemma_top_program_is_highest(m, pre);
        lemma_top_program_claimed(m, pre);
        assert forall|i: int| 0 <= i < hits.len() && m.claims.dom().contains(#[trigger] hits[i].0) implies
            top_program(m, hits) is Some
            && m.claims[hits[i].0].z_index <= m.claims[(top_program(m, hits)->0).0].z_index by {
            if i < hits.len() - 1 {
                assert(pre[i] == hits[i]);
            }
        }
    }
}

/// When no button is down, a press or a move over claimed regions makes the claimed hit program
/// with the highest z-index the pointer target (it is entered if it was not the target already),
/// and that program is sent the event.
pub proof fn law_pointer_goes_to_highest_claim(m: FocusModel, h: PointerHits, i: int, press: bool)
    requires
        m.lock_count == 0,
        0 <= i < h.programs@.len(),
        m.claims.dom().contains(h.programs@[i].0),
    ensures
        ({
            let req = if press { FocusRequest::ButtonDown(Some(h)) } else { FocusRequest::PointerMoved(Some(h)) };
            let (after, out) = spec_focus_step(m, req);
            &&& after.pointer_program is Some
            &&& h.programs@.contains(after.pointer_program->0)
            &&& m.claims.dom().contains((after.pointer_program->0).0)
            &&& m.claims[h.programs@[i].0].z_index <= m.claims[(after.pointer_program->0).0].z_index
            &&& m.pointer_program != after.pointer_program ==>
                out.contains(FocusOutput { target: after.pointer_program->0, signal: FocusSignal::Enter(None) })
            &&& out.len() > 0
            &&& out.last() == FocusOutput { target: after.pointer_program->0, signal: FocusSignal::Forward(after.pointer_control) }
        }),
{
    lemma_top_program_is_highest(m, h.programs@);
    lemma_top_program_claimed(m, h.programs@);
    let tp = top_program(m, h.programs@)->0;
    let (m1, out1) = move_to_program(m, tp);
    if m.pointer_program != Some(tp) {
        let lc = leave_current(m);
        assert(out1[lc.len() as int] == FocusOutput { target: tp, signal: FocusSignal::Enter(None) });
    }
    let (r, out_r) = spec_retarget(m, Some(h));
    assert(r.pointer_program == Some(tp));
    assert(out_r.len() >= out1.len() && out_r.subrange(0, out1.len() as int) == out1);
    if m.pointer_program != Some(tp) {
        let lc = leave_current(m);
        assert(out_r[lc.len() as int] == out1[lc.len() as int]);
    }
    if press {
        let m2 = FocusModel { lock_count: r.lock_count + 1, ..r };
        let (after, out) = spec_focus_step(m, FocusRequest::ButtonDown(Some(h)));
        assert(out == out_r + to_pointer(m2));
        if m.pointer_program != Some(tp) {
            let lc = leave_current(m);
            assert(out[lc.len() as int] == out_r[lc.len() as int]);
        }
    } else {
        let (after, out) = spec_focus_step(m, FocusRequest::PointerMoved(Some(h)));
        assert(out == out_r + to_pointer(r));
        if m.pointer_program != Some(tp) {
            let lc = leave_current(m);
            assert(out[lc.len() as int] == out_r[lc.len() as int]);
        }
    }
}

/// While a button is down the pointer target does not change: other pointer events go to it.
pub proof fn law_locked_pointer_target(m: FocusModel, hits: Option<PointerHits>)
    requires
        m.lock_count > 0,
    ensures
        spec_pointer_moved(m, hits).0 == m,
        spec_pointer_moved(m, hits).1 == to_pointer(m),
{
    assert(Seq::<FocusOutput>::empty() + to_pointer(m) =~= to_pointer(m));
}

/// Moving keyboard focus tells the control that had it first, then the control that gets it.
pub proof fn law_focus_moves_in_order(m: FocusModel, p: ProgramId, c: ControlId, op: ProgramId, oc: ControlId)
    requires
        m.focused == Some((op, oc)),
    ensures
        spec_set_keyboard_focus(m, p, c).1 == seq![
            FocusOutput { target: op, signal: FocusSignal::Unfocused(oc) },
            FocusOutput { target: p, signal: FocusSignal::Focused(c) },
        ],
        spec_set_keyboard_focus(m, p, c).0.focused == Some((p, c)),
{
    assert(spec_set_keyboard_focus(m, p, c).1 =~= seq![
        FocusOutput { target: op, signal: FocusSignal::Unfocused(oc) },
        FocusOutput { target: p, signal: FocusSignal::Focused(c) },
    ]);
}
} // verus!
