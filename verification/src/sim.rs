//! The bookkeeping of the physics simulation.
//!
//! The host runs the rigid-body engine. This module keeps track of which
//! simulated object owns which body, collider, anchor and joints, decides what
//! must be created or removed when objects and joints come and go, which pairs
//! of objects collide, when the timer sleeps and wakes, and how many fixed
//! steps each tick of the clock runs.

use vstd::prelude::*;
use crate::ids::{SimObjectId, SimJointId};
use crate::table::Table;
use crate::lists::{seq_without, vec_without, vec_clone_u128, seq_insert_unique, vec_insert_unique};

verus! {

/// The length of one simulation step, in nanoseconds (a sixtieth of a second, to the microsecond).
pub const TICK_NANOS: u128 = 16_666_000;

/// The most steps that one tick of the clock runs.
pub const MAX_TICKS: u128 = 30;

/// A rigid body of the engine (its index and generation packed into one number).
#[derive(Clone, Copy, Debug, PartialEq, Eq, Structural, Hash)]
pub struct BodyHandle(pub u64);

/// A collider of the engine.
#[derive(Clone, Copy, Debug, PartialEq, Eq, Structural, Hash)]
pub struct ColliderHandle(pub u64);

/// A joint of the engine.
#[derive(Clone, Copy, Debug, PartialEq, Eq, Structural, Hash)]
pub struct JointHandle(pub u64);

/// How an object takes part in the simulation.
#[derive(Clone, Copy, Debug, PartialEq, Eq, Structural)]
pub enum SimObjectType {
    /// An object that does not move
    Static,
    /// An object moved by the simulation (pulled towards its position by a spring)
    Dynamic,
    /// An object whose position is set directly
    Kinematic,
}

/// What is known of one simulated object.
pub struct SimObject {
    pub object_id: SimObjectId,
    pub rigid_body_handle: BodyHandle,
    pub collider_handle: Option<ColliderHandle>,
    pub is_new: bool,
    pub body_type: SimObjectType,
    pub anchor_joint: Option<(BodyHandle, JointHandle)>,
    pub joints: Vec<u128>,
}

/// The mathematical view of one simulated object.
pub struct SimObjectModel {
    pub object_id: SimObjectId,
    pub rigid_body_handle: BodyHandle,
    pub collider_handle: Option<ColliderHandle>,
    pub is_new: bool,
    pub body_type: SimObjectType,
    pub anchor_joint: Option<(BodyHandle, JointHandle)>,
    pub joints: Seq<u128>,
}

impl SimObject {
    pub open spec fn model(self) -> SimObjectModel {
        SimObjectModel {
            object_id: self.object_id,
            rigid_body_handle: self.rigid_body_handle,
            collider_handle: self.collider_handle,
            is_new: self.is_new,
            body_type: self.body_type,
            anchor_joint: self.anchor_joint,
            joints: self.joints@,
        }
    }

    /// A new object: a kinematic body with no collider, anchor or joints.
    pub fn kinematic_position_based(object_id: SimObjectId, rigid_body_handle: BodyHandle) -> (o: Self)
        ensures
            o.model() == (SimObjectModel {
                object_id: object_id,
                rigid_body_handle: rigid_body_handle,
                collider_handle: None,
                is_new: true,
                body_type: SimObjectType::Kinematic,
                anchor_joint: None,
                joints: Seq::empty(),
            }),
    {
        let o = SimObject {
            object_id,
            rigid_body_handle,
            collider_handle: None,
            is_new: true,
            body_type: SimObjectType::Kinematic,
            anchor_joint: None,
            joints: Vec::new(),
        };
        assert(o.joints@ =~= Seq::<u128>::empty());
        o
    }
}

/// The table of objects as a map of object models.
pub open spec fn object_map(m: Map<u128, SimObject>) -> Map<u128, SimObjectModel> {
    m.map_values(|o: SimObject| o.model())
}

/// The objects of a simulation, found by identifier or by the handle of their body.
pub struct SimObjectCollection {
    bodies: Table<SimObject>,
    id_for_handle: Table<u128>,
}

/// The mathematical view of the collection.
pub struct CollectionModel {
    /// The objects, by identifier
    pub bodies: Map<u128, SimObjectModel>,
    /// The object that each body handle belongs to
    pub id_for_handle: Map<u128, u128>,
}

impl View for SimObjectCollection {
    type V = CollectionModel;

    closed spec fn view(&self) -> CollectionModel {
        CollectionModel { bodies: object_map(self.bodies.map()), id_for_handle: self.id_for_handle.map() }
    }
}

/// The key under which a body handle is filed.
pub open spec fn handle_key(h: BodyHandle) -> u128 {
    h.0 as u128
}

/// The object that owns a body, if the handle and its object are both known.
pub open spec fn spec_by_handle(c: CollectionModel, h: BodyHandle) -> Option<SimObjectModel> {
    if c.id_for_handle.dom().contains(handle_key(h)) && c.bodies.dom().contains(c.id_for_handle[handle_key(h)]) {
        Some(c.bodies[c.id_for_handle[handle_key(h)]])
    } else {
        None
    }
}

proof fn lemma_object_map_insert(m: Map<u128, SimObject>, k: u128, v: SimObject)
    ensures
        object_map(m.insert(k, v)) == object_map(m).insert(k, v.model()),
{
    assert(object_map(m.insert(k, v)) =~= object_map(m).insert(k, v.model()));
}

proof fn lemma_object_map_remove(m: Map<u128, SimObject>, k: u128)
    ensures
        object_map(m.remove(k)) == object_map(m).remove(k),
{
    assert(object_map(m.remove(k)) =~= object_map(m).remove(k));
}

impl SimObjectCollection {
    /// The tables are well formed.
    pub closed spec fn wf(self) -> bool {
        self.bodies.wf() && self.id_for_handle.wf()
    }

    /// An empty collection.
    pub fn new() -> (c: Self)
        ensures
            c.wf(),
            c@.bodies == Map::<u128, SimObjectModel>::empty(),
            c@.id_for_handle == Map::<u128, u128>::empty(),
    {
        let c = SimObjectCollection { bodies: Table::new(), id_for_handle: Table::new() };
        assert(c@.bodies =~= Map::<u128, SimObjectModel>::empty());
        c
    }

    /// Adds (or replaces) an object, and files its body handle.
    pub fn insert(&mut self, object_id: SimObjectId, object: SimObject)
        requires
            old(self).wf(),
        ensures
            final(self).wf(),
            final(self)@.bodies == old(self)@.bodies.insert(object_id.0, object.model()),
            final(self)@.id_for_handle == old(self)@.id_for_handle.insert(handle_key(object.rigid_body_handle), object_id.0),
    {
        let handle = object.rigid_body_handle;
        let ghost om = self.bodies.map();
        let ghost ob = object;
        self.bodies.insert(object_id.0, object);
        proof { lemma_object_map_insert(om, object_id.0, ob); }
        self.id_for_handle.insert(handle.0 as u128, object_id.0);
    }

    /// The object with the given identifier.
    pub fn get(&self, object_id: SimObjectId) -> (r: Option<&SimObject>)
        requires
            self.wf(),
        ensures
            match r {
                Some(o) => self@.bodies.dom().contains(object_id.0) && o.model() == self@.bodies[object_id.0],
                None => !self@.bodies.dom().contains(object_id.0),
            },
    {
        self.bodies.get(object_id.0)
    }

    /// Removes an object and forgets its body handle.
    pub fn remove(&mut self, object_id: SimObjectId) -> (r: Option<SimObject>)
        requires
            old(self).wf(),
        ensures
            final(self).wf(),
            match r {
                Some(o) => old(self)@.bodies.dom().contains(object_id.0)
                    && o.model() == old(self)@.bodies[object_id.0]
                    && final(self)@.bodies == old(self)@.bodies.remove(object_id.0)
                    && final(self)@.id_for_handle == old(self)@.id_for_handle.remove(handle_key(o.rigid_body_handle)),
                None => !old(self)@.bodies.dom().contains(object_id.0) && final(self)@ == old(self)@,
            },
    {
        let ghost om = self.bodies.map();
        let removed = self.bodies.remove(object_id.0);
        proof { lemma_object_map_remove(om, object_id.0); }
        match removed {
            Some(o) => {
                self.id_for_handle.remove(o.rigid_body_handle.0 as u128);
                Some(o)
            },
            None => {
                assert(om.remove(object_id.0) =~= om);
                None
            },
        }
    }

    /// The object that owns a body.
    pub fn get_by_handle(&self, handle: BodyHandle) -> (r: Option<&SimObject>)
        requires
            self.wf(),
        ensures
            match r {
                Some(o) => spec_by_handle(self@, handle) == Some(o.model()),
                None => spec_by_handle(self@, handle).is_none(),
            },
    {
        match self.id_for_handle.get(handle.0 as u128) {
            Some(id) => self.bodies.get(*id),
            None => None,
        }
    }

    /// Replaces the list of joints of an object, if it is present.
    fn set_joints(&mut self, object_id: u128, joints: Vec<u128>)
        requires
            old(self).wf(),
        ensures
            final(self).wf(),
            final(self)@.id_for_handle == old(self)@.id_for_handle,
            final(self)@.bodies == (if old(self)@.bodies.dom().contains(object_id) {
                old(self)@.bodies.insert(object_id, SimObjectModel { joints: joints@, ..old(self)@.bodies[object_id] })
            } else {
                old(self)@.bodies
            }),
    {
        let ghost om = self.bodies.map();
        let updated = match self.bodies.get(object_id) {
            Some(o) => Some(SimObject {
                object_id: o.object_id,
                rigid_body_handle: o.rigid_body_handle,
                collider_handle: o.collider_handle,
                is_new: o.is_new,
                body_type: o.body_type,
                anchor_joint: o.anchor_joint,
                joints: joints,
            }),
            None => None,
        };
        match updated {
            Some(u) => {
                let ghost uu = u;
                self.bodies.insert(object_id, u);
                proof { lemma_object_map_insert(om, object_id, uu); }
            },
            None => {},
        }
    }
}

/// Two objects collide unless either lists the other among the objects it does not collide with.
pub open spec fn spec_pair_collides(id1: u128, exclusions1: Option<Seq<SimObjectId>>, id2: u128, exclusions2: Option<Seq<SimObjectId>>) -> bool {
    !(match exclusions1 { Some(e) => e.contains(SimObjectId(id2)), None => false })
        && !(match exclusions2 { Some(e) => e.contains(SimObjectId(id1)), None => false })
}

/// True if the list holds the object.
fn list_holds(e: &Vec<SimObjectId>, other: u128) -> (r: bool)
    ensures
        r == e@.contains(SimObjectId(other)),
{
    let mut i: usize = 0;
    while i < e.len()
        invariant
            i <= e@.len(),
            forall|j: int| 0 <= j < i ==> #[trigger] e@[j] != SimObjectId(other),
        decreases e@.len() - i,
    {
        if e[i].0 == other {
            assert(e@[i as int] == SimObjectId(other));
            return true;
        }
        i = i + 1;
    }
    false
}

/// True if the optional list holds the object.
fn excludes(exclusions: &Option<Vec<SimObjectId>>, other: u128) -> (r: bool)
    ensures
        r == (match *exclusions { Some(e) => e@.contains(SimObjectId(other)), None => false }),
{
    match exclusions {
        Some(e) => list_holds(e, other),
        None => false,
    }
}

/// Decides whether two objects of a contact or intersection pair collide, given the
/// objects each of them excludes.
pub fn pair_collides(id1: SimObjectId, exclusions1: &Option<Vec<SimObjectId>>, id2: SimObjectId, exclusions2: &Option<Vec<SimObjectId>>) -> (r: bool)
    ensures
        r == spec_pair_collides(id1.0, match *exclusions1 { Some(e) => Some(e@), None => None },
            id2.0, match *exclusions2 { Some(e) => Some(e@), None => None }),
{
    !excludes(exclusions1, id2.0) && !excludes(exclusions2, id1.0)
}

/// Whether collider pair filtering is on for a body type (it is off for static objects).
pub open spec fn spec_filters_pairs(t: SimObjectType) -> bool {
    t != SimObjectType::Static
}

/// Whether the colliders of a body of this type ask to filter their contact and intersection pairs.
pub fn filters_pairs(t: SimObjectType) -> (r: bool)
    ensures
        r == spec_filters_pairs(t),
{
    match t {
        SimObjectType::Static => false,
        SimObjectType::Dynamic => true,
        SimObjectType::Kinematic => true,
    }
}


impl SimObject {
    /// Attaches a new collider, returning the one it replaces (which the host removes).
    /// The host turns pair filtering on for the new collider when `filters_pairs` holds of the body type.
    pub fn set_collider_handle(&mut self, collider: ColliderHandle) -> (old_collider: Option<ColliderHandle>)
        ensures
            old_collider == old(self).collider_handle,
            final(self).model() == (SimObjectModel { collider_handle: Some(collider), ..old(self).model() }),
    {
        let old_collider = self.collider_handle;
        self.collider_handle = Some(collider);
        old_collider
    }
}

/// A joint between two bodies.
#[derive(Clone, Copy, Debug, PartialEq, Eq, Structural)]
pub struct JointEntry {
    pub handle: JointHandle,
    pub body1: BodyHandle,
    pub body2: BodyHandle,
}

/// What the host removes from the engine when an object goes.
pub struct RemovedBody {
    /// The body of the object
    pub body: BodyHandle,
    /// The joints that were attached to it, in the order they were added
    pub joints: Vec<JointHandle>,
    /// The anchor body and spring that pulled it towards its position
    pub anchor: Option<(BodyHandle, JointHandle)>,
}

/// How the host moves an object's body when its desired position changes.
#[derive(Clone, Copy, Debug, PartialEq, Eq, Structural)]
pub struct PositionPlan {
    /// The body of the object
    pub body: BodyHandle,
    /// Teleport the body there (a new object)
    pub set_position_now: bool,
    /// Make it the next kinematic position and wake the body (a kinematic object that is not new)
    pub set_kinematic_target: bool,
    /// The existing anchor to move there; `None` when the host must create the anchor and spring
    pub anchor: Option<BodyHandle>,
}

/// What the host does at the end of a tick.
#[derive(Clone, Copy, Debug, PartialEq, Eq, Structural)]
pub struct TickEnd {
    /// Send the step event (one or more steps were simulated)
    pub send_step: bool,
    /// Send the sleep event
    pub send_sleep: bool,
    /// Cancel the timer
    pub cancel_timer: bool,
}

/// The mathematical view of the simulation's bookkeeping.
pub struct SimulationModel {
    pub objects: CollectionModel,
    pub joints: Map<u128, JointEntry>,
    pub recently_changed: Seq<u128>,
    pub new_objects: Seq<u128>,
    pub manage_timer: bool,
    pub timer_awake: bool,
    pub is_asleep: bool,
    pub last_step_time: u128,
}

/// The bookkeeping of a physics simulation.
pub struct SimulationState {
    objects: SimObjectCollection,
    joints: Table<JointEntry>,
    recently_changed: Vec<u128>,
    new_objects: Vec<u128>,
    manage_timer: bool,
    timer_awake: bool,
    is_asleep: bool,
    last_step_time: u128,
}

impl View for SimulationState {
    type V = SimulationModel;

    closed spec fn view(&self) -> SimulationModel {
        SimulationModel {
            objects: self.objects@,
            joints: self.joints.map(),
            recently_changed: self.recently_changed@,
            new_objects: self.new_objects@,
            manage_timer: self.manage_timer,
            timer_awake: self.timer_awake,
            is_asleep: self.is_asleep,
            last_step_time: self.last_step_time,
        }
    }
}

/// Creating a body: the object is filed as a new kinematic object.
pub open spec fn spec_create_rigid_body(m: SimulationModel, id: SimObjectId, h: BodyHandle) -> SimulationModel {
    SimulationModel {
        objects: CollectionModel {
            bodies: m.objects.bodies.insert(id.0, SimObjectModel {
                object_id: id,
                rigid_body_handle: h,
                collider_handle: None,
                is_new: true,
                body_type: SimObjectType::Kinematic,
                anchor_joint: None,
                joints: Seq::empty(),
            }),
            id_for_handle: m.objects.id_for_handle.insert(handle_key(h), id.0),
        },
        new_objects: seq_insert_unique(m.new_objects, id.0),
        ..m
    }
}

/// Waking the timer: it is asked for ticks if this simulation manages it and it is asleep.
pub open spec fn spec_wake_timer(m: SimulationModel) -> (SimulationModel, bool) {
    if m.manage_timer && !m.timer_awake {
        (SimulationModel { timer_awake: true, ..m }, true)
    } else {
        (m, false)
    }
}

/// Marking an object as changed, so that the next tick reads its bindings.
pub open spec fn spec_object_changed(m: SimulationModel, id: SimObjectId) -> SimulationModel {
    SimulationModel { recently_changed: seq_insert_unique(m.recently_changed, id.0), ..m }
}

/// Changing the body type of an object, if it exists.
pub open spec fn spec_set_body_type(m: SimulationModel, id: SimObjectId, t: SimObjectType) -> SimulationModel {
    if m.objects.bodies.dom().contains(id.0) {
        SimulationModel {
            objects: CollectionModel {
                bodies: m.objects.bodies.insert(id.0, SimObjectModel { body_type: t, ..m.objects.bodies[id.0] }),
                ..m.objects
            },
            ..m
        }
    } else {
        m
    }
}

/// Changing the collider of an object, if it exists.
pub open spec fn spec_set_collider(m: SimulationModel, id: SimObjectId, c: Option<ColliderHandle>) -> SimulationModel {
    if m.objects.bodies.dom().contains(id.0) {
        SimulationModel {
            objects: CollectionModel {
                bodies: m.objects.bodies.insert(id.0, SimObjectModel { collider_handle: c, ..m.objects.bodies[id.0] }),
                ..m.objects
            },
            ..m
        }
    } else {
        m
    }
}

/// The objects with a joint appended to their list, when they exist.
pub open spec fn add_joint_to(c: CollectionModel, id: u128, j: u128) -> CollectionModel {
    if c.bodies.dom().contains(id) {
        CollectionModel {
            bodies: c.bodies.insert(id, SimObjectModel { joints: c.bodies[id].joints.push(j), ..c.bodies[id] }),
            ..c
        }
    } else {
        c
    }
}

/// Recording a joint between two objects: it is filed, and added to the list of each object.
pub open spec fn spec_record_joint(m: SimulationModel, j: SimJointId, o1: SimObjectId, o2: SimObjectId, handle: JointHandle) -> SimulationModel {
    SimulationModel {
        joints: m.joints.insert(j.0, JointEntry {
            handle: handle,
            body1: m.objects.bodies[o1.0].rigid_body_handle,
            body2: m.objects.bodies[o2.0].rigid_body_handle,
        }),
        objects: add_joint_to(add_joint_to(m.objects, o1.0, j.0), o2.0, j.0),
        ..m
    }
}

/// The objects after a joint is taken out of the list of the object that owns a body (if any).
pub open spec fn unlink_joint(c: CollectionModel, h: BodyHandle, j: u128) -> CollectionModel {
    if c.id_for_handle.dom().contains(handle_key(h)) && c.bodies.dom().contains(c.id_for_handle[handle_key(h)]) {
        let id = c.id_for_handle[handle_key(h)];
        CollectionModel {
            bodies: c.bodies.insert(id, SimObjectModel { joints: seq_without(c.bodies[id].joints, j), ..c.bodies[id] }),
            ..c
        }
    } else {
        c
    }
}

/// Removing a joint: it leaves the lists of the objects at both of its ends, and the table.
pub open spec fn spec_remove_joint(m: SimulationModel, j: SimJointId) -> (SimulationModel, Option<JointHandle>) {
    if m.joints.dom().contains(j.0) {
        let e = m.joints[j.0];
        (
            SimulationModel {
                objects: unlink_joint(unlink_joint(m.objects, e.body1, j.0), e.body2, j.0),
                joints: m.joints.remove(j.0),
                ..m
            },
            Some(e.handle),
        )
    } else {
        (m, None)
    }
}

/// Going through the joints of a body that is removed, in order: each joint still filed is
/// taken out of the table, its handle is collected, and the body at its other end is noted.
pub open spec fn detach_joints(joints: Map<u128, JointEntry>, body: BodyHandle, js: Seq<u128>)
    -> (Map<u128, JointEntry>, Seq<(BodyHandle, u128)>, Seq<JointHandle>)
    decreases js.len(),
{
    if js.len() == 0 {
        (joints, Seq::empty(), Seq::empty())
    } else {
        let (jm, others, handles) = detach_joints(joints, body, js.drop_last());
        let j = js.last();
        if jm.dom().contains(j) {
            let e = jm[j];
            (jm.remove(j), others.push((if e.body1 != body { e.body1 } else { e.body2 }, j)), handles.push(e.handle))
        } else {
            (jm, others, handles)
        }
    }
}

/// Taking each noted joint out of the list of the object at its other end.
pub open spec fn unlink_all(c: CollectionModel, others: Seq<(BodyHandle, u128)>) -> CollectionModel
    decreases others.len(),
{
    if others.len() == 0 {
        c
    } else {
        let (h, j) = others.last();
        unlink_joint(unlink_all(c, others.drop_last()), h, j)
    }
}

/// Removing an object: its joints are detached, it is forgotten, and the objects at the
/// other ends of its joints forget those joints.
pub open spec fn spec_remove_rigid_body(m: SimulationModel, id: SimObjectId) -> SimulationModel {
    if m.objects.bodies.dom().contains(id.0) {
        let o = m.objects.bodies[id.0];
        let (jm, others, _handles) = detach_joints(m.joints, o.rigid_body_handle, o.joints);
        let removed = CollectionModel {
            bodies: m.objects.bodies.remove(id.0),
            id_for_handle: m.objects.id_for_handle.remove(handle_key(o.rigid_body_handle)),
        };
        SimulationModel { objects: unlink_all(removed, others), joints: jm, ..m }
    } else {
        m
    }
}

/// The position plan for an object.
pub open spec fn spec_position_plan(o: SimObjectModel) -> PositionPlan {
    PositionPlan {
        body: o.rigid_body_handle,
        set_position_now: o.is_new,
        set_kinematic_target: !o.is_new && o.body_type == SimObjectType::Kinematic,
        anchor: match o.anchor_joint { Some((a, _)) => Some(a), None => None },
    }
}

/// Recording a new anchor and spring for an object, if it exists.
pub open spec fn spec_record_anchor(m: SimulationModel, id: SimObjectId, anchor: BodyHandle, spring: JointHandle) -> SimulationModel {
    if m.objects.bodies.dom().contains(id.0) {
        SimulationModel {
            objects: CollectionModel {
                bodies: m.objects.bodies.insert(id.0, SimObjectModel { anchor_joint: Some((anchor, spring)), ..m.objects.bodies[id.0] }),
                ..m.objects
            },
            ..m
        }
    } else {
        m
    }
}

/// The time of the last step brought back to one tick before `time` (or to zero).
pub open spec fn rewound(time: u128) -> u128 {
    if time >= TICK_NANOS { (time - TICK_NANOS) as u128 } else { time }
}

/// The clock at the start of a tick: a sleeping simulation wakes one tick behind, and a clock
/// that went backwards is brought back to one tick behind.
pub open spec fn tick_start_time(m: SimulationModel, time: u128) -> u128 {
    let last = if m.is_asleep { rewound(time) } else { m.last_step_time };
    if time < last { rewound(time) } else { last }
}

/// The objects among `ids` that are still filed, in order.
pub open spec fn filed_objects(c: CollectionModel, ids: Seq<u128>) -> Seq<u128>
    decreases ids.len(),
{
    if ids.len() == 0 {
        ids
    } else if c.bodies.dom().contains(ids.last()) {
        filed_objects(c, ids.drop_last()).push(ids.last())
    } else {
        filed_objects(c, ids.drop_last())
    }
}

/// Starting a tick: the clock is set up and the changed objects are handed out (those still filed).
pub open spec fn spec_begin_tick(m: SimulationModel, time: u128) -> (SimulationModel, Seq<u128>) {
    (
        SimulationModel {
            is_asleep: false,
            last_step_time: tick_start_time(m, time),
            recently_changed: Seq::empty(),
            ..m
        },
        filed_objects(m.objects, m.recently_changed),
    )
}

/// The objects with the given ones no longer new.
pub open spec fn not_new(c: CollectionModel, ids: Seq<u128>) -> CollectionModel
    decreases ids.len(),
{
    if ids.len() == 0 {
        c
    } else {
        let c1 = not_new(c, ids.drop_last());
        let id = ids.last();
        if c1.bodies.dom().contains(id) {
            CollectionModel { bodies: c1.bodies.insert(id, SimObjectModel { is_new: false, ..c1.bodies[id] }), ..c1 }
        } else {
            c1
        }
    }
}

/// After the changed objects are updated, the new objects are new no longer.
pub open spec fn spec_finish_new_objects(m: SimulationModel) -> SimulationModel {
    SimulationModel { objects: not_new(m.objects, m.new_objects), new_objects: Seq::empty(), ..m }
}

/// The number of whole ticks from `last` to `time`.
pub open spec fn whole_ticks(last: u128, time: u128) -> int {
    (time - last) / (TICK_NANOS as int)
}

/// Running the steps of a tick: as many whole ticks as fit (at most `MAX_TICKS`; past that the
/// remaining time is skipped).
pub open spec fn spec_run_steps(m: SimulationModel, time: u128) -> (SimulationModel, u128) {
    let k = whole_ticks(m.last_step_time, time);
    if k >= MAX_TICKS {
        (SimulationModel { last_step_time: time, ..m }, MAX_TICKS)
    } else {
        (SimulationModel { last_step_time: (m.last_step_time + k * TICK_NANOS) as u128, ..m }, k as u128)
    }
}

/// Ending a tick that ran `steps` steps: the step event is sent when at least one step ran;
/// when no body is awake the sleep event is sent, the simulation goes to sleep (so the next
/// tick starts one tick behind its time and runs no catch-up steps), and a managed timer that
/// is awake is cancelled.
pub open spec fn spec_end_tick(m: SimulationModel, some_awake: bool, steps: u128) -> (SimulationModel, TickEnd) {
    let send_step = steps > 0;
    if some_awake {
        (m, TickEnd { send_step, send_sleep: false, cancel_timer: false })
    } else if m.manage_timer && m.timer_awake {
        (SimulationModel { timer_awake: false, is_asleep: true, ..m }, TickEnd { send_step, send_sleep: true, cancel_timer: true })
    } else {
        (SimulationModel { is_asleep: true, ..m }, TickEnd { send_step, send_sleep: true, cancel_timer: false })
    }
}


impl SimulationState {
    /// The tables are well formed.
    pub closed spec fn wf(self) -> bool {
        self.objects.wf() && self.joints.wf()
    }

    /// A simulation with nothing in it, asleep at time zero, whose timer is not running.
    pub fn new(manage_timer: bool) -> (s: Self)
        ensures
            s.wf(),
            s@.objects.bodies == Map::<u128, SimObjectModel>::empty(),
            s@.objects.id_for_handle == Map::<u128, u128>::empty(),
            s@.joints == Map::<u128, JointEntry>::empty(),
            s@.recently_changed == Seq::<u128>::empty(),
            s@.new_objects == Seq::<u128>::empty(),
            s@.manage_timer == manage_timer,
            !s@.timer_awake,
            s@.is_asleep,
            s@.last_step_time == 0,
    {
        SimulationState {
            objects: SimObjectCollection::new(),
            joints: Table::new(),
            recently_changed: Vec::new(),
            new_objects: Vec::new(),
            manage_timer,
            timer_awake: false,
            is_asleep: true,
            last_step_time: 0,
        }
    }

    /// The objects of the simulation.
    pub fn objects(&self) -> (c: &SimObjectCollection)
        requires
            self.wf(),
        ensures
            c.wf(),
            c@ == self@.objects,
    {
        &self.objects
    }

    /// Files a body that the host created for an object.
    pub fn create_rigid_body(&mut self, object_id: SimObjectId, handle: BodyHandle)
        requires
            old(self).wf(),
        ensures
            final(self).wf(),
            final(self)@ == spec_create_rigid_body(old(self)@, object_id, handle),
    {
        let object = SimObject::kinematic_position_based(object_id, handle);
        self.objects.insert(object_id, object);
        vec_insert_unique(&mut self.new_objects, object_id.0);
    }

    /// Wakes the timer if this simulation manages it and it sleeps; true if the host must ask for ticks.
    pub fn wake_timer(&mut self) -> (ask: bool)
        requires
            old(self).wf(),
        ensures
            final(self).wf(),
            (final(self)@, ask) == spec_wake_timer(old(self)@),
    {
        if self.manage_timer && !self.timer_awake {
            self.timer_awake = true;
            true
        } else {
            false
        }
    }

    /// Notes that the bindings of an object changed.
    pub fn object_changed(&mut self, object_id: SimObjectId)
        requires
            old(self).wf(),
        ensures
            final(self).wf(),
            final(self)@ == spec_object_changed(old(self)@, object_id),
    {
        vec_insert_unique(&mut self.recently_changed, object_id.0);
    }

    /// Replaces the record of an object that is filed, keeping the handle table.
    fn replace_object(&mut self, object_id: SimObjectId, o: SimObject)
        requires
            old(self).wf(),
            old(self)@.objects.bodies.dom().contains(object_id.0),
            o.rigid_body_handle == old(self)@.objects.bodies[object_id.0].rigid_body_handle,
            o.object_id == old(self)@.objects.bodies[object_id.0].object_id,
        ensures
            final(self).wf(),
            final(self)@ == (SimulationModel {
                objects: CollectionModel {
                    bodies: old(self)@.objects.bodies.insert(object_id.0, o.model()),
                    ..old(self)@.objects
                },
                ..old(self)@
            }),
    {
        let ghost m = self@;
        let ghost om = self.objects.bodies.map();
        let ghost oo = o;
        proof {
            self.objects.bodies.lemma_dom();
        }
        self.objects.bodies.insert(object_id.0, o);
        proof { lemma_object_map_insert(om, object_id.0, oo); }
        assert(self@.objects.id_for_handle == m.objects.id_for_handle);
    }

    /// A copy of an object's record with other values for some fields.
    fn copy_object(o: &SimObject) -> (r: SimObject)
        ensures
            r.model() == o.model(),
    {
        SimObject {
            object_id: o.object_id,
            rigid_body_handle: o.rigid_body_handle,
            collider_handle: o.collider_handle,
            is_new: o.is_new,
            body_type: o.body_type,
            anchor_joint: o.anchor_joint,
            joints: vec_clone_u128(&o.joints),
        }
    }

    /// Changes the body type of an object; returns its body and collider for the host to update.
    pub fn set_body_type(&mut self, object_id: SimObjectId, t: SimObjectType) -> (r: Option<(BodyHandle, Option<ColliderHandle>)>)
        requires
            old(self).wf(),
        ensures
            final(self).wf(),
            final(self)@ == spec_set_body_type(old(self)@, object_id, t),
            r == (if old(self)@.objects.bodies.dom().contains(object_id.0) {
                Some((old(self)@.objects.bodies[object_id.0].rigid_body_handle, old(self)@.objects.bodies[object_id.0].collider_handle))
            } else {
                None
            }),
    {
        let ghost m = self@;
        let updated = match self.objects.get(object_id) {
            Some(o) => {
                let mut c = Self::copy_object(o);
                c.body_type = t;
                Some(c)
            },
            None => None,
        };
        match updated {
            Some(c) => {
                let r = Some((c.rigid_body_handle, c.collider_handle));
                self.replace_object(object_id, c);
                assert(self@ =~= spec_set_body_type(m, object_id, t));
                r
            },
            None => None,
        }
    }

    /// Changes the collider of an object; returns the collider it had (which the host removes).
    pub fn set_collider(&mut self, object_id: SimObjectId, collider: Option<ColliderHandle>) -> (r: Option<Option<ColliderHandle>>)
        requires
            old(self).wf(),
        ensures
            final(self).wf(),
            final(self)@ == spec_set_collider(old(self)@, object_id, collider),
            r == (if old(self)@.objects.bodies.dom().contains(object_id.0) {
                Some(old(self)@.objects.bodies[object_id.0].collider_handle)
            } else {
                None
            }),
    {
        let ghost m = self@;
        let updated = match self.objects.get(object_id) {
            Some(o) => {
                let mut c = Self::copy_object(o);
                let old_collider = c.collider_handle;
                c.collider_handle = collider;
                Some((c, old_collider))
            },
            None => None,
        };
        match updated {
            Some((c, old_collider)) => {
                self.replace_object(object_id, c);
                assert(self@ =~= spec_set_collider(m, object_id, collider));
                Some(old_collider)
            },
            None => None,
        }
    }

    /// The bodies a new joint connects, if both objects exist.
    pub fn joint_bodies(&self, o1: SimObjectId, o2: SimObjectId) -> (r: Option<(BodyHandle, BodyHandle)>)
        requires
            self.wf(),
        ensures
            r == (if self@.objects.bodies.dom().contains(o1.0) && self@.objects.bodies.dom().contains(o2.0) {
                Some((self@.objects.bodies[o1.0].rigid_body_handle, self@.objects.bodies[o2.0].rigid_body_handle))
            } else {
                None
            }),
    {
        match (self.objects.get(o1), self.objects.get(o2)) {
            (Some(a), Some(b)) => Some((a.rigid_body_handle, b.rigid_body_handle)),
            _ => None,
        }
    }

    /// Appends a joint to the list of an object, if it exists.
    fn push_joint(&mut self, object_id: u128, j: u128)
        requires
            old(self).wf(),
        ensures
            final(self).wf(),
            final(self)@ == (SimulationModel { objects: add_joint_to(old(self)@.objects, object_id, j), ..old(self)@ }),
    {
        let ghost m = self@;
        let joints = match self.objects.bodies.get(object_id) {
            Some(o) => {
                let mut js = vec_clone_u128(&o.joints);
                js.push(j);
                Some(js)
            },
            None => None,
        };
        match joints {
            Some(js) => {
                self.objects.set_joints(object_id, js);
            },
            None => {},
        }
        assert(self@.objects =~= add_joint_to(m.objects, object_id, j));
    }

    /// Records a joint that the host created between the bodies of two objects.
    pub fn record_joint(&mut self, j: SimJointId, o1: SimObjectId, o2: SimObjectId, handle: JointHandle)
        requires
            old(self).wf(),
            old(self)@.objects.bodies.dom().contains(o1.0),
            old(self)@.objects.bodies.dom().contains(o2.0),
        ensures
            final(self).wf(),
            final(self)@ == spec_record_joint(old(self)@, j, o1, o2, handle),
    {
        let ghost m = self@;
        let (b1, b2) = match self.joint_bodies(o1, o2) {
            Some(bb) => bb,
            None => { return; },
        };
        self.joints.insert(j.0, JointEntry { handle, body1: b1, body2: b2 });
        self.push_joint(o1.0, j.0);
        self.push_joint(o2.0, j.0);
        assert(self@ =~= spec_record_joint(m, j, o1, o2, handle));
    }

    /// The engine's joint for a joint identifier.
    pub fn joint_handle(&self, j: SimJointId) -> (r: Option<JointHandle>)
        requires
            self.wf(),
        ensures
            r == (if self@.joints.dom().contains(j.0) { Some(self@.joints[j.0].handle) } else { None }),
    {
        match self.joints.get(j.0) {
            Some(e) => Some(e.handle),
            None => None,
        }
    }

    /// Takes a joint out of the list of the object that owns a body.
    fn unlink(&mut self, h: BodyHandle, j: u128)
        requires
            old(self).wf(),
        ensures
            final(self).wf(),
            final(self)@ == (SimulationModel { objects: unlink_joint(old(self)@.objects, h, j), ..old(self)@ }),
    {
        let ghost m = self@;
        let found = match self.objects.get_by_handle(h) {
            Some(o) => Some((o.object_id, vec_without(&o.joints, j))),
            None => None,
        };
        proof {
            if m.objects.id_for_handle.dom().contains(handle_key(h)) && m.objects.bodies.dom().contains(m.objects.id_for_handle[handle_key(h)]) {
                assert(spec_by_handle(m.objects, h).is_some());
            }
        }
        match found {
            Some((_oid, js)) => {
                let id = match self.objects.id_for_handle.get(h.0 as u128) { Some(id) => *id, None => { return; } };
                self.objects.set_joints(id, js);
            },
            None => {},
        }
        assert(self@.objects =~= unlink_joint(m.objects, h, j));
    }

    /// Removes a joint; returns the engine's joint for the host to remove.
    pub fn remove_joint(&mut self, j: SimJointId) -> (r: Option<JointHandle>)
        requires
            old(self).wf(),
        ensures
            final(self).wf(),
            (final(self)@, r) == spec_remove_joint(old(self)@, j),
    {
        let ghost m = self@;
        let e = match self.joints.get(j.0) {
            Some(e) => *e,
            None => { return None; },
        };
        self.unlink(e.body1, j.0);
        self.unlink(e.body2, j.0);
        self.joints.remove(j.0);
        assert(self@ =~= spec_remove_joint(m, j).0);
        Some(e.handle)
    }

    /// Removes an object; returns what the host removes from the engine.
    pub fn remove_rigid_body(&mut self, object_id: SimObjectId) -> (r: Option<RemovedBody>)
        requires
            old(self).wf(),
        ensures
            final(self).wf(),
            final(self)@ == spec_remove_rigid_body(old(self)@, object_id),
            match r {
                Some(rb) => old(self)@.objects.bodies.dom().contains(object_id.0)
                    && rb.body == old(self)@.objects.bodies[object_id.0].rigid_body_handle
                    && rb.anchor == old(self)@.objects.bodies[object_id.0].anchor_joint
                    && rb.joints@ == detach_joints(old(self)@.joints, rb.body, old(self)@.objects.bodies[object_id.0].joints).2,
                None => !old(self)@.objects.bodies.dom().contains(object_id.0),
            },
    {
        let ghost m = self@;
        let (body, anchor, js) = match self.objects.get(object_id) {
            Some(o) => (o.rigid_body_handle, o.anchor_joint, vec_clone_u128(&o.joints)),
            None => { return None; },
        };
        let ghost o = m.objects.bodies[object_id.0];
        let mut others: Vec<(BodyHandle, u128)> = Vec::new();
        let mut handles: Vec<JointHandle> = Vec::new();
        let mut i: usize = 0;
        while i < js.len()
            invariant
                self.wf(),
                self@ == (SimulationModel { joints: self.joints.map(), ..m }),
                js@ == o.joints,
                body == o.rigid_body_handle,
                i <= js@.len(),
                (self.joints.map(), others@, handles@) == detach_joints(m.joints, body, js@.subrange(0, i as int)),
            decreases js@.len() - i,
        {
            let j = js[i];
            assert(js@.subrange(0, i + 1).drop_last() =~= js@.subrange(0, i as int));
            assert(js@.subrange(0, i + 1).last() == j);
            match self.joints.get(j) {
                Some(e) => {
                    let e = *e;
                    let other = if e.body1.0 != body.0 { e.body1 } else { e.body2 };
                    others.push((other, j));
                    handles.push(e.handle);
                    self.joints.remove(j);
                },
                None => {},
            }
            i = i + 1;
        }
        assert(js@.subrange(0, js@.len() as int) =~= js@);
        let ghost jm = self.joints.map();
        self.objects.remove(object_id);
        let ghost removed = self.objects@;
        let mut k: usize = 0;
        while k < others.len()
            invariant
                self.wf(),
                self.joints.map() == jm,
                self@.recently_changed == m.recently_changed,
                self@.new_objects == m.new_objects,
                self@.manage_timer == m.manage_timer,
                self@.timer_awake == m.timer_awake,
                self@.is_asleep == m.is_asleep,
                self@.last_step_time == m.last_step_time,
                k <= others@.len(),
                self.objects@ == unlink_all(removed, others@.subrange(0, k as int)),
            decreases others@.len() - k,
        {
            let (h, j) = others[k];
            assert(others@.subrange(0, k + 1).drop_last() =~= others@.subrange(0, k as int));
            assert(others@.subrange(0, k + 1).last() == (h, j));
            self.unlink(h, j);
            k = k + 1;
        }
        assert(others@.subrange(0, others@.len() as int) =~= others@);
        assert(self@ =~= spec_remove_rigid_body(m, object_id));
        Some(RemovedBody { body, joints: handles, anchor })
    }

    /// How the host moves an object's body to a new desired position, if the object exists.
    pub fn position_plan(&self, object_id: SimObjectId) -> (r: Option<PositionPlan>)
        requires
            self.wf(),
        ensures
            r == (if self@.objects.bodies.dom().contains(object_id.0) {
                Some(spec_position_plan(self@.objects.bodies[object_id.0]))
            } else {
                None
            }),
    {
        match self.objects.get(object_id) {
            Some(o) => {
                let kinematic = match o.body_type { SimObjectType::Kinematic => true, _ => false };
                Some(PositionPlan {
                    body: o.rigid_body_handle,
                    set_position_now: o.is_new,
                    set_kinematic_target: !o.is_new && kinematic,
                    anchor: match o.anchor_joint { Some((a, _)) => Some(a), None => None },
                })
            },
            None => None,
        }
    }

    /// Records the anchor and spring that the host created for an object.
    pub fn record_anchor(&mut self, object_id: SimObjectId, anchor: BodyHandle, spring: JointHandle)
        requires
            old(self).wf(),
        ensures
            final(self).wf(),
            final(self)@ == spec_record_anchor(old(self)@, object_id, anchor, spring),
    {
        let ghost m = self@;
        let updated = match self.objects.get(object_id) {
            Some(o) => {
                let mut c = Self::copy_object(o);
                c.anchor_joint = Some((anchor, spring));
                Some(c)
            },
            None => None,
        };
        match updated {
            Some(c) => {
                self.replace_object(object_id, c);
                assert(self@ =~= spec_record_anchor(m, object_id, anchor, spring));
            },
            None => {},
        }
    }

    /// Starts a tick at `time` (nanoseconds since the clock started): sets up the clock and
    /// hands out the changed objects that are still filed, whose bindings the host reads.
    pub fn begin_tick(&mut self, time: u128) -> (changed: Vec<SimObjectId>)
        requires
            old(self).wf(),
        ensures
            final(self).wf(),
            final(self)@ == spec_begin_tick(old(self)@, time).0,
            changed@.len() == spec_begin_tick(old(self)@, time).1.len(),
            forall|i: int| 0 <= i < changed@.len() ==> #[trigger] changed@[i].0 == spec_begin_tick(old(self)@, time).1[i],
    {
        let ghost m = self@;
        let rewound_time = if time >= TICK_NANOS { time - TICK_NANOS } else { time };
        if self.is_asleep {
            self.is_asleep = false;
            self.last_step_time = rewound_time;
        }
        if time < self.last_step_time {
            self.last_step_time = rewound_time;
        }
        let mut changed: Vec<SimObjectId> = Vec::new();
        let mut i: usize = 0;
        while i < self.recently_changed.len()
            invariant
                self.wf(),
                self.objects@ == m.objects,
                self.recently_changed@ == m.recently_changed,
                i <= m.recently_changed.len(),
                changed@.len() == filed_objects(m.objects, m.recently_changed.subrange(0, i as int)).len(),
                forall|x: int| 0 <= x < changed@.len() ==> #[trigger] changed@[x].0
                    == filed_objects(m.objects, m.recently_changed.subrange(0, i as int))[x],
            decreases m.recently_changed.len() - i,
        {
            let id = self.recently_changed[i];
            assert(m.recently_changed.subrange(0, i + 1).drop_last() =~= m.recently_changed.subrange(0, i as int));
            assert(m.recently_changed.subrange(0, i + 1).last() == id);
            if self.objects.get(SimObjectId(id)).is_some() {
                changed.push(SimObjectId(id));
            }
            i = i + 1;
        }
        assert(m.recently_changed.subrange(0, m.recently_changed.len() as int) =~= m.recently_changed);
        self.recently_changed = Vec::new();
        assert(self@ =~= spec_begin_tick(m, time).0);
        changed
    }

    /// Marks every new object as no longer new (after the changed objects have been placed).
    pub fn finish_new_objects(&mut self)
        requires
            old(self).wf(),
        ensures
            final(self).wf(),
            final(self)@ == spec_finish_new_objects(old(self)@),
    {
        let ghost m = self@;
        let news = vec_clone_u128(&self.new_objects);
        let mut i: usize = 0;
        while i < news.len()
            invariant
                self.wf(),
                news@ == m.new_objects,
                self@ == (SimulationModel { objects: not_new(m.objects, news@.subrange(0, i as int)), ..m }),
                i <= news@.len(),
            decreases news@.len() - i,
        {
            let id = news[i];
            assert(news@.subrange(0, i + 1).drop_last() =~= news@.subrange(0, i as int));
            assert(news@.subrange(0, i + 1).last() == id);
            let updated = match self.objects.get(SimObjectId(id)) {
                Some(o) => {
                    let mut c = Self::copy_object(o);
                    c.is_new = false;
                    Some(c)
                },
                None => None,
            };
            match updated {
                Some(c) => { self.replace_object(SimObjectId(id), c); },
                None => {},
            }
            i = i + 1;
            assert(self@ =~= (SimulationModel { objects: not_new(m.objects, news@.subrange(0, i as int)), ..m }));
        }
        assert(news@.subrange(0, news@.len() as int) =~= news@);
        self.new_objects = Vec::new();
        assert(self@ =~= spec_finish_new_objects(m));
    }

    /// Advances the clock of the simulation to `time`; returns how many steps the host runs.
    pub fn run_steps(&mut self, time: u128) -> (steps: u128)
        requires
            old(self).wf(),
            old(self)@.last_step_time <= time,
            time + TICK_NANOS <= u128::MAX,
        ensures
            final(self).wf(),
            (final(self)@, steps) == spec_run_steps(old(self)@, time),
    {
        let ghost m = self@;
        let ghost start = self.last_step_time;
        let mut num_steps: u128 = 0;
        loop
            invariant_except_break
                self.last_step_time == start + num_steps * TICK_NANOS,
                self.last_step_time <= time,
            invariant
                self.wf(),
                self@ == (SimulationModel { last_step_time: self.last_step_time, ..m }),
                num_steps <= MAX_TICKS,
                time + TICK_NANOS <= u128::MAX,
                start == m.last_step_time,
            ensures
                self@ == spec_run_steps(m, time).0,
                num_steps == spec_run_steps(m, time).1,
            decreases MAX_TICKS - num_steps,
        {
            if num_steps >= MAX_TICKS {
                proof {
                    assert(whole_ticks(start, time) >= MAX_TICKS) by (nonlinear_arith)
                        requires
                            num_steps == MAX_TICKS,
                            start + num_steps * TICK_NANOS <= time,
                            TICK_NANOS == 16_666_000,
                            whole_ticks(start, time) == (time - start) / (TICK_NANOS as int),
                            MAX_TICKS == 30,
                    {}
                }
                self.last_step_time = time;
                assert(self@ =~= spec_run_steps(m, time).0);
                break;
            }
            if self.last_step_time + TICK_NANOS > time {
                proof {
                    assert(whole_ticks(start, time) == num_steps) by (nonlinear_arith)
                        requires
                            start + num_steps * TICK_NANOS <= time,
                            start + num_steps * TICK_NANOS + TICK_NANOS > time,
                            TICK_NANOS == 16_666_000,
                            whole_ticks(start, time) == (time - start) / (TICK_NANOS as int),
                            start <= time,
                    {}
                }
                assert(self@ =~= spec_run_steps(m, time).0);
                break;
            }
            self.last_step_time = self.last_step_time + TICK_NANOS;
            num_steps = num_steps + 1;
            assert(self.last_step_time == start + num_steps * TICK_NANOS) by (nonlinear_arith)
                requires
                    self.last_step_time == start + (num_steps - 1) * TICK_NANOS + TICK_NANOS,
            {}
        }
        num_steps
    }

    /// Ends a tick, given whether any body is still awake and how many steps the tick ran.
    pub fn end_tick(&mut self, some_awake: bool, steps: u128) -> (r: TickEnd)
        requires
            old(self).wf(),
        ensures
            final(self).wf(),
            (final(self)@, r) == spec_end_tick(old(self)@, some_awake, steps),
    {
        let send_step = steps > 0;
        if some_awake {
            TickEnd { send_step, send_sleep: false, cancel_timer: false }
        } else if self.manage_timer && self.timer_awake {
            self.timer_awake = false;
            self.is_asleep = true;
            TickEnd { send_step, send_sleep: true, cancel_timer: true }
        } else {
            self.is_asleep = true;
            TickEnd { send_step, send_sleep: true, cancel_timer: false }
        }
    }
}


/// Going through a body's joints takes each of them out of the table, and no other joint.
proof fn lemma_detach_joints(joints: Map<u128, JointEntry>, body: BodyHandle, js: Seq<u128>)
    ensures
        forall|j: u128| js.contains(j) ==> !(#[trigger] detach_joints(joints, body, js).0.dom().contains(j)),
        forall|j: u128| !js.contains(j) ==> (#[trigger] detach_joints(joints, body, js).0.dom().contains(j) <==> joints.dom().contains(j)),
    decreases js.len(),
{
    if js.len() > 0 {
        let pre = js.drop_last();
        lemma_detach_joints(joints, body, pre);
        let jm = detach_joints(joints, body, pre).0;
        let last = js.last();
        assert(detach_joints(joints, body, js).0 == (if jm.dom().contains(last) { jm.remove(last) } else { jm }));
        assert forall|j: u128| js.contains(j) implies !(#[trigger] detach_joints(joints, body, js).0.dom().contains(j)) by {
            if j != js.last() {
                let i = choose|i: int| 0 <= i < js.len() && js[i] == j;
                assert(pre[i] == j);
            }
        }
        assert forall|j: u128| !js.contains(j) implies (#[trigger] detach_joints(joints, body, js).0.dom().contains(j) <==> joints.dom().contains(j)) by {
            assert(j != js[js.len() - 1]);
            if pre.contains(j) {
                let i = choose|i: int| 0 <= i < pre.len() && pre[i] == j;
                assert(js[i] == j);
            }
        }
    }
}

/// Removing an object forgets it, and none of its joints is left in the table of joints;
/// other joints stay.
pub proof fn law_removed_body_leaves_no_joints(m: SimulationModel, id: SimObjectId)
    requires
        m.objects.bodies.dom().contains(id.0),
    ensures
        !spec_remove_rigid_body(m, id).objects.bodies.dom().contains(id.0),
        forall|j: u128| m.objects.bodies[id.0].joints.contains(j) ==> !(#[trigger] spec_remove_rigid_body(m, id).joints.dom().contains(j)),
        forall|j: u128| !m.objects.bodies[id.0].joints.contains(j)
            ==> (#[trigger] spec_remove_rigid_body(m, id).joints.dom().contains(j) <==> m.joints.dom().contains(j)),
{
    let o = m.objects.bodies[id.0];
    lemma_detach_joints(m.joints, o.rigid_body_handle, o.joints);
    let (jm, others, _h) = detach_joints(m.joints, o.rigid_body_handle, o.joints);
    let removed = CollectionModel {
        bodies: m.objects.bodies.remove(id.0),
        id_for_handle: m.objects.id_for_handle.remove(handle_key(o.rigid_body_handle)),
    };
    lemma_unlink_all_keeps_keys(removed, others);
}

/// Taking joints out of objects' lists keeps the same objects.
proof fn lemma_unlink_all_keeps_keys(c: CollectionModel, others: Seq<(BodyHandle, u128)>)
    ensures
        unlink_all(c, others).bodies.dom() == c.bodies.dom(),
    decreases others.len(),
{
    if others.len() > 0 {
        lemma_unlink_all_keeps_keys(c, others.drop_last());
        let (h, j) = others.last();
        let c1 = unlink_all(c, others.drop_last());
        assert(unlink_joint(c1, h, j).bodies.dom() =~= c1.bodies.dom());
    }
}

/// Removing a joint forgets it.
pub proof fn law_removed_joint_forgotten(m: SimulationModel, j: SimJointId)
    ensures
        !spec_remove_joint(m, j).0.joints.dom().contains(j.0),
        spec_remove_joint(m, j).1.is_some() == m.joints.dom().contains(j.0),
{
}

/// A tick runs at most `MAX_TICKS` steps and never moves the clock past the time; when it runs
/// fewer, less than one step's time is left over.
pub proof fn law_steps_bounded(m: SimulationModel, time: u128)
    requires
        m.last_step_time <= time,
    ensures
        spec_run_steps(m, time).1 <= MAX_TICKS,
        spec_run_steps(m, time).0.last_step_time <= time,
        spec_run_steps(m, time).0.last_step_time >= m.last_step_time,
        spec_run_steps(m, time).1 < MAX_TICKS ==> time - spec_run_steps(m, time).0.last_step_time < TICK_NANOS,
{
    let k = whole_ticks(m.last_step_time, time);
    let d = time - m.last_step_time;
    assert(0 <= k) by (nonlinear_arith)
        requires k == d / 16_666_000int, d >= 0;
    assert(k * 16_666_000int <= d && d - k * 16_666_000int < 16_666_000int) by (nonlinear_arith)
        requires k == d / 16_666_000int, d >= 0;
}

/// Every tick, whatever the state: starting it never leaves the clock past the tick's time, so
/// the tick runs at most `MAX_TICKS` steps and simulated time never runs ahead of the tick.
pub proof fn law_every_tick_bounded(m: SimulationModel, time: u128)
    ensures
        ({
            let started = spec_begin_tick(m, time).0;
            &&& started.last_step_time <= time
            &&& spec_run_steps(started, time).1 <= MAX_TICKS
            &&& spec_run_steps(started, time).0.last_step_time <= time
        }),
{
    let started = spec_begin_tick(m, time).0;
    assert(started.last_step_time <= time);
    law_steps_bounded(started, time);
}

/// After a tick that reported sleep, the next tick, whenever it comes, starts one tick behind its
/// time: it runs at most one step, never a batch of catch-up steps for the time spent asleep.
pub proof fn law_no_catch_up_after_sleep(m: SimulationModel, steps: u128, time: u128)
    ensures
        ({
            let asleep = spec_end_tick(m, false, steps).0;
            let started = spec_begin_tick(asleep, time).0;
            &&& spec_end_tick(m, false, steps).1.send_sleep
            &&& started.last_step_time == rewound(time)
            &&& spec_run_steps(started, time).1 <= 1
        }),
{
    let started = spec_begin_tick(spec_end_tick(m, false, steps).0, time).0;
    let d = time - started.last_step_time;
    assert(0 <= d <= TICK_NANOS);
    assert(whole_ticks(started.last_step_time, time) <= 1) by (nonlinear_arith)
        requires d == time - started.last_step_time, 0 <= d <= 16_666_000int,
            whole_ticks(started.last_step_time, time) == d / 16_666_000int;
}

/// The step event is sent exactly when the tick ran at least one step.
pub proof fn law_step_sent_only_when_stepped(m: SimulationModel, some_awake: bool, steps: u128)
    ensures
        spec_end_tick(m, some_awake, steps).1.send_step == (steps > 0),
{
}

/// How a body is moved to a new desired position: a new object is placed there at once; an object
/// that is not new is driven there as the next kinematic position only when its body is
/// kinematic (a dynamic body is pulled by its anchor's spring, a static one stays); the plan is for
/// the object's own body and names its existing anchor, if any.
pub proof fn law_position_plan_follows_body_type(o: SimObjectModel)
    ensures
        spec_position_plan(o).body == o.rigid_body_handle,
        spec_position_plan(o).set_position_now <==> o.is_new,
        spec_position_plan(o).set_kinematic_target <==> (!o.is_new && o.body_type == SimObjectType::Kinematic),
        spec_position_plan(o).set_position_now ==> !spec_position_plan(o).set_kinematic_target,
        spec_position_plan(o).anchor is Some <==> o.anchor_joint is Some,
        o.anchor_joint is Some ==> spec_position_plan(o).anchor == Some((o.anchor_joint->0).0),
{
}

/// After an object's body is made dynamic or static, moving it never sets a kinematic target;
/// after it is made kinematic, moving it (once it is not new) does.
pub proof fn law_body_type_decides_kinematic_target(m: SimulationModel, id: SimObjectId, t: SimObjectType)
    requires
        m.objects.bodies.dom().contains(id.0),
    ensures
        ({
            let o = spec_set_body_type(m, id, t).objects.bodies[id.0];
            &&& o.body_type == t
            &&& o.is_new == m.objects.bodies[id.0].is_new
            &&& spec_position_plan(o).set_kinematic_target <==> (t == SimObjectType::Kinematic && !o.is_new)
        }),
{
}

/// Asking to wake the timer twice asks the host only once.
pub proof fn law_wake_timer_once(m: SimulationModel)
    ensures
        !spec_wake_timer(spec_wake_timer(m).0).1,
{
}

/// After an object is filed, its body handle finds it.
pub proof fn law_filed_object_found_by_handle(c: CollectionModel, id: SimObjectId, o: SimObjectModel)
    ensures
        ({
            let c2 = CollectionModel {
                bodies: c.bodies.insert(id.0, o),
                id_for_handle: c.id_for_handle.insert(handle_key(o.rigid_body_handle), id.0),
            };
            spec_by_handle(c2, o.rigid_body_handle) == Some(o)
        }),
{
}
} // verus!
