//! Identifiers used throughout the scenery: each one is a 128-bit value,
//! freshly drawn from the operating system's random source when created.

use vstd::prelude::*;

verus! {

/// The bits of a version-4 (random) UUID that the generator always sets:
/// the version nibble and the top two bits of the variant nibble.
pub open spec fn uuid_v4_fixed_mask() -> u128 {
    0x0000_0000_0000_F000_C000_0000_0000_0000u128
}

/// The values that the bits in `uuid_v4_fixed_mask` take in every version-4 UUID.
pub open spec fn uuid_v4_fixed_bits() -> u128 {
    0x0000_0000_0000_4000_8000_0000_0000_0000u128
}

/// Draws a new random version-4 UUID from `uuid::Uuid::new_v4` and returns its
/// 128-bit big-endian value (`Uuid::as_u128`).
///
/// Trusted: the value is random, so nothing is said of it but the version and
/// variant bits, which `new_v4` always sets (it masks the random value and ors
/// in `0x4000_8000_0000_0000_0000`).
#[verifier::external_body]
fn random_uuid_value() -> (value: u128)
    ensures
        value & uuid_v4_fixed_mask() == uuid_v4_fixed_bits(),
{
    uuid::Uuid::new_v4().as_u128()
}

/// Identifies a tool group: only one tool can be selected per group.
#[derive(Clone, Copy, Debug, PartialEq, Eq, Structural, PartialOrd, Ord, Hash)]
pub struct ToolGroupId(pub u128);

/// Identifies a type of tool (several tools can share a type, eg duplicated colour tools).
#[derive(Clone, Copy, Debug, PartialEq, Eq, Structural, PartialOrd, Ord, Hash)]
pub struct ToolTypeId(pub u128);

/// Identifies an individual tool.
#[derive(Clone, Copy, Debug, PartialEq, Eq, Structural, PartialOrd, Ord, Hash)]
pub struct ToolId(pub u128);

/// Identifies a control within a subprogram (used for keyboard focus and pointer regions).
#[derive(Clone, Copy, Debug, PartialEq, Eq, Structural, PartialOrd, Ord, Hash)]
pub struct ControlId(pub u128);

/// Identifies a dialog.
#[derive(Clone, Copy, Debug, PartialEq, Eq, Structural, PartialOrd, Ord, Hash)]
pub struct DialogId(pub u128);

/// Identifies a document.
#[derive(Clone, Copy, Debug, PartialEq, Eq, Structural, PartialOrd, Ord, Hash)]
pub struct DocumentId(pub u128);

/// Identifies an object in a physics simulation.
#[derive(Clone, Copy, Debug, PartialEq, Eq, Structural, PartialOrd, Ord, Hash)]
pub struct SimObjectId(pub u128);

/// Identifies a joint in a physics simulation.
#[derive(Clone, Copy, Debug, PartialEq, Eq, Structural, PartialOrd, Ord, Hash)]
pub struct SimJointId(pub u128);

/// Identifies a tool on the physics layer.
#[derive(Clone, Copy, Debug, PartialEq, Eq, Structural, PartialOrd, Ord, Hash)]
pub struct PhysicsToolId(pub u128);

/// A handle for a subprogram (or another stream target) of the scene.
///
/// The host assigns one handle per distinct target and keeps the mapping back
/// to the scene's own identifiers.
#[derive(Clone, Copy, Debug, PartialEq, Eq, Structural, PartialOrd, Ord, Hash)]
pub struct ProgramId(pub u128);

impl ToolGroupId {
    /// Creates a unique new tool group ID.
    pub fn new() -> (id: Self)
        ensures
            id.0 & uuid_v4_fixed_mask() == uuid_v4_fixed_bits(),
    {
        ToolGroupId(random_uuid_value())
    }
}

impl ToolTypeId {
    /// Creates a unique new tool type ID.
    pub fn new() -> (id: Self)
        ensures
            id.0 & uuid_v4_fixed_mask() == uuid_v4_fixed_bits(),
    {
        ToolTypeId(random_uuid_value())
    }
}

impl ToolId {
    /// Creates a unique new tool ID.
    pub fn new() -> (id: Self)
        ensures
            id.0 & uuid_v4_fixed_mask() == uuid_v4_fixed_bits(),
    {
        ToolId(random_uuid_value())
    }
}

impl ControlId {
    /// Creates a unique new control ID.
    pub fn new() -> (id: Self)
        ensures
            id.0 & uuid_v4_fixed_mask() == uuid_v4_fixed_bits(),
    {
        ControlId(random_uuid_value())
    }
}

impl DialogId {
    /// Creates a unique new dialog ID.
    pub fn new() -> (id: Self)
        ensures
            id.0 & uuid_v4_fixed_mask() == uuid_v4_fixed_bits(),
    {
        DialogId(random_uuid_value())
    }
}

impl DocumentId {
    /// Creates a unique new document ID.
    pub fn new() -> (id: Self)
        ensures
            id.0 & uuid_v4_fixed_mask() == uuid_v4_fixed_bits(),
    {
        DocumentId(random_uuid_value())
    }
}

impl SimObjectId {
    /// Creates a unique new simulation object ID.
    pub fn new() -> (id: Self)
        ensures
            id.0 & uuid_v4_fixed_mask() == uuid_v4_fixed_bits(),
    {
        SimObjectId(random_uuid_value())
    }
}

impl SimJointId {
    /// Creates a unique new simulation joint ID.
    pub fn new() -> (id: Self)
        ensures
            id.0 & uuid_v4_fixed_mask() == uuid_v4_fixed_bits(),
    {
        SimJointId(random_uuid_value())
    }
}

impl PhysicsToolId {
    /// Creates a unique new physics tool ID.
    pub fn new() -> (id: Self)
        ensures
            id.0 & uuid_v4_fixed_mask() == uuid_v4_fixed_bits(),
    {
        PhysicsToolId(random_uuid_value())
    }
}

} // verus!
