//! Stable identifiers. Each carries the 128-bit value of a UUID.

use vstd::prelude::*;

verus! {

#[derive(Clone, Copy, Debug, PartialEq, Eq, Structural, Hash, PartialOrd, Ord)]
pub struct DecisionId(pub u128);

#[derive(Clone, Copy, Debug, PartialEq, Eq, Structural, Hash, PartialOrd, Ord)]
pub struct EvidenceId(pub u128);

#[derive(Clone, Copy, Debug, PartialEq, Eq, Structural, Hash, PartialOrd, Ord)]
pub struct LineageId(pub u128);

#[derive(Clone, Copy, Debug, PartialEq, Eq, Structural, Hash, PartialOrd, Ord)]
pub struct PositionId(pub u128);

impl DecisionId {
    pub fn from_uuid(value: u128) -> (id: DecisionId)
        ensures
            id.0 == value,
    {
        DecisionId(value)
    }

    pub fn new() -> (id: DecisionId)
        ensures
            id.0 != 0,
    {
        DecisionId(new_uuid_v4())
    }
}

impl EvidenceId {
    pub fn from_uuid(value: u128) -> (id: EvidenceId)
        ensures
            id.0 == value,
    {
        EvidenceId(value)
    }

    pub fn new() -> (id: EvidenceId)
        ensures
            id.0 != 0,
    {
        EvidenceId(new_uuid_v4())
    }
}

impl LineageId {
    pub fn from_uuid(value: u128) -> (id: LineageId)
        ensures
            id.0 == value,
    {
        LineageId(value)
    }

    pub fn new() -> (id: LineageId)
        ensures
            id.0 != 0,
    {
        LineageId(new_uuid_v4())
    }
}

impl PositionId {
    pub fn from_uuid(value: u128) -> (id: PositionId)
        ensures
            id.0 == value,
    {
        PositionId(value)
    }

    pub fn new() -> (id: PositionId)
        ensures
            id.0 != 0,
    {
        PositionId(new_uuid_v4())
    }
}

/// `uuid::Uuid::new_v4`, as its 128-bit value. The value is random; a version 4
/// UUID always has its version nibble set to 4, so it is never the nil UUID.
#[verifier::external_body]
pub(crate) fn new_uuid_v4() -> (r: u128)
    ensures
        r != 0,
{
    uuid::Uuid::new_v4().as_u128()
}

} // verus!
