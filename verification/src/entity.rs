//! Opaque player and entity identities, keys for their scheduled tasks,
//! and the packed per-entity status flags.

use vstd::prelude::*;

verus! {

/// Identity of a player within a dimension.
#[derive(Clone, Copy, PartialEq, Eq, Structural, Debug)]
pub struct PlayerID {
    pub id: u32,
}

/// Identity of a non-player entity within a dimension.
#[derive(Clone, Copy, PartialEq, Eq, Structural, Debug)]
pub struct EntityID {
    pub id: u32,
}

/// The components an alive entity can carry.
#[derive(Clone, Copy, PartialEq, Eq, Structural, Debug)]
pub enum AliveComponents {
    Basic,
    Gravity,
    IsEntity,
    IsPlayer,
}

/// Stable numeric code of an alive component.
pub open spec fn alive_component_code_spec(c: AliveComponents) -> u64 {
    match c {
        AliveComponents::Basic => 0,
        AliveComponents::Gravity => 1,
        AliveComponents::IsEntity => 2,
        AliveComponents::IsPlayer => 3,
    }
}

pub fn alive_component_code(c: AliveComponents) -> (r: u64)
    ensures
        r == alive_component_code_spec(c),
{
    match c {
        AliveComponents::Basic => 0,
        AliveComponents::Gravity => 1,
        AliveComponents::IsEntity => 2,
        AliveComponents::IsPlayer => 3,
    }
}

/// A mutation scheduled against a named numeric property of an entity:
/// assign, add, subtract, multiply or divide by the given operand.
#[derive(Clone, PartialEq, Eq, Debug)]
pub enum Action {
    Assign(String, u64),
    Add(String, u64),
    Subtract(String, u64),
    Multiply(String, u64),
    Divide(String, u64),
}

/// A task scheduled for an alive component.
#[derive(Clone, PartialEq, Eq, Debug)]
pub struct AliveTask {
    pub component: AliveComponents,
    pub action: Action,
}

/// Bit that marks a task key as belonging to a player rather than an entity.
pub const IS_PLAYER_BIT: u64 = 0x8000_0000_0000_0000;

/// Key of a task: the owner's id in the upper half, the component code in
/// the lower half, and the topmost bit marking player ownership.
#[derive(Clone, Copy, PartialEq, Eq, Structural, Hash, Debug)]
pub struct AliveTaskKey {
    pub key: u64,
}

impl AliveTaskKey {
    /// Builds the task key of an entity-owned task.
    pub fn new_entity_task(entity_id: &EntityID, alive_component: &AliveComponents) -> (r:
        AliveTaskKey)
        ensures
            r.key == ((entity_id.id as u64) << 32) | alive_component_code_spec(*alive_component),
    {
        let key = ((entity_id.id as u64) << 32) | alive_component_code(*alive_component);
        AliveTaskKey { key }
    }

    /// Builds the task key of a player-owned task, marked by the player bit.
    pub fn new_player_task(player_id: &PlayerID, alive_component: &AliveComponents) -> (r:
        AliveTaskKey)
        ensures
            r.key == (((player_id.id as u64) << 32) | alive_component_code_spec(*alive_component))
                | IS_PLAYER_BIT,
    {
        let key = ((player_id.id as u64) << 32) | alive_component_code(*alive_component);
        AliveTaskKey { key: key | IS_PLAYER_BIT }
    }
}

/// Packed boolean status flags of a basic entity.
#[derive(Clone, Copy, PartialEq, Eq, Structural, Debug)]
pub struct BasicBitflags {
    pub bits: u8,
}

/// Flag bit: the entity cannot take damage.
pub const INVULNERABLE_BIT: u8 = 1;

impl BasicBitflags {
    pub fn is_invulnerable(&self) -> (r: bool)
        ensures
            r == (self.bits & INVULNERABLE_BIT != 0),
    {
        self.bits & INVULNERABLE_BIT != 0
    }

    pub fn set_invulnerable(&mut self, state: bool)
        ensures
            final(self).bits & INVULNERABLE_BIT == if state {
                INVULNERABLE_BIT
            } else {
                0
            },
            final(self).bits & !INVULNERABLE_BIT == old(self).bits & !INVULNERABLE_BIT,
    {
        let ghost b0: u8 = self.bits;
        if state {
            self.bits = self.bits | INVULNERABLE_BIT;
        } else {
            self.bits = self.bits & !INVULNERABLE_BIT;
        }
        let ghost b1: u8 = self.bits;
        proof {
            assert((b0 | 1u8) & !1u8 == b0 & !1u8) by (bit_vector);
            assert((b0 & !1u8) & !1u8 == b0 & !1u8) by (bit_vector);
            assert((b0 | 1u8) & 1u8 == 1u8) by (bit_vector);
            assert((b0 & !1u8) & 1u8 == 0u8) by (bit_vector);
        }
    }
}

} // verus!
