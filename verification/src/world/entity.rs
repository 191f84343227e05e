//! What the world knows of a player and of any other living thing in it.
//!
//! These are records, not handles: the world keeps its own copy of each and
//! decides from that copy alone.

use super::math::Position;
use vstd::prelude::*;

verus! {

/// The number by which clients know an entity. It is unique among the
/// entities that are alive, and may be given out again after one is gone.
pub type EntityId = i32;

/// Health of an entity that has taken no damage, on the fine grid.
pub const FULL_HEALTH: i32 = 20 * 4096;

/// A full food bar.
pub const FULL_FOOD: i32 = 20;

/// Saturation after a respawn, on the fine grid.
pub const FULL_SATURATION: i32 = 20 * 4096;

#[derive(Clone, Copy, Debug, PartialEq, Eq, Hash, Structural)]
pub enum GameMode {
    Undefined,
    Survival,
    Creative,
    Adventure,
    Spectator,
}

#[derive(Clone, Copy, Debug, PartialEq, Eq, Hash, Structural)]
pub enum DimensionType {
    Overworld,
    OverworldCaves,
    TheEnd,
    TheNether,
}

#[derive(Clone, Copy, Debug, PartialEq, Eq, Hash, Structural)]
pub enum EntityPose {
    Standing,
    FallFlying,
    Sleeping,
    Swimming,
    SpinAttack,
    Crouching,
    LongJumping,
    Dying,
}

/// Anything that has a place in the world.
#[derive(Clone, Copy, Debug, PartialEq, Eq, Structural)]
pub struct Entity {
    pub entity_id: EntityId,
    pub entity_uuid: u128,
    pub pos: Position,
    /// Angles, in steps of the fine grid per degree.
    pub yaw: i32,
    pub pitch: i32,
    pub head_yaw: i32,
    pub pose: EntityPose,
}

/// An entity with health.
#[derive(Clone, Copy, Debug, PartialEq, Eq, Structural)]
pub struct LivingEntity {
    pub entity: Entity,
    /// Where the entity was last put by the world: after a spawn, the
    /// spawn point.
    pub last_pos: Position,
    pub health: i32,
}

/// What a client has told the server of itself.
#[derive(Clone, Copy, Debug, PartialEq, Eq, Structural)]
pub struct PlayerConfig {
    pub skin_parts: u8,
    pub view_distance: u8,
}

/// The connection of a player.
#[derive(Clone, Copy, Debug, PartialEq, Eq, Structural)]
pub struct Client {
    /// Set once the connection is lost; nothing is sent after that.
    pub closed: bool,
    pub config: Option<PlayerConfig>,
}

#[derive(Clone, Debug, PartialEq, Eq)]
pub struct GameProfile {
    pub id: u128,
    pub name: String,
}

/// A player. The connection may be missing: such a player stays in the
/// world and is passed over whenever something is sent.
#[derive(Clone, Debug, PartialEq, Eq)]
pub struct Player {
    pub gameprofile: GameProfile,
    pub living_entity: LivingEntity,
    pub client: Option<Client>,
    pub gamemode: GameMode,
}

/// The server's settings that a joining client is told.
#[derive(Clone, Copy, Debug, PartialEq, Eq, Structural)]
pub struct BasicConfiguration {
    pub hardcore: bool,
    pub max_players: u32,
    pub view_distance: u8,
    pub simulation_distance: u8,
    pub default_gamemode: GameMode,
}

impl LivingEntity {
    pub open spec fn spec_entity_id(&self) -> EntityId {
        self.entity.entity_id
    }

    #[verifier::when_used_as_spec(spec_entity_id)]
    pub fn entity_id(&self) -> (id: EntityId)
        ensures
            id == self.entity.entity_id,
    {
        self.entity.entity_id
    }

    /// This entity, put at `position`.
    pub open spec fn placed_at(self, position: Position) -> LivingEntity {
        LivingEntity { last_pos: position, ..self }
    }

    /// This entity in the pose of one that has just died.
    pub open spec fn dying(self) -> LivingEntity {
        LivingEntity { entity: Entity { pose: EntityPose::Dying, ..self.entity }, ..self }
    }
}

impl Player {
    pub open spec fn spec_entity_id(&self) -> EntityId {
        self.living_entity.entity.entity_id
    }

    #[verifier::when_used_as_spec(spec_entity_id)]
    pub fn entity_id(&self) -> (id: EntityId)
        ensures
            id == self.living_entity.entity.entity_id,
    {
        self.living_entity.entity.entity_id
    }

    /// Whether anything can be sent to this player.
    pub open spec fn spec_has_client(&self) -> bool {
        self.client is Some
    }

    /// Whether anything can be sent to this player.
    #[verifier::when_used_as_spec(spec_has_client)]
    pub fn has_client(&self) -> (has: bool)
        ensures
            has == (self.client is Some),
    {
        self.client.is_some()
    }

    /// The skin parts that the client has chosen, once it has said so.
    pub open spec fn spec_skin_parts(&self) -> Option<u8> {
        match self.client {
            Some(client) => match client.config {
                Some(config) => Some(config.skin_parts),
                None => None,
            },
            None => None,
        }
    }

    /// The skin parts that the client has chosen, once it has said so.
    #[verifier::when_used_as_spec(spec_skin_parts)]
    pub fn skin_parts(&self) -> (parts: Option<u8>)
        ensures
            parts == self.spec_skin_parts(),
    {
        match self.client {
            Some(client) => match client.config {
                Some(config) => Some(config.skin_parts),
                None => None,
            },
            None => None,
        }
    }
}

} // verus!
