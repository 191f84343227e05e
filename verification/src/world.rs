//! One dimension of the game: who is present, what the terrain holds, and
//! what each change makes visible to whom.
//!
//! A [`World`] does no input or output. Each operation takes the state and
//! plain values, and answers with the new state and with what is to be
//! sent: the caller holds the connections and the terrain store, keeps one
//! lock round the world for the length of each call, and carries out the
//! answer in the order given.

use std::collections::HashMap;
use vstd::prelude::*;
use vstd::string::StringExecFns;

pub mod block;
pub mod broadcast;
pub mod entity;
pub mod level_time;
pub mod lifecycle;
pub mod math;
pub mod packet;
pub mod registry;
pub mod sound;
pub mod streaming;
pub mod terrain;
pub mod ticking;

use entity::{DimensionType, LivingEntity, Player};
use level_time::LevelTime;
use math::Vector2;

verus! {

/// How loudly a failure is reported.
#[derive(Clone, Copy, Debug, PartialEq, Eq, Structural)]
pub enum Severity {
    Error,
    Warn,
    Info,
    Debug,
    Trace,
}

/// Why a block could not be read.
#[derive(Clone, Copy, Debug, PartialEq, Eq, Structural)]
pub enum GetBlockError {
    /// The position lies outside the column of blocks that a chunk holds.
    BlockOutOfWorldBounds,
    /// The stored state id is not in the block registry.
    InvalidBlockId,
}

impl GetBlockError {
    /// The name of the error, as it is shown in a log.
    pub open spec fn spec_name(&self) -> Seq<char> {
        match self {
            GetBlockError::BlockOutOfWorldBounds => "BlockOutOfWorldBounds"@,
            GetBlockError::InvalidBlockId => "InvalidBlockId"@,
        }
    }

    /// The name of the error, as it is shown in a log.
    pub fn to_string(&self) -> (name: String)
        ensures
            name@ == self.spec_name(),
    {
        match self {
            GetBlockError::BlockOutOfWorldBounds => String::from_str("BlockOutOfWorldBounds"),
            GetBlockError::InvalidBlockId => String::from_str("InvalidBlockId"),
        }
    }

    /// A failed block query never disconnects the player that asked.
    pub fn is_kick(&self) -> (kick: bool)
        ensures
            !kick,
    {
        false
    }

    /// A failed block query is reported as a warning.
    pub fn severity(&self) -> (severity: Severity)
        ensures
            severity == Severity::Warn,
    {
        Severity::Warn
    }

    /// There is no kick, so there is no reason to show.
    pub fn client_kick_reason(&self) -> (reason: Option<String>)
        ensures
            reason is None,
    {
        None
    }
}

/// The column at which players appear, unless a world is told otherwise.
pub const DEFAULT_SPAWN_X: i32 = 10;

pub const DEFAULT_SPAWN_Z: i32 = 10;

/// A world: its players and living entities, each under its UUID, and its
/// clock.
#[derive(Clone, Debug)]
pub struct World {
    /// The players in the world, keyed by UUID.
    pub current_players: HashMap<u128, Player>,
    /// The world's time.
    pub level_time: LevelTime,
    /// The kind of dimension that the world is.
    pub dimension_type: DimensionType,
    /// The living entities in the world, keyed by UUID.
    pub current_living_entities: HashMap<u128, LivingEntity>,
    /// The column at which players appear.
    pub spawn_column: Vector2,
}

impl World {
    /// A world of the given kind, with nobody in it and the clock at zero.
    #[must_use]
    pub fn load(dimension_type: DimensionType) -> (world: World)
        ensures
            world.current_players@ == Map::<u128, Player>::empty(),
            world.current_living_entities@ == Map::<u128, LivingEntity>::empty(),
            world.level_time == (LevelTime { world_age: 0, time_of_day: 0 }),
            world.dimension_type == dimension_type,
            world.spawn_column == (Vector2 { x: DEFAULT_SPAWN_X, z: DEFAULT_SPAWN_Z }),
    {
        World {
            current_players: HashMap::new(),
            level_time: LevelTime::new(),
            dimension_type,
            current_living_entities: HashMap::new(),
            spawn_column: Vector2 { x: DEFAULT_SPAWN_X, z: DEFAULT_SPAWN_Z },
        }
    }
}

} // verus!
