//! What the world asks the server to do: packets with the players that get
//! them, and calls to the parts of the server that the world does not hold.
//!
//! A packet here names what is said, not how it is written on the wire.

use super::entity::{DimensionType, EntityId, GameMode};
use super::math::{Position, Vector2, WorldPosition};
use vstd::prelude::*;

verus! {

#[derive(Clone, Copy, Debug, PartialEq, Eq, Hash, Structural)]
pub enum SoundCategory {
    Master,
    Music,
    Records,
    Weather,
    Blocks,
    Hostile,
    Neutral,
    Players,
    Ambient,
    Voice,
}

#[derive(Clone, Copy, Debug, PartialEq, Eq, Hash, Structural)]
pub enum NamedColor {
    Black,
    DarkBlue,
    DarkGreen,
    DarkAqua,
    DarkRed,
    DarkPurple,
    Gold,
    Gray,
    DarkGray,
    Blue,
    Green,
    Aqua,
    Red,
    LightPurple,
    Yellow,
    White,
}

/// The event that shows the particles of a broken block.
pub const BLOCK_BREAK_EVENT: i32 = 2001;

/// The event that starts a record in a jukebox.
pub const PLAY_RECORD_EVENT: i32 = 1010;

/// The event that stops the record in a jukebox.
pub const STOP_RECORD_EVENT: i32 = 1011;

/// A packet for clients.
///
/// A packet holds what the world decides. What is the same in every packet
/// of a kind is the encoder's: it is not held here, and is named with each
/// kind, as the encoder writes it.
#[derive(Clone, Debug, PartialEq, Eq)]
pub enum Packet {
    /// Lets a player into the world.
    ///
    /// The encoder adds the names of the server's dimensions and the name
    /// of `dimension`, and writes: debug information in full, a respawn
    /// screen, crafting without limits, the seed 0, neither a debug world
    /// nor a flat one, no place of death, a portal cooldown of 0, a sea
    /// level of 0, and no enforced secure chat.
    Login {
        entity_id: EntityId,
        hardcore: bool,
        max_players: u32,
        view_distance: u8,
        simulation_distance: u8,
        dimension: DimensionType,
        game_mode: GameMode,
        previous_game_mode: GameMode,
    },
    /// Puts a player back into the world. `data_kept` is 1 where the
    /// player keeps what it had, else 0.
    ///
    /// The encoder adds the names of the two dimensions, writes
    /// `game_mode` as the previous game mode too, and writes: the seed 0,
    /// neither a debug world nor a flat one, a portal cooldown of 0 and a
    /// sea level of 0.
    Respawn {
        dimension: DimensionType,
        game_mode: GameMode,
        death_dimension: DimensionType,
        death_location: WorldPosition,
        data_kept: u8,
    },
    /// Adds the named players to the list that the client shows.
    ///
    /// The encoder writes two actions for each player: that it is added,
    /// with its name and the properties of its profile, and that it is
    /// listed.
    PlayerInfoUpdate { players: Vec<u128> },
    /// Takes one player off the list that the client shows.
    RemovePlayerInfo { player: u128 },
    /// Shows a player's entity.
    ///
    /// The encoder writes the entity type of a player, the data 0 and no
    /// velocity.
    SpawnEntity {
        entity_id: EntityId,
        uuid: u128,
        position: Position,
        pitch: i32,
        yaw: i32,
        head_yaw: i32,
    },
    /// Tells which parts of a player's skin are shown.
    ///
    /// The encoder writes the parts as the byte at index 17 of the
    /// entity's metadata.
    SetEntityMetadata { entity_id: EntityId, skin_parts: u8 },
    /// Takes one entity out of the client's view.
    RemoveEntities { entity_id: EntityId },
    /// Puts up the screen that waits for terrain: a game event, which the
    /// encoder writes with the value 0.
    StartWaitingChunks,
    /// Tells the time. The encoder writes that the time of day moves on.
    UpdateTime { world_age: i64, time_of_day: i64 },
    BlockUpdate { location: WorldPosition, block_state_id: u16 },
    /// An event at a block, such as the particles of a block that breaks.
    /// The encoder writes that the volume falls off with the distance.
    WorldEvent { event: i32, location: WorldPosition, data: i32 },
    /// An event at a block, such as a record that starts or stops. The
    /// encoder writes that the volume falls off with the distance.
    LevelEvent { event: i32, location: WorldPosition, data: i32 },
    /// Plays a sound that is known by its id. `seed` counts steps of
    /// `2^-53`: it stands for a number from 0 up to 1.
    ///
    /// The encoder writes the volume 1 and the pitch 1.
    SoundEffect { sound_id: u16, category: SoundCategory, position: Position, seed: u64 },
    /// The terrain of one chunk, which the encoder reads from the chunk
    /// itself.
    ChunkData { chunk: Vector2 },
    SystemMessage { text: String, color: NamedColor },
}

/// What a [`Packet`] says, as a mathematical value.
pub enum PacketView {
    Login {
        entity_id: EntityId,
        hardcore: bool,
        max_players: u32,
        view_distance: u8,
        simulation_distance: u8,
        dimension: DimensionType,
        game_mode: GameMode,
        previous_game_mode: GameMode,
    },
    Respawn {
        dimension: DimensionType,
        game_mode: GameMode,
        death_dimension: DimensionType,
        death_location: WorldPosition,
        data_kept: u8,
    },
    PlayerInfoUpdate { players: Seq<u128> },
    RemovePlayerInfo { player: u128 },
    SpawnEntity {
        entity_id: EntityId,
        uuid: u128,
        position: Position,
        pitch: i32,
        yaw: i32,
        head_yaw: i32,
    },
    SetEntityMetadata { entity_id: EntityId, skin_parts: u8 },
    RemoveEntities { entity_id: EntityId },
    StartWaitingChunks,
    UpdateTime { world_age: i64, time_of_day: i64 },
    BlockUpdate { location: WorldPosition, block_state_id: u16 },
    WorldEvent { event: i32, location: WorldPosition, data: i32 },
    LevelEvent { event: i32, location: WorldPosition, data: i32 },
    SoundEffect { sound_id: u16, category: SoundCategory, position: Position, seed: u64 },
    ChunkData { chunk: Vector2 },
    SystemMessage { text: Seq<char>, color: NamedColor },
}

impl View for Packet {
    type V = PacketView;

    open spec fn view(&self) -> PacketView {
        match *self {
            Packet::Login {
                entity_id,
                hardcore,
                max_players,
                view_distance,
                simulation_distance,
                dimension,
                game_mode,
                previous_game_mode,
            } => PacketView::Login {
                entity_id,
                hardcore,
                max_players,
                view_distance,
                simulation_distance,
                dimension,
                game_mode,
                previous_game_mode,
            },
            Packet::Respawn { dimension, game_mode, death_dimension, death_location, data_kept } => {
                PacketView::Respawn {
                    dimension,
                    game_mode,
                    death_dimension,
                    death_location,
                    data_kept,
                }
            },
            Packet::PlayerInfoUpdate { players } => PacketView::PlayerInfoUpdate {
                players: players@,
            },
            Packet::RemovePlayerInfo { player } => PacketView::RemovePlayerInfo { player },
            Packet::SpawnEntity { entity_id, uuid, position, pitch, yaw, head_yaw } => {
                PacketView::SpawnEntity { entity_id, uuid, position, pitch, yaw, head_yaw }
            },
            Packet::SetEntityMetadata { entity_id, skin_parts } => PacketView::SetEntityMetadata {
                entity_id,
                skin_parts,
            },
            Packet::RemoveEntities { entity_id } => PacketView::RemoveEntities { entity_id },
            Packet::StartWaitingChunks => PacketView::StartWaitingChunks,
            Packet::UpdateTime { world_age, time_of_day } => PacketView::UpdateTime {
                world_age,
                time_of_day,
            },
            Packet::BlockUpdate { location, block_state_id } => PacketView::BlockUpdate {
                location,
                block_state_id,
            },
            Packet::WorldEvent { event, location, data } => PacketView::WorldEvent {
                event,
                location,
                data,
            },
            Packet::LevelEvent { event, location, data } => PacketView::LevelEvent {
                event,
                location,
                data,
            },
            Packet::SoundEffect { sound_id, category, position, seed } => PacketView::SoundEffect {
                sound_id,
                category,
                position,
                seed,
            },
            Packet::ChunkData { chunk } => PacketView::ChunkData { chunk },
            Packet::SystemMessage { text, color } => PacketView::SystemMessage {
                text: text@,
                color,
            },
        }
    }
}

/// A packet and the players that get it, each once.
#[derive(Clone, Debug, PartialEq, Eq)]
pub struct Outbound {
    pub packet: Packet,
    pub recipients: Vec<u128>,
}

pub struct OutboundView {
    pub packet: PacketView,
    pub recipients: Seq<u128>,
}

impl View for Outbound {
    type V = OutboundView;

    open spec fn view(&self) -> OutboundView {
        OutboundView { packet: self.packet@, recipients: self.recipients@ }
    }
}

/// A call to a part of the server that the world does not hold. Each is
/// about one player.
#[derive(Clone, Copy, Debug, PartialEq, Eq, Structural)]
pub enum Callout {
    /// Tell the client which permission level the player has.
    PermissionLevel { player: u128 },
    /// Tell the client which commands it may offer.
    CommandSuggestions { player: u128 },
    /// Move the player, and wait for the client to agree.
    Teleport { player: u128, position: Position, yaw: i32, pitch: i32 },
    /// Pass on what the client has said of itself.
    ClientInformation { player: u128 },
    /// Tell the client what the player is able to do.
    Abilities { player: u128 },
    /// Tell the client where the world ends.
    WorldBorder { player: u128 },
    /// Begin to send the terrain round the player, nearest chunks first.
    InitialChunks { player: u128 },
    /// Set health, food and saturation.
    Health { player: u128, health: i32, food: i32, saturation: i32 },
    /// Let the player live through one tick.
    Tick { player: u128 },
}

/// One thing for the server to do. The steps of a plan are done in their
/// order, each finished before the next begins.
#[derive(Clone, Debug, PartialEq, Eq)]
pub enum Step {
    Send(Outbound),
    Call(Callout),
}

pub enum StepView {
    Send(OutboundView),
    Call(Callout),
}

impl View for Step {
    type V = StepView;

    open spec fn view(&self) -> StepView {
        match *self {
            Step::Send(outbound) => StepView::Send(outbound@),
            Step::Call(callout) => StepView::Call(callout),
        }
    }
}

/// The step that sends `packet` to `recipients`.
pub open spec fn send(packet: PacketView, recipients: Seq<u128>) -> StepView {
    StepView::Send(OutboundView { packet, recipients })
}

/// What each step of a plan says.
pub open spec fn plan_view(plan: Seq<Step>) -> Seq<StepView> {
    plan.map_values(|step: Step| step@)
}

/// A plan with one more step says what it said, and what the step says.
pub proof fn lemma_plan_view_push(plan: Seq<Step>, step: Step)
    ensures
        plan_view(plan.push(step)) == plan_view(plan).push(step@),
{
    assert(plan_view(plan.push(step)) =~= plan_view(plan).push(step@));
}

} // verus!
