//! Reading and changing single blocks.
//!
//! The caller fetches the chunk that owns a position and hands it in, if
//! the chunk was handed on to it: a chunk that nobody watched when it
//! arrived is withheld, and the world then has no block to read or to
//! change. What is to be sent after a change comes back with the result,
//! in the order in which it is sent, so that no client hears of a change
//! before it is made.

use super::block::{
    Block, BlockRegistry, ChunkData, ChunkRelativeBlockCoordinates, State, WORLD_LOWEST_Y,
    WORLD_MAX_Y,
};
use super::math::{Vector2, Vector3, WorldPosition};
use super::packet::{Outbound, Packet, PacketView, Step, BLOCK_BREAK_EVENT};
use super::{GetBlockError, World};
use vstd::prelude::*;

verus! {

/// The state id of air.
pub const AIR: u16 = 0;

/// A block that was set: what it replaced, and the news for the clients.
#[derive(Clone, Debug, PartialEq, Eq)]
pub struct BlockChange {
    pub replaced: u16,
    pub update: Outbound,
}

/// A block that was broken: what it was, and what is sent, in this order:
/// first the news that the block is air, then the particles of what it
/// was.
#[derive(Clone, Debug, PartialEq, Eq)]
pub struct BlockBreak {
    pub replaced: u16,
    pub plan: Vec<Step>,
}

/// The chunk that was handed in, as a value.
pub open spec fn handed_on(chunk: Option<&ChunkData>) -> Option<ChunkData> {
    match chunk {
        Some(held) => Some(*held),
        None => None,
    }
}

/// Whether there is a block to read at `position`: a chunk was handed on,
/// it is the chunk in which the position lies, and the height is one that
/// chunks reach.
pub open spec fn holds(chunk: Option<ChunkData>, position: WorldPosition) -> bool {
    &&& chunk matches Some(held)
    &&& held.position == position.spec_chunk()
    &&& WORLD_LOWEST_Y <= position.0.y <= WORLD_MAX_Y
}

/// Where the block at `position` stands in its chunk.
pub open spec fn coordinates_of(position: WorldPosition) -> ChunkRelativeBlockCoordinates {
    ChunkRelativeBlockCoordinates {
        x: (position.0.x as int % 16) as u8,
        y: position.0.y,
        z: (position.0.z as int % 16) as u8,
    }
}

/// The state id stored at `position`.
pub open spec fn block_state_id_at(chunk: Option<ChunkData>, position: WorldPosition) -> Result<
    u16,
    GetBlockError,
> {
    match chunk {
        Some(held) if holds(chunk, position) => Ok(
            held.blocks@[coordinates_of(position).index()],
        ),
        _ => Err(GetBlockError::BlockOutOfWorldBounds),
    }
}

/// The block and the state at `position`.
pub open spec fn block_and_state_at(
    chunk: Option<ChunkData>,
    registry: BlockRegistry,
    position: WorldPosition,
) -> Result<(Block, State), GetBlockError> {
    match block_state_id_at(chunk, position) {
        Ok(id) => match registry.spec_block_and_state(id) {
            Some(found) => Ok(found),
            None => Err(GetBlockError::InvalidBlockId),
        },
        Err(error) => Err(error),
    }
}

/// The block of column `column` at height `y`.
pub open spec fn in_column(column: Vector2, y: int) -> WorldPosition {
    WorldPosition(Vector3 { x: column.x, y: y as i32, z: column.z })
}

/// Whether the block of `column` at height `y` is known to be air. A block
/// that cannot be read is not.
pub open spec fn is_air_at(
    chunk: Option<ChunkData>,
    registry: BlockRegistry,
    column: Vector2,
    y: int,
) -> bool {
    match block_and_state_at(chunk, registry, in_column(column, y)) {
        Ok(found) => found.1.air,
        Err(_) => false,
    }
}

/// The height of the highest block of `column`, from `y` down, that is not
/// air; the lowest height of all where there is none.
pub open spec fn top_block_from(
    chunk: Option<ChunkData>,
    registry: BlockRegistry,
    column: Vector2,
    y: int,
) -> int
    decreases y - WORLD_LOWEST_Y,
{
    if y <= WORLD_LOWEST_Y {
        WORLD_LOWEST_Y as int
    } else if is_air_at(chunk, registry, column, y) {
        top_block_from(chunk, registry, column, y - 1)
    } else {
        y
    }
}

/// The height of the highest block of `column` that is not air.
pub open spec fn top_block(chunk: Option<ChunkData>, registry: BlockRegistry, column: Vector2) -> int {
    top_block_from(chunk, registry, column, WORLD_MAX_Y as int)
}

/// Those that a packet about a block is not sent to: the player that
/// caused it, if a player did.
pub open spec fn spared(cause: Option<u128>) -> Seq<u128> {
    match cause {
        Some(player) => seq![player],
        None => Seq::empty(),
    }
}

/// The top block lies in the world; all above it, up to `y`, is air; and
/// it is not air itself, unless it is the lowest block.
pub proof fn lemma_top_block_from(
    chunk: Option<ChunkData>,
    registry: BlockRegistry,
    column: Vector2,
    y: int,
)
    requires
        WORLD_LOWEST_Y <= y,
    ensures
        WORLD_LOWEST_Y <= top_block_from(chunk, registry, column, y) <= y,
        forall|above: int|
            top_block_from(chunk, registry, column, y) < above <= y ==> #[trigger] is_air_at(
                chunk,
                registry,
                column,
                above,
            ),
        top_block_from(chunk, registry, column, y) == WORLD_LOWEST_Y || !is_air_at(
            chunk,
            registry,
            column,
            top_block_from(chunk, registry, column, y),
        ),
    decreases y - WORLD_LOWEST_Y,
{
    if y > WORLD_LOWEST_Y && is_air_at(chunk, registry, column, y) {
        lemma_top_block_from(chunk, registry, column, y - 1);
    }
}

/// Where no chunk was handed on, the scan for the top block ends at once:
/// the highest block cannot be read, and so it is not known to be air.
pub proof fn lemma_top_block_without_chunk(registry: BlockRegistry, column: Vector2)
    ensures
        top_block(None, registry, column) == WORLD_MAX_Y,
{
}

impl World {
    /// The state id of the block at `position`, read from the chunk that
    /// owns it.
    ///
    /// Fails with `BlockOutOfWorldBounds` where no chunk was handed on,
    /// where `chunk` is not the chunk in which the position lies, and
    /// where the height is one that chunks do not reach.
    pub fn get_block_state_id(&self, chunk: Option<&ChunkData>, position: WorldPosition) -> (id:
        Result<u16, GetBlockError>)
        ensures
            id == block_state_id_at(handed_on(chunk), position),
    {
        let held = match chunk {
            Some(held) => held,
            None => {
                return Err(GetBlockError::BlockOutOfWorldBounds);
            },
        };
        let (owner, relative) = position.chunk_and_chunk_relative_position();
        if owner != held.position {
            return Err(GetBlockError::BlockOutOfWorldBounds);
        }
        let coordinates = match ChunkRelativeBlockCoordinates::from_relative(relative) {
            Some(coordinates) => coordinates,
            None => {
                return Err(GetBlockError::BlockOutOfWorldBounds);
            },
        };
        assert(coordinates == coordinates_of(position));
        match held.blocks.get_block(coordinates) {
            Some(id) => Ok(id),
            None => Err(GetBlockError::BlockOutOfWorldBounds),
        }
    }

    /// The block and the state at `position`.
    ///
    /// Fails as [`World::get_block_state_id`] does, and with
    /// `InvalidBlockId` where the registry does not know the stored id.
    pub fn get_block_and_block_state<'a>(
        &self,
        chunk: Option<&ChunkData>,
        registry: &'a BlockRegistry,
        position: WorldPosition,
    ) -> (found: Result<(&'a Block, &'a State), GetBlockError>)
        ensures
            match found {
                Ok((block, state)) => block_and_state_at(handed_on(chunk), *registry, position)
                    == Ok::<(Block, State), GetBlockError>((*block, *state)),
                Err(error) => block_and_state_at(handed_on(chunk), *registry, position) == Err::<
                    (Block, State),
                    GetBlockError,
                >(error),
            },
    {
        let id = match self.get_block_state_id(chunk, position) {
            Ok(id) => id,
            Err(error) => {
                return Err(error);
            },
        };
        match registry.get_block_and_state_by_state_id(id) {
            Some(found) => Ok(found),
            None => Err(GetBlockError::InvalidBlockId),
        }
    }

    /// The block at `position`.
    pub fn get_block<'a>(
        &self,
        chunk: Option<&ChunkData>,
        registry: &'a BlockRegistry,
        position: WorldPosition,
    ) -> (found: Result<&'a Block, GetBlockError>)
        ensures
            match found {
                Ok(block) => block_and_state_at(handed_on(chunk), *registry, position) matches Ok(
                    both,
                ) && both.0 == *block,
                Err(error) => block_and_state_at(handed_on(chunk), *registry, position) == Err::<
                    (Block, State),
                    GetBlockError,
                >(error),
            },
    {
        let id = match self.get_block_state_id(chunk, position) {
            Ok(id) => id,
            Err(error) => {
                return Err(error);
            },
        };
        match registry.get_block_by_state_id(id) {
            Some(block) => Ok(block),
            None => Err(GetBlockError::InvalidBlockId),
        }
    }

    /// The state of the block at `position`.
    pub fn get_block_state<'a>(
        &self,
        chunk: Option<&ChunkData>,
        registry: &'a BlockRegistry,
        position: WorldPosition,
    ) -> (found: Result<&'a State, GetBlockError>)
        ensures
            match found {
                Ok(state) => block_and_state_at(handed_on(chunk), *registry, position) matches Ok(
                    both,
                ) && both.1 == *state,
                Err(error) => block_and_state_at(handed_on(chunk), *registry, position) == Err::<
                    (Block, State),
                    GetBlockError,
                >(error),
            },
    {
        let id = match self.get_block_state_id(chunk, position) {
            Ok(id) => id,
            Err(error) => {
                return Err(error);
            },
        };
        match registry.get_state_by_state_id(id) {
            Some(state) => Ok(state),
            None => Err(GetBlockError::InvalidBlockId),
        }
    }

    /// The height of the first block of the column, from the top down,
    /// that is not air. A block that cannot be read counts as one that is
    /// not air: where no chunk was handed on, that is the highest block.
    /// Where the whole column is air, the lowest height.
    pub fn get_top_block(
        &self,
        chunk: Option<&ChunkData>,
        registry: &BlockRegistry,
        position: Vector2,
    ) -> (top: i32)
        ensures
            top == top_block(handed_on(chunk), *registry, position),
            WORLD_LOWEST_Y <= top <= WORLD_MAX_Y,
            forall|above: int|
                top < above <= WORLD_MAX_Y ==> #[trigger] is_air_at(
                    handed_on(chunk),
                    *registry,
                    position,
                    above,
                ),
            top == WORLD_LOWEST_Y || !is_air_at(handed_on(chunk), *registry, position, top as int),
            chunk is None ==> top == WORLD_MAX_Y,
    {
        proof {
            lemma_top_block_from(handed_on(chunk), *registry, position, WORLD_MAX_Y as int);
        }
        let mut y: i32 = WORLD_MAX_Y;
        while y > WORLD_LOWEST_Y
            invariant
                WORLD_LOWEST_Y <= y <= WORLD_MAX_Y,
                top_block(handed_on(chunk), *registry, position) == top_block_from(
                    handed_on(chunk),
                    *registry,
                    position,
                    y as int,
                ),
                chunk is None ==> y == WORLD_MAX_Y,
            decreases y - WORLD_LOWEST_Y,
        {
            let block = WorldPosition(Vector3 { x: position.x, y, z: position.z });
            assert(block == in_column(position, y as int));
            let air = match self.get_block_state(chunk, registry, block) {
                Ok(state) => state.air,
                Err(_) => false,
            };
            if !air {
                proof {
                    lemma_top_block_from(handed_on(chunk), *registry, position, WORLD_MAX_Y as int);
                }
                return y;
            }
            y = y - 1;
        }
        y
    }

    /// Stores a state id at `position` and gives back what was there.
    fn write_block(
        &self,
        chunk: Option<&mut ChunkData>,
        position: WorldPosition,
        block_state_id: u16,
    ) -> (replaced: Result<u16, GetBlockError>)
        ensures
            match chunk {
                Some(held) => {
                    &&& final(held).position == held.position
                    &&& replaced == block_state_id_at(Some(*held), position)
                    &&& holds(Some(*held), position) ==> final(held).blocks@
                        == held.blocks@.update(coordinates_of(position).index(), block_state_id)
                    &&& !holds(Some(*held), position) ==> final(held).blocks@ == held.blocks@
                },
                None => replaced == Err::<u16, GetBlockError>(
                    GetBlockError::BlockOutOfWorldBounds,
                ),
            },
    {
        let held = match chunk {
            Some(held) => held,
            None => {
                return Err(GetBlockError::BlockOutOfWorldBounds);
            },
        };
        let (owner, relative) = position.chunk_and_chunk_relative_position();
        if owner != held.position {
            return Err(GetBlockError::BlockOutOfWorldBounds);
        }
        let coordinates = match ChunkRelativeBlockCoordinates::from_relative(relative) {
            Some(coordinates) => coordinates,
            None => {
                return Err(GetBlockError::BlockOutOfWorldBounds);
            },
        };
        assert(coordinates == coordinates_of(position));
        match held.blocks.set_block(coordinates, block_state_id) {
            Some(replaced) => Ok(replaced),
            None => Err(GetBlockError::BlockOutOfWorldBounds),
        }
    }

    /// Sets the block at `position` and says what it was before.
    ///
    /// The update for the clients comes back with the result: it is for
    /// every player with a connection, and is to be sent once this call
    /// has returned. Fails with `BlockOutOfWorldBounds`, and changes
    /// nothing, where no chunk was handed on or `chunk` does not hold the
    /// position.
    pub fn set_block_state(
        &self,
        chunk: Option<&mut ChunkData>,
        position: WorldPosition,
        block_state_id: u16,
    ) -> (change: Result<BlockChange, GetBlockError>)
        ensures
            match chunk {
                Some(held) => {
                    &&& final(held).position == held.position
                    &&& change is Ok <==> holds(Some(*held), position)
                    &&& holds(Some(*held), position) ==> final(held).blocks@
                        == held.blocks@.update(coordinates_of(position).index(), block_state_id)
                    &&& !holds(Some(*held), position) ==> final(held).blocks@ == held.blocks@
                    &&& change matches Ok(change) ==> block_state_id_at(Some(*held), position)
                        == Ok::<u16, GetBlockError>(change.replaced)
                },
                None => change is Err,
            },
            match change {
                Ok(change) => self.tells(
                    change.update,
                    PacketView::BlockUpdate { location: position, block_state_id },
                    Seq::empty(),
                ),
                Err(error) => error == GetBlockError::BlockOutOfWorldBounds,
            },
    {
        let replaced = match self.write_block(chunk, position, block_state_id) {
            Ok(replaced) => replaced,
            Err(error) => {
                return Err(error);
            },
        };
        let update = self.broadcast_packet_all(
            Packet::BlockUpdate { location: position, block_state_id },
        );
        Ok(BlockChange { replaced, update })
    }

    /// Breaks the block at `position`: sets it to air, tells every player
    /// with a connection that it is air, and then shows the particles of
    /// what was there to every such player but the one that broke it,
    /// whose client has shown them already.
    ///
    /// The plan holds these two packets in the order in which they are
    /// sent, once this call has returned. Fails with
    /// `BlockOutOfWorldBounds`, and changes nothing, where no chunk was
    /// handed on or `chunk` does not hold the position.
    pub fn break_block(
        &self,
        chunk: Option<&mut ChunkData>,
        position: WorldPosition,
        cause: Option<u128>,
    ) -> (broken: Result<BlockBreak, GetBlockError>)
        ensures
            match chunk {
                Some(held) => {
                    &&& final(held).position == held.position
                    &&& broken is Ok <==> holds(Some(*held), position)
                    &&& holds(Some(*held), position) ==> final(held).blocks@
                        == held.blocks@.update(coordinates_of(position).index(), AIR)
                    &&& !holds(Some(*held), position) ==> final(held).blocks@ == held.blocks@
                    &&& broken matches Ok(broken) ==> block_state_id_at(Some(*held), position)
                        == Ok::<u16, GetBlockError>(broken.replaced)
                },
                None => broken is Err,
            },
            match broken {
                Ok(broken) => {
                    &&& broken.plan@.len() == 2
                    &&& broken.plan@[0] matches Step::Send(update)
                    &&& self.tells(
                        update,
                        PacketView::BlockUpdate { location: position, block_state_id: AIR },
                        Seq::empty(),
                    )
                    &&& broken.plan@[1] matches Step::Send(particles)
                    &&& self.tells(
                        particles,
                        PacketView::WorldEvent {
                            event: BLOCK_BREAK_EVENT,
                            location: position,
                            data: broken.replaced as i32,
                        },
                        spared(cause),
                    )
                },
                Err(error) => error == GetBlockError::BlockOutOfWorldBounds,
            },
    {
        let replaced = match self.write_block(chunk, position, AIR) {
            Ok(replaced) => replaced,
            Err(error) => {
                return Err(error);
            },
        };
        let update = self.broadcast_packet_all(
            Packet::BlockUpdate { location: position, block_state_id: AIR },
        );
        let particles_packet = Packet::WorldEvent {
            event: BLOCK_BREAK_EVENT,
            location: position,
            data: replaced as i32,
        };
        let particles = match cause {
            Some(player) => {
                let except: [u128; 1] = [player];
                assert(except@ =~= spared(cause));
                self.broadcast_packet_except(except.as_slice(), particles_packet)
            },
            None => self.broadcast_packet_all(particles_packet),
        };
        let mut plan: Vec<Step> = Vec::new();
        plan.push(Step::Send(update));
        plan.push(Step::Send(particles));
        Ok(BlockBreak { replaced, plan })
    }
}

/// What was set at a position is read there afterwards.
pub proof fn lemma_set_then_get(
    before: ChunkData,
    after: ChunkData,
    position: WorldPosition,
    block_state_id: u16,
)
    requires
        holds(Some(before), position),
        after.position == before.position,
        after.blocks@ == before.blocks@.update(coordinates_of(position).index(), block_state_id),
    ensures
        block_state_id_at(Some(after), position) == Ok::<u16, GetBlockError>(block_state_id),
{
    before.blocks.lemma_len();
}

/// Setting one block leaves every other block of the chunk as it was.
pub proof fn lemma_set_leaves_others(
    before: ChunkData,
    after: ChunkData,
    position: WorldPosition,
    block_state_id: u16,
    other: WorldPosition,
)
    requires
        holds(Some(before), position),
        after.position == before.position,
        after.blocks@ == before.blocks@.update(coordinates_of(position).index(), block_state_id),
        other != position,
    ensures
        block_state_id_at(Some(after), other) == block_state_id_at(Some(before), other),
{
    before.blocks.lemma_len();
    if holds(Some(before), other) {
        let a = coordinates_of(position);
        let b = coordinates_of(other);
        if a.index() == b.index() {
            super::block::lemma_index_injective(a, b);
            assert(position.0.x as int / 16 == other.0.x as int / 16);
            assert(position.0.z as int / 16 == other.0.z as int / 16);
            assert(position.0.x == other.0.x);
            assert(position.0.z == other.0.z);
            assert(position.0 == other.0);
        }
    }
}

} // verus!
