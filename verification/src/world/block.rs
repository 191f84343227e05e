//! The blocks of a chunk, and the table that says what a stored number
//! means.

use super::math::{Vector2, Vector3};
use vstd::prelude::*;

verus! {

/// The height of the lowest block of a chunk.
pub const WORLD_LOWEST_Y: i32 = -64;

/// The height of the highest block of a chunk.
pub const WORLD_MAX_Y: i32 = 319;

/// Blocks in one layer of a chunk.
pub const CHUNK_AREA: usize = 256;

/// Blocks in a chunk: 384 layers.
pub const CHUNK_VOLUME: usize = 98304;

/// Where a block stands in its chunk.
#[derive(Clone, Copy, Debug, PartialEq, Eq, Structural)]
pub struct ChunkRelativeBlockCoordinates {
    pub x: u8,
    pub y: i32,
    pub z: u8,
}

impl ChunkRelativeBlockCoordinates {
    /// Whether a chunk has a block at these coordinates.
    pub open spec fn in_bounds(self) -> bool {
        &&& self.x < 16
        &&& self.z < 16
        &&& WORLD_LOWEST_Y <= self.y <= WORLD_MAX_Y
    }

    /// The place of the block in the chunk's storage: layers from the
    /// lowest up, in each layer rows of equal `z`.
    pub open spec fn index(self) -> int {
        (self.y - WORLD_LOWEST_Y) * CHUNK_AREA + self.z * 16 + self.x
    }

    /// The coordinates that `relative` names, if its `x` and `z` lie in a
    /// chunk.
    pub open spec fn spec_from_relative(relative: Vector3) -> Option<
        ChunkRelativeBlockCoordinates,
    > {
        if 0 <= relative.x < 16 && 0 <= relative.z < 16 {
            Some(
                ChunkRelativeBlockCoordinates {
                    x: relative.x as u8,
                    y: relative.y,
                    z: relative.z as u8,
                },
            )
        } else {
            None
        }
    }

    /// The coordinates that `relative` names, if its `x` and `z` lie in a
    /// chunk. The height is taken as it is.
    pub fn from_relative(relative: Vector3) -> (coordinates: Option<ChunkRelativeBlockCoordinates>)
        ensures
            coordinates == ChunkRelativeBlockCoordinates::spec_from_relative(relative),
    {
        if 0 <= relative.x && relative.x < 16 && 0 <= relative.z && relative.z < 16 {
            Some(
                ChunkRelativeBlockCoordinates {
                    x: relative.x as u8,
                    y: relative.y,
                    z: relative.z as u8,
                },
            )
        } else {
            None
        }
    }
}

/// Two blocks of a chunk that are stored in one place are one block.
pub proof fn lemma_index_injective(a: ChunkRelativeBlockCoordinates, b: ChunkRelativeBlockCoordinates)
    requires
        a.in_bounds(),
        b.in_bounds(),
        a.index() == b.index(),
    ensures
        a == b,
{
}

/// The block states of a chunk, one number for each block.
#[derive(Clone, Debug, PartialEq, Eq)]
pub struct ChunkBlocks {
    blocks: Box<[u16; CHUNK_VOLUME]>,
}

impl View for ChunkBlocks {
    type V = Seq<u16>;

    closed spec fn view(&self) -> Seq<u16> {
        self.blocks@
    }
}

impl ChunkBlocks {
    /// The state stored at `position`, if the chunk has a block there.
    pub open spec fn spec_get_block(&self, position: ChunkRelativeBlockCoordinates) -> Option<u16> {
        if position.in_bounds() {
            Some(self@[position.index()])
        } else {
            None
        }
    }

    /// A chunk has a state for each of its blocks.
    pub broadcast proof fn lemma_len(&self)
        ensures
            #[trigger] self@.len() == CHUNK_VOLUME,
    {
        broadcast use vstd::array::array_len_matches_n;
    }

    /// A chunk in which every block has the state `block_id`.
    pub fn filled(block_id: u16) -> (chunk: ChunkBlocks)
        ensures
            forall|i: int| 0 <= i < CHUNK_VOLUME ==> chunk@[i] == block_id,
    {
        let blocks: [u16; CHUNK_VOLUME] = vstd::array::array_fill_for_copy_types(block_id);
        ChunkBlocks { blocks: Box::new(blocks) }
    }

    /// The state stored at `position`, if the chunk has a block there.
    pub fn get_block(&self, position: ChunkRelativeBlockCoordinates) -> (id: Option<u16>)
        ensures
            id == self.spec_get_block(position),
    {
        if position.x < 16 && position.z < 16 && WORLD_LOWEST_Y <= position.y && position.y
            <= WORLD_MAX_Y {
            let layer: usize = (position.y - WORLD_LOWEST_Y) as usize;
            let index: usize = layer * CHUNK_AREA + position.z as usize * 16 + position.x as usize;
            Some(self.blocks[index])
        } else {
            None
        }
    }

    /// Stores `block_id` at `position` and gives back what was there. Where
    /// the chunk has no such block, nothing changes.
    pub fn set_block(&mut self, position: ChunkRelativeBlockCoordinates, block_id: u16) -> (replaced:
        Option<u16>)
        ensures
            replaced == old(self).spec_get_block(position),
            position.in_bounds() ==> final(self)@ == old(self)@.update(position.index(), block_id),
            !position.in_bounds() ==> final(self)@ == old(self)@,
    {
        if position.x < 16 && position.z < 16 && WORLD_LOWEST_Y <= position.y && position.y
            <= WORLD_MAX_Y {
            let layer: usize = (position.y - WORLD_LOWEST_Y) as usize;
            let index: usize = layer * CHUNK_AREA + position.z as usize * 16 + position.x as usize;
            let replaced = self.blocks[index];
            self.blocks[index] = block_id;
            Some(replaced)
        } else {
            None
        }
    }
}

/// A chunk: where it lies, and its blocks.
#[derive(Clone, Debug, PartialEq, Eq)]
pub struct ChunkData {
    pub position: Vector2,
    pub blocks: ChunkBlocks,
}

/// One state of a block.
#[derive(Clone, Copy, Debug, PartialEq, Eq, Structural)]
pub struct State {
    /// The place of the block in the registry's list of blocks.
    pub block: u16,
    pub air: bool,
    pub luminance: u8,
}

/// A kind of block.
#[derive(Clone, Debug, PartialEq, Eq)]
pub struct Block {
    pub id: u16,
    pub name: String,
    pub default_state_id: u16,
}

/// The table of all blocks and states. A state id is a place in `states`;
/// not every place is taken.
#[derive(Clone, Debug, PartialEq, Eq)]
pub struct BlockRegistry {
    pub blocks: Vec<Block>,
    pub states: Vec<Option<State>>,
}

impl BlockRegistry {
    /// The block and the state that a state id stands for: the state at
    /// that place of the table, and the block that the state names, if
    /// both are there.
    pub open spec fn spec_block_and_state(&self, id: u16) -> Option<(Block, State)> {
        if id < self.states@.len() {
            match self.states@[id as int] {
                Some(state) => if state.block < self.blocks@.len() {
                    Some((self.blocks@[state.block as int], state))
                } else {
                    None
                },
                None => None,
            }
        } else {
            None
        }
    }

    pub open spec fn spec_block(&self, id: u16) -> Option<Block> {
        match self.spec_block_and_state(id) {
            Some(found) => Some(found.0),
            None => None,
        }
    }

    pub open spec fn spec_state(&self, id: u16) -> Option<State> {
        match self.spec_block_and_state(id) {
            Some(found) => Some(found.1),
            None => None,
        }
    }

    /// The block and the state that a state id stands for.
    pub fn get_block_and_state_by_state_id(&self, id: u16) -> (found: Option<(&Block, &State)>)
        ensures
            match found {
                Some((block, state)) => self.spec_block_and_state(id) == Some((*block, *state)),
                None => self.spec_block_and_state(id) is None,
            },
    {
        if (id as usize) < self.states.len() {
            match &self.states[id as usize] {
                Some(state) => {
                    if (state.block as usize) < self.blocks.len() {
                        Some((&self.blocks[state.block as usize], state))
                    } else {
                        None
                    }
                },
                None => None,
            }
        } else {
            None
        }
    }

    /// The block that a state id belongs to.
    pub fn get_block_by_state_id(&self, id: u16) -> (found: Option<&Block>)
        ensures
            match found {
                Some(block) => self.spec_block(id) == Some(*block),
                None => self.spec_block(id) is None,
            },
    {
        match self.get_block_and_state_by_state_id(id) {
            Some((block, _)) => Some(block),
            None => None,
        }
    }

    /// The state that a state id stands for.
    pub fn get_state_by_state_id(&self, id: u16) -> (found: Option<&State>)
        ensures
            match found {
                Some(state) => self.spec_state(id) == Some(*state),
                None => self.spec_state(id) is None,
            },
    {
        match self.get_block_and_state_by_state_id(id) {
            Some((_, state)) => Some(state),
            None => None,
        }
    }
}

} // verus!
