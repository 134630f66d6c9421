//! Column-major, struct-of-arrays block storage for one layer of a chunk.

use vstd::prelude::*;

use crate::constants::CHUNK_BLOCK_COUNT;
use crate::constants::CHUNK_SIZE;

verus! {

/// Kind of a block cell.
#[derive(Clone, Copy, PartialEq, Eq, Structural, Debug)]
pub enum BlockType {
    Air,
    Tile,
    Wall,
    Sprite,
    TileEntity,
}

/// Stable numeric code of a block type, as carried in packets.
pub open spec fn block_type_code_spec(t: BlockType) -> u8 {
    match t {
        BlockType::Air => 0,
        BlockType::Tile => 1,
        BlockType::Wall => 2,
        BlockType::Sprite => 3,
        BlockType::TileEntity => 4,
    }
}

/// Block type denoted by a numeric code, if any.
pub open spec fn block_type_of_code_spec(c: u8) -> Option<BlockType> {
    if c == 0 {
        Some(BlockType::Air)
    } else if c == 1 {
        Some(BlockType::Tile)
    } else if c == 2 {
        Some(BlockType::Wall)
    } else if c == 3 {
        Some(BlockType::Sprite)
    } else if c == 4 {
        Some(BlockType::TileEntity)
    } else {
        None
    }
}

/// Codes round-trip back to the block type they came from.
pub proof fn lemma_block_type_code_round_trip(t: BlockType)
    ensures
        block_type_of_code_spec(block_type_code_spec(t)) == Some(t),
{
}

pub fn block_type_code(t: BlockType) -> (r: u8)
    ensures
        r == block_type_code_spec(t),
{
    match t {
        BlockType::Air => 0,
        BlockType::Tile => 1,
        BlockType::Wall => 2,
        BlockType::Sprite => 3,
        BlockType::TileEntity => 4,
    }
}

pub fn block_type_of_code(c: u8) -> (r: Option<BlockType>)
    ensures
        r == block_type_of_code_spec(c),
{
    if c == 0 {
        Some(BlockType::Air)
    } else if c == 1 {
        Some(BlockType::Tile)
    } else if c == 2 {
        Some(BlockType::Wall)
    } else if c == 3 {
        Some(BlockType::Sprite)
    } else if c == 4 {
        Some(BlockType::TileEntity)
    } else {
        None
    }
}

/// One of the three stacked layers of a chunk.  The foreground and the
/// middleground never hold walls, while the background holds only walls.
#[derive(Clone, Copy, PartialEq, Eq, Structural, Debug)]
pub enum LayerType {
    Foreground,
    Middleground,
    Background,
}

/// Stable numeric code of a layer, as carried in packets.
pub open spec fn layer_code_spec(l: LayerType) -> u8 {
    match l {
        LayerType::Foreground => 0,
        LayerType::Middleground => 1,
        LayerType::Background => 2,
    }
}

/// Layer denoted by a numeric code, if any.
pub open spec fn layer_of_code_spec(c: u8) -> Option<LayerType> {
    if c == 0 {
        Some(LayerType::Foreground)
    } else if c == 1 {
        Some(LayerType::Middleground)
    } else if c == 2 {
        Some(LayerType::Background)
    } else {
        None
    }
}

/// Codes round-trip back to the layer they came from.
pub proof fn lemma_layer_code_round_trip(l: LayerType)
    ensures
        layer_of_code_spec(layer_code_spec(l)) == Some(l),
{
}

pub fn layer_code(l: LayerType) -> (r: u8)
    ensures
        r == layer_code_spec(l),
{
    match l {
        LayerType::Foreground => 0,
        LayerType::Middleground => 1,
        LayerType::Background => 2,
    }
}

pub fn layer_of_code(c: u8) -> (r: Option<LayerType>)
    ensures
        r == layer_of_code_spec(c),
{
    if c == 0 {
        Some(LayerType::Foreground)
    } else if c == 1 {
        Some(LayerType::Middleground)
    } else if c == 2 {
        Some(LayerType::Background)
    } else {
        None
    }
}

/// A position inside a chunk, in block units relative to its low corner.
#[derive(Clone, Copy, PartialEq, Eq, Structural, Debug)]
pub struct ChunkRelativePos {
    pub x: u8,
    pub y: u8,
}

impl ChunkRelativePos {
    pub fn new(x: u8, y: u8) -> (r: ChunkRelativePos)
        ensures
            r.x == x,
            r.y == y,
    {
        ChunkRelativePos { x, y }
    }

    /// Both coordinates fall inside a chunk.
    pub open spec fn valid(self) -> bool {
        self.x < CHUNK_SIZE && self.y < CHUNK_SIZE
    }

    /// Flat index of this position in a column-major block array.
    pub open spec fn index_spec(self) -> int {
        self.y * CHUNK_SIZE + self.x
    }

    pub fn index(self) -> (r: usize)
        requires
            self.valid(),
        ensures
            r == self.index_spec(),
            r < CHUNK_BLOCK_COUNT,
    {
        self.y as usize * CHUNK_SIZE + self.x as usize
    }
}

/// Three parallel arrays of block data for one layer, indexed by
/// `y * CHUNK_SIZE + x`.
#[derive(Clone, Debug)]
pub struct BlockArray {
    pub block_type: Vec<BlockType>,
    pub block_id: Vec<u32>,
    pub texture_index: Vec<u8>,
}

impl BlockArray {
    /// All three arrays hold exactly one entry per block of a chunk.
    pub open spec fn wf(self) -> bool {
        &&& self.block_type@.len() == CHUNK_BLOCK_COUNT
        &&& self.block_id@.len() == CHUNK_BLOCK_COUNT
        &&& self.texture_index@.len() == CHUNK_BLOCK_COUNT
    }

    fn filled(t: BlockType, id: u32, tex: u8) -> (r: BlockArray)
        ensures
            r.wf(),
            forall|i: int| 0 <= i < CHUNK_BLOCK_COUNT ==> r.block_type@[i] == t,
            forall|i: int| 0 <= i < CHUNK_BLOCK_COUNT ==> r.block_id@[i] == id,
            forall|i: int| 0 <= i < CHUNK_BLOCK_COUNT ==> r.texture_index@[i] == tex,
    {
        let mut block_type: Vec<BlockType> = Vec::new();
        let mut block_id: Vec<u32> = Vec::new();
        let mut texture_index: Vec<u8> = Vec::new();
        let mut i: usize = 0;
        while i < CHUNK_BLOCK_COUNT
            invariant
                i <= CHUNK_BLOCK_COUNT,
                block_type@.len() == i,
                block_id@.len() == i,
                texture_index@.len() == i,
                forall|j: int| 0 <= j < i ==> block_type@[j] == t,
                forall|j: int| 0 <= j < i ==> block_id@[j] == id,
                forall|j: int| 0 <= j < i ==> texture_index@[j] == tex,
            decreases CHUNK_BLOCK_COUNT - i,
        {
            block_type.push(t);
            block_id.push(id);
            texture_index.push(tex);
            i = i + 1;
        }
        BlockArray { block_type, block_id, texture_index }
    }

    /// Homogeneous initial state: all air.
    pub fn filled_basic_air() -> (r: BlockArray)
        ensures
            r.wf(),
            forall|i: int|
                0 <= i < CHUNK_BLOCK_COUNT ==> r.block_type@[i] == BlockType::Air
                    && r.block_id@[i] == 0 && r.texture_index@[i] == 0,
    {
        Self::filled(BlockType::Air, 0, 0)
    }

    /// Homogeneous initial state: all plain tiles.
    pub fn filled_basic_tile() -> (r: BlockArray)
        ensures
            r.wf(),
            forall|i: int|
                0 <= i < CHUNK_BLOCK_COUNT ==> r.block_type@[i] == BlockType::Tile
                    && r.block_id@[i] == 1 && r.texture_index@[i] == 0,
    {
        Self::filled(BlockType::Tile, 1, 0)
    }

    /// Homogeneous initial state: all plain walls.
    pub fn filled_basic_wall() -> (r: BlockArray)
        ensures
            r.wf(),
            forall|i: int|
                0 <= i < CHUNK_BLOCK_COUNT ==> r.block_type@[i] == BlockType::Wall
                    && r.block_id@[i] == 1 && r.texture_index@[i] == 0,
    {
        Self::filled(BlockType::Wall, 1, 0)
    }

    pub fn set_block_type_byindex(&mut self, index: usize, block_type: BlockType)
        requires
            old(self).wf(),
            index < CHUNK_BLOCK_COUNT,
        ensures
            final(self).wf(),
            final(self).block_type@ == old(self).block_type@.update(index as int, block_type),
            final(self).block_id@ == old(self).block_id@,
            final(self).texture_index@ == old(self).texture_index@,
    {
        self.block_type.set(index, block_type);
    }

    pub fn set_block_type(&mut self, chunk_relative_pos: ChunkRelativePos, block_type: BlockType)
        requires
            old(self).wf(),
            chunk_relative_pos.valid(),
        ensures
            final(self).wf(),
            final(self).block_type@ == old(self).block_type@.update(
                chunk_relative_pos.index_spec(),
                block_type,
            ),
            final(self).block_id@ == old(self).block_id@,
            final(self).texture_index@ == old(self).texture_index@,
    {
        let index = chunk_relative_pos.index();
        self.block_type.set(index, block_type);
    }

    pub fn set_block_id_byindex(&mut self, index: usize, id: u32)
        requires
            old(self).wf(),
            index < CHUNK_BLOCK_COUNT,
        ensures
            final(self).wf(),
            final(self).block_id@ == old(self).block_id@.update(index as int, id),
            final(self).block_type@ == old(self).block_type@,
            final(self).texture_index@ == old(self).texture_index@,
    {
        self.block_id.set(index, id);
    }

    pub fn set_block_id(&mut self, chunk_relative_pos: ChunkRelativePos, id: u32)
        requires
            old(self).wf(),
            chunk_relative_pos.valid(),
        ensures
            final(self).wf(),
            final(self).block_id@ == old(self).block_id@.update(chunk_relative_pos.index_spec(), id),
            final(self).block_type@ == old(self).block_type@,
            final(self).texture_index@ == old(self).texture_index@,
    {
        let index = chunk_relative_pos.index();
        self.block_id.set(index, id);
    }

    pub fn set_block_texture_index_byindex(&mut self, index: usize, texture_index: u8)
        requires
            old(self).wf(),
            index < CHUNK_BLOCK_COUNT,
        ensures
            final(self).wf(),
            final(self).texture_index@ == old(self).texture_index@.update(index as int, texture_index),
            final(self).block_type@ == old(self).block_type@,
            final(self).block_id@ == old(self).block_id@,
    {
        self.texture_index.set(index, texture_index);
    }

    pub fn set_block_texture_index(
        &mut self,
        chunk_relative_pos: ChunkRelativePos,
        texture_index: u8,
    )
        requires
            old(self).wf(),
            chunk_relative_pos.valid(),
        ensures
            final(self).wf(),
            final(self).texture_index@ == old(self).texture_index@.update(
                chunk_relative_pos.index_spec(),
                texture_index,
            ),
            final(self).block_type@ == old(self).block_type@,
            final(self).block_id@ == old(self).block_id@,
    {
        let index = chunk_relative_pos.index();
        self.texture_index.set(index, texture_index);
    }

    pub fn clear_block_byindex(&mut self, index: usize)
        requires
            old(self).wf(),
            index < CHUNK_BLOCK_COUNT,
        ensures
            final(self).wf(),
            final(self).block_type@ == old(self).block_type@.update(index as int, BlockType::Air),
            final(self).block_id@ == old(self).block_id@.update(index as int, 0u32),
            final(self).texture_index@ == old(self).texture_index@.update(index as int, 0u8),
    {
        self.block_type.set(index, BlockType::Air);
        self.block_id.set(index, 0);
        self.texture_index.set(index, 0);
    }

    pub fn clear_block(&mut self, chunk_relative_pos: ChunkRelativePos)
        requires
            old(self).wf(),
            chunk_relative_pos.valid(),
        ensures
            final(self).wf(),
            final(self).block_type@ == old(self).block_type@.update(
                chunk_relative_pos.index_spec(),
                BlockType::Air,
            ),
            final(self).block_id@ == old(self).block_id@.update(chunk_relative_pos.index_spec(), 0u32),
            final(self).texture_index@ == old(self).texture_index@.update(
                chunk_relative_pos.index_spec(),
                0u8,
            ),
    {
        let index = chunk_relative_pos.index();
        self.block_type.set(index, BlockType::Air);
        self.block_id.set(index, 0);
        self.texture_index.set(index, 0);
    }
}

} // verus!
