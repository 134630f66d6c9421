//! A chunk: three stacked block layers plus a count of its non-air tiles,
//! and the packetised views of it (struct-of-arrays and array-of-structs).

use vstd::prelude::*;

use crate::block::BlockArray;
use crate::block::BlockType;
use crate::block::ChunkRelativePos;
use crate::block::LayerType;
use crate::block::block_type_code;
use crate::block::block_type_code_spec;
use crate::constants::CHUNK_BLOCK_COUNT;
use crate::constants::CHUNK_SIZE;

verus! {

/// A chunk's coordinate on the world grid, in chunk units.
#[derive(Clone, Copy, PartialEq, Eq, Structural, Hash, Debug)]
pub struct ChunkPos {
    pub x: i32,
    pub y: i32,
}

impl ChunkPos {
    pub fn new(x: i32, y: i32) -> (r: ChunkPos)
        ensures
            r.x == x,
            r.y == y,
    {
        ChunkPos { x, y }
    }
}

/// A fixed-size square of tile data, composed of a foreground, a
/// middleground and a background layer.
#[derive(Clone, Debug)]
pub struct Chunk {
    pub foreground: BlockArray,
    pub middleground: BlockArray,
    pub background: BlockArray,
    pub total_block_count: u64,
}

/// The named layer of a chunk.
pub open spec fn layer_view(c: Chunk, l: LayerType) -> BlockArray {
    match l {
        LayerType::Foreground => c.foreground,
        LayerType::Middleground => c.middleground,
        LayerType::Background => c.background,
    }
}

/// Writing `t` into layer `l` is permitted: walls go only to the
/// background, non-walls only to the foreground and middleground; clearing
/// to air is always permitted.
pub open spec fn write_permitted(l: LayerType, t: BlockType) -> bool {
    t == BlockType::Air || ((l == LayerType::Background) <==> (t == BlockType::Wall))
}

/// Whether writing `t` into layer `l` respects the layer rule.
pub fn is_write_permitted(l: LayerType, t: BlockType) -> (r: bool)
    ensures
        r == write_permitted(l, t),
{
    match t {
        BlockType::Air => true,
        BlockType::Wall => matches!(l, LayerType::Background),
        _ => !matches!(l, LayerType::Background),
    }
}

impl Chunk {
    /// All three layers hold exactly one entry per block.
    pub open spec fn wf(self) -> bool {
        self.foreground.wf() && self.middleground.wf() && self.background.wf()
    }

    pub fn get_total_block_count(&self) -> (r: u64)
        ensures
            r == self.total_block_count,
    {
        self.total_block_count
    }

    /// Sets the block type at one position of one layer, if the layer may
    /// hold that type; otherwise leaves the chunk unchanged.
    pub fn change_block_property_type(
        &mut self,
        chunk_relative_pos: ChunkRelativePos,
        layer: LayerType,
        new_type: BlockType,
    )
        requires
            old(self).wf(),
            chunk_relative_pos.valid(),
        ensures
            final(self).wf(),
            write_permitted(layer, new_type) ==> {
                &&& layer_view(*final(self), layer).block_type@ == layer_view(
                    *old(self),
                    layer,
                ).block_type@.update(chunk_relative_pos.index_spec(), new_type)
                &&& layer_view(*final(self), layer).block_id@ == layer_view(
                    *old(self),
                    layer,
                ).block_id@
                &&& layer_view(*final(self), layer).texture_index@ == layer_view(
                    *old(self),
                    layer,
                ).texture_index@
                &&& forall|l2: LayerType|
                    l2 != layer ==> layer_view(*final(self), l2) == layer_view(*old(self), l2)
                &&& final(self).total_block_count == old(self).total_block_count
            },
            !write_permitted(layer, new_type) ==> *final(self) == *old(self),
    {
        if !is_write_permitted(layer, new_type) {
            return ;
        }
        match layer {
            LayerType::Foreground => {
                self.foreground.set_block_type(chunk_relative_pos, new_type);
            },
            LayerType::Middleground => {
                self.middleground.set_block_type(chunk_relative_pos, new_type);
            },
            LayerType::Background => {
                self.background.set_block_type(chunk_relative_pos, new_type);
            },
        }
    }

    /// Sets the block id at one position of one layer.
    pub fn change_block_property_id(
        &mut self,
        chunk_relative_pos: ChunkRelativePos,
        layer: LayerType,
        new_id: u32,
    )
        requires
            old(self).wf(),
            chunk_relative_pos.valid(),
        ensures
            final(self).wf(),
            layer_view(*final(self), layer).block_id@ == layer_view(
                *old(self),
                layer,
            ).block_id@.update(chunk_relative_pos.index_spec(), new_id),
            layer_view(*final(self), layer).block_type@ == layer_view(
                *old(self),
                layer,
            ).block_type@,
            layer_view(*final(self), layer).texture_index@ == layer_view(
                *old(self),
                layer,
            ).texture_index@,
            forall|l2: LayerType|
                l2 != layer ==> layer_view(*final(self), l2) == layer_view(*old(self), l2),
            final(self).total_block_count == old(self).total_block_count,
    {
        match layer {
            LayerType::Foreground => {
                self.foreground.set_block_id(chunk_relative_pos, new_id);
            },
            LayerType::Middleground => {
                self.middleground.set_block_id(chunk_relative_pos, new_id);
            },
            LayerType::Background => {
                self.background.set_block_id(chunk_relative_pos, new_id);
            },
        }
    }

    /// Sets the texture index at one position of one layer.
    pub fn change_block_property_texture_index(
        &mut self,
        chunk_relative_pos: ChunkRelativePos,
        layer: LayerType,
        new_texture_index: u8,
    )
        requires
            old(self).wf(),
            chunk_relative_pos.valid(),
        ensures
            final(self).wf(),
            layer_view(*final(self), layer).texture_index@ == layer_view(
                *old(self),
                layer,
            ).texture_index@.update(chunk_relative_pos.index_spec(), new_texture_index),
            layer_view(*final(self), layer).block_type@ == layer_view(
                *old(self),
                layer,
            ).block_type@,
            layer_view(*final(self), layer).block_id@ == layer_view(*old(self), layer).block_id@,
            forall|l2: LayerType|
                l2 != layer ==> layer_view(*final(self), l2) == layer_view(*old(self), l2),
            final(self).total_block_count == old(self).total_block_count,
    {
        match layer {
            LayerType::Foreground => {
                self.foreground.set_block_texture_index(chunk_relative_pos, new_texture_index);
            },
            LayerType::Middleground => {
                self.middleground.set_block_texture_index(chunk_relative_pos, new_texture_index);
            },
            LayerType::Background => {
                self.background.set_block_texture_index(chunk_relative_pos, new_texture_index);
            },
        }
    }

    /// Copies the chunk into its array-of-structs packet view.
    pub fn to_mesh(&self) -> (r: ChunkMesh)
        requires
            self.wf(),
        ensures
            r.wf(),
            r.foreground@ == layer_aos_spec(self.foreground),
            r.middleground@ == layer_aos_spec(self.middleground),
            r.background@ == layer_aos_spec(self.background),
    {
        ChunkMesh {
            background: convert_layer_to_aos(&self.background),
            middleground: convert_layer_to_aos(&self.middleground),
            foreground: convert_layer_to_aos(&self.foreground),
        }
    }
}

/// One tile cell in packet form: plain-old-data record of its position
/// inside the chunk and its block data.
#[derive(Clone, Copy, PartialEq, Eq, Structural, Debug)]
pub struct Block {
    pub block_id: u32,
    pub x: u8,
    pub y: u8,
    pub block_type: u8,
    pub texture_index: u8,
}

/// The array-of-structs record of block index `i` of layer `l`.
pub open spec fn aos_block_spec(l: BlockArray, i: int) -> Block {
    Block {
        x: (i % (CHUNK_SIZE as int)) as u8,
        y: (i / (CHUNK_SIZE as int)) as u8,
        block_id: l.block_id@[i],
        block_type: block_type_code_spec(l.block_type@[i]),
        texture_index: l.texture_index@[i],
    }
}

/// The array-of-structs view of a whole layer.
pub open spec fn layer_aos_spec(l: BlockArray) -> Seq<Block> {
    Seq::new(CHUNK_BLOCK_COUNT as nat, |i: int| aos_block_spec(l, i))
}

/// Copies one layer into array-of-structs form, deriving each block's
/// position from its flat index.
pub fn convert_layer_to_aos(layer: &BlockArray) -> (r: Vec<Block>)
    requires
        layer.wf(),
    ensures
        r@ == layer_aos_spec(*layer),
{
    let mut out: Vec<Block> = Vec::new();
    let mut i: usize = 0;
    while i < CHUNK_BLOCK_COUNT
        invariant
            i <= CHUNK_BLOCK_COUNT,
            layer.wf(),
            out@.len() == i,
            forall|j: int| 0 <= j < i ==> out@[j] == aos_block_spec(*layer, j),
        decreases CHUNK_BLOCK_COUNT - i,
    {
        let b = Block {
            x: (i % CHUNK_SIZE) as u8,
            y: (i / CHUNK_SIZE) as u8,
            block_id: layer.block_id[i],
            block_type: block_type_code(layer.block_type[i]),
            texture_index: layer.texture_index[i],
        };
        out.push(b);
        i = i + 1;
    }
    proof {
        assert(out@ =~= layer_aos_spec(*layer));
    }
    out
}

/// An array-of-structs packet view of a whole chunk.  The field order is
/// reversed relative to the chunk to reflect the consumer's draw order:
/// the background is drawn first and the foreground last.
#[derive(Clone, Debug)]
pub struct ChunkMesh {
    pub background: Vec<Block>,
    pub middleground: Vec<Block>,
    pub foreground: Vec<Block>,
}

impl ChunkMesh {
    /// All three arrays hold exactly one record per block of a chunk.
    pub open spec fn wf(self) -> bool {
        &&& self.background@.len() == CHUNK_BLOCK_COUNT
        &&& self.middleground@.len() == CHUNK_BLOCK_COUNT
        &&& self.foreground@.len() == CHUNK_BLOCK_COUNT
    }

    /// Rebuilds the array-of-structs view from a struct-of-arrays packet.
    pub fn from_packet(packet: &PacketChunk) -> (r: ChunkMesh)
        requires
            packet.wf(),
        ensures
            r.wf(),
            r.background@ == mesh_layer_spec(
                packet.background_blockid@,
                packet.background_blocktype@,
                packet.background_textureindex@,
            ),
            r.middleground@ == mesh_layer_spec(
                packet.middleground_blockid@,
                packet.middleground_blocktype@,
                packet.middleground_textureindex@,
            ),
            r.foreground@ == mesh_layer_spec(
                packet.foreground_blockid@,
                packet.foreground_blocktype@,
                packet.foreground_textureindex@,
            ),
    {
        ChunkMesh {
            background: convert_layer_to_aos_mesh(
                &packet.background_blockid,
                &packet.background_blocktype,
                &packet.background_textureindex,
            ),
            middleground: convert_layer_to_aos_mesh(
                &packet.middleground_blockid,
                &packet.middleground_blocktype,
                &packet.middleground_textureindex,
            ),
            foreground: convert_layer_to_aos_mesh(
                &packet.foreground_blockid,
                &packet.foreground_blocktype,
                &packet.foreground_textureindex,
            ),
        }
    }
}

/// The array-of-structs record at index `i` of a packetised layer.
pub open spec fn mesh_block_spec(ids: Seq<u16>, types: Seq<u8>, texs: Seq<u8>, i: int) -> Block {
    Block {
        x: (i % (CHUNK_SIZE as int)) as u8,
        y: (i / (CHUNK_SIZE as int)) as u8,
        block_id: ids[i] as u32,
        block_type: types[i],
        texture_index: texs[i],
    }
}

/// The array-of-structs view of a packetised layer.
pub open spec fn mesh_layer_spec(ids: Seq<u16>, types: Seq<u8>, texs: Seq<u8>) -> Seq<Block> {
    Seq::new(CHUNK_BLOCK_COUNT as nat, |i: int| mesh_block_spec(ids, types, texs, i))
}

/// Copies one packetised layer into array-of-structs form.
pub fn convert_layer_to_aos_mesh(
    block_ids: &Vec<u16>,
    block_types: &Vec<u8>,
    texture_indices: &Vec<u8>,
) -> (r: Vec<Block>)
    requires
        block_ids@.len() == CHUNK_BLOCK_COUNT,
        block_types@.len() == CHUNK_BLOCK_COUNT,
        texture_indices@.len() == CHUNK_BLOCK_COUNT,
    ensures
        r@ == mesh_layer_spec(block_ids@, block_types@, texture_indices@),
{
    let mut out: Vec<Block> = Vec::new();
    let mut i: usize = 0;
    while i < CHUNK_BLOCK_COUNT
        invariant
            i <= CHUNK_BLOCK_COUNT,
            block_ids@.len() == CHUNK_BLOCK_COUNT,
            block_types@.len() == CHUNK_BLOCK_COUNT,
            texture_indices@.len() == CHUNK_BLOCK_COUNT,
            out@.len() == i,
            forall|j: int|
                0 <= j < i ==> out@[j] == mesh_block_spec(
                    block_ids@,
                    block_types@,
                    texture_indices@,
                    j,
                ),
        decreases CHUNK_BLOCK_COUNT - i,
    {
        let b = Block {
            x: (i % CHUNK_SIZE) as u8,
            y: (i / CHUNK_SIZE) as u8,
            block_id: block_ids[i] as u32,
            block_type: block_types[i],
            texture_index: texture_indices[i],
        };
        out.push(b);
        i = i + 1;
    }
    proof {
        assert(out@ =~= mesh_layer_spec(block_ids@, block_types@, texture_indices@));
    }
    out
}

/// A struct-of-arrays packet view over the three layers of a chunk, each
/// layer carried as parallel arrays of 16-bit block ids, block type codes
/// and texture indices.  Layer order is foreground, middleground,
/// background.
#[derive(Clone, PartialEq, Eq, Debug)]
pub struct PacketChunk {
    pub foreground_blockid: Vec<u16>,
    pub foreground_blocktype: Vec<u8>,
    pub foreground_textureindex: Vec<u8>,
    pub middleground_blockid: Vec<u16>,
    pub middleground_blocktype: Vec<u8>,
    pub middleground_textureindex: Vec<u8>,
    pub background_blockid: Vec<u16>,
    pub background_blocktype: Vec<u8>,
    pub background_textureindex: Vec<u8>,
}

/// The packetised block ids of a layer: each 32-bit id truncated to 16 bits.
pub open spec fn packet_ids_spec(l: BlockArray) -> Seq<u16> {
    Seq::new(CHUNK_BLOCK_COUNT as nat, |i: int| l.block_id@[i] as u16)
}

/// The packetised block type codes of a layer.
pub open spec fn packet_types_spec(l: BlockArray) -> Seq<u8> {
    Seq::new(CHUNK_BLOCK_COUNT as nat, |i: int| block_type_code_spec(l.block_type@[i]))
}

impl PacketChunk {
    /// All nine arrays hold exactly one entry per block of a chunk.
    pub open spec fn wf(self) -> bool {
        &&& self.foreground_blockid@.len() == CHUNK_BLOCK_COUNT
        &&& self.foreground_blocktype@.len() == CHUNK_BLOCK_COUNT
        &&& self.foreground_textureindex@.len() == CHUNK_BLOCK_COUNT
        &&& self.middleground_blockid@.len() == CHUNK_BLOCK_COUNT
        &&& self.middleground_blocktype@.len() == CHUNK_BLOCK_COUNT
        &&& self.middleground_textureindex@.len() == CHUNK_BLOCK_COUNT
        &&& self.background_blockid@.len() == CHUNK_BLOCK_COUNT
        &&& self.background_blocktype@.len() == CHUNK_BLOCK_COUNT
        &&& self.background_textureindex@.len() == CHUNK_BLOCK_COUNT
    }

    /// Copies a chunk into struct-of-arrays packet form, truncating each
    /// block id to 16 bits.
    pub fn from_chunk(chunk: &Chunk) -> (r: PacketChunk)
        requires
            chunk.wf(),
        ensures
            r.wf(),
            r.foreground_blockid@ == packet_ids_spec(chunk.foreground),
            r.foreground_blocktype@ == packet_types_spec(chunk.foreground),
            r.foreground_textureindex@ == chunk.foreground.texture_index@,
            r.middleground_blockid@ == packet_ids_spec(chunk.middleground),
            r.middleground_blocktype@ == packet_types_spec(chunk.middleground),
            r.middleground_textureindex@ == chunk.middleground.texture_index@,
            r.background_blockid@ == packet_ids_spec(chunk.background),
            r.background_blocktype@ == packet_types_spec(chunk.background),
            r.background_textureindex@ == chunk.background.texture_index@,
    {
        let (fg_id, fg_ty, fg_tex) = packet_layer(&chunk.foreground);
        let (mg_id, mg_ty, mg_tex) = packet_layer(&chunk.middleground);
        let (bg_id, bg_ty, bg_tex) = packet_layer(&chunk.background);
        PacketChunk {
            foreground_blockid: fg_id,
            foreground_blocktype: fg_ty,
            foreground_textureindex: fg_tex,
            middleground_blockid: mg_id,
            middleground_blocktype: mg_ty,
            middleground_textureindex: mg_tex,
            background_blockid: bg_id,
            background_blocktype: bg_ty,
            background_textureindex: bg_tex,
        }
    }
}

/// Going through the packet loses nothing for representable ids: for a
/// layer whose block ids all fit 16 bits, the array-of-structs view
/// rebuilt from the packetised arrays equals the layer's direct
/// array-of-structs view.
pub proof fn lemma_packet_mesh_agrees(l: BlockArray)
    requires
        l.wf(),
        forall|i: int| 0 <= i < CHUNK_BLOCK_COUNT ==> (#[trigger] l.block_id@[i]) < 0x1_0000,
    ensures
        mesh_layer_spec(packet_ids_spec(l), packet_types_spec(l), l.texture_index@)
            == layer_aos_spec(l),
{
    assert(mesh_layer_spec(packet_ids_spec(l), packet_types_spec(l), l.texture_index@)
        =~= layer_aos_spec(l));
}

/// Copies one layer into its three packetised arrays.
fn packet_layer(l: &BlockArray) -> (r: (Vec<u16>, Vec<u8>, Vec<u8>))
    requires
        l.wf(),
    ensures
        r.0@ == packet_ids_spec(*l),
        r.1@ == packet_types_spec(*l),
        r.2@ == l.texture_index@,
{
    let mut ids: Vec<u16> = Vec::new();
    let mut types: Vec<u8> = Vec::new();
    let mut texs: Vec<u8> = Vec::new();
    let mut i: usize = 0;
    while i < CHUNK_BLOCK_COUNT
        invariant
            i <= CHUNK_BLOCK_COUNT,
            l.wf(),
            ids@.len() == i,
            types@.len() == i,
            texs@.len() == i,
            forall|j: int| 0 <= j < i ==> ids@[j] == l.block_id@[j] as u16,
            forall|j: int| 0 <= j < i ==> types@[j] == block_type_code_spec(l.block_type@[j]),
            forall|j: int| 0 <= j < i ==> texs@[j] == l.texture_index@[j],
        decreases CHUNK_BLOCK_COUNT - i,
    {
        ids.push(#[verifier::truncate] (l.block_id[i] as u16));
        types.push(block_type_code(l.block_type[i]));
        texs.push(l.texture_index[i]);
        i = i + 1;
    }
    proof {
        assert(ids@ =~= packet_ids_spec(*l));
        assert(types@ =~= packet_types_spec(*l));
        assert(texs@ =~= l.texture_index@);
    }
    (ids, types, texs)
}

} // verus!
