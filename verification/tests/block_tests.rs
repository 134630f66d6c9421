//! Block storage, chunk views and entity key tests.

use worldgen::block::{BlockArray, BlockType, ChunkRelativePos, LayerType};
use worldgen::chunk::{Chunk, ChunkMesh, PacketChunk};
use worldgen::constants::{CHUNK_BLOCK_COUNT, CHUNK_SIZE};
use worldgen::entity::{
    AliveComponents, AliveTaskKey, BasicBitflags, EntityID, PlayerID, IS_PLAYER_BIT,
};

fn empty_chunk() -> Chunk {
    Chunk {
        foreground: BlockArray::filled_basic_air(),
        middleground: BlockArray::filled_basic_air(),
        background: BlockArray::filled_basic_air(),
        total_block_count: 0,
    }
}

#[test]
fn filled_layers_hold_expected_blocks() {
    let air = BlockArray::filled_basic_air();
    let tile = BlockArray::filled_basic_tile();
    let wall = BlockArray::filled_basic_wall();
    assert_eq!(air.block_type.len(), CHUNK_BLOCK_COUNT);
    assert_eq!(air.block_type[0], BlockType::Air);
    assert_eq!(air.block_id[17], 0);
    assert_eq!(tile.block_type[100], BlockType::Tile);
    assert_eq!(tile.block_id[100], 1);
    assert_eq!(wall.block_type[1023], BlockType::Wall);
    assert_eq!(wall.block_id[1023], 1);
    assert_eq!(wall.texture_index[5], 0);
}

#[test]
fn setters_write_by_position_and_index() {
    let mut layer = BlockArray::filled_basic_air();
    let pos = ChunkRelativePos::new(3, 2);
    layer.set_block_type(pos, BlockType::Tile);
    layer.set_block_id(pos, 42);
    layer.set_block_texture_index(pos, 7);
    let index = 2 * CHUNK_SIZE + 3;
    assert_eq!(layer.block_type[index], BlockType::Tile);
    assert_eq!(layer.block_id[index], 42);
    assert_eq!(layer.texture_index[index], 7);
    layer.clear_block(pos);
    assert_eq!(layer.block_type[index], BlockType::Air);
    assert_eq!(layer.block_id[index], 0);
    assert_eq!(layer.texture_index[index], 0);
    layer.set_block_id_byindex(9, 11);
    layer.set_block_type_byindex(9, BlockType::Sprite);
    layer.set_block_texture_index_byindex(9, 3);
    assert_eq!(layer.block_id[9], 11);
    assert_eq!(layer.block_type[9], BlockType::Sprite);
    assert_eq!(layer.texture_index[9], 3);
    layer.clear_block_byindex(9);
    assert_eq!(layer.block_type[9], BlockType::Air);
}

#[test]
fn wall_writes_are_refused_outside_background() {
    let mut chunk = empty_chunk();
    let pos = ChunkRelativePos::new(0, 0);
    chunk.change_block_property_type(pos, LayerType::Foreground, BlockType::Wall);
    assert_eq!(chunk.foreground.block_type[0], BlockType::Air);
    chunk.change_block_property_type(pos, LayerType::Middleground, BlockType::Wall);
    assert_eq!(chunk.middleground.block_type[0], BlockType::Air);
    chunk.change_block_property_type(pos, LayerType::Background, BlockType::Wall);
    assert_eq!(chunk.background.block_type[0], BlockType::Wall);
    // Non-walls are refused in the background, and air clears anywhere.
    chunk.change_block_property_type(pos, LayerType::Background, BlockType::Tile);
    assert_eq!(chunk.background.block_type[0], BlockType::Wall);
    chunk.change_block_property_type(pos, LayerType::Foreground, BlockType::Tile);
    assert_eq!(chunk.foreground.block_type[0], BlockType::Tile);
    chunk.change_block_property_type(pos, LayerType::Foreground, BlockType::Air);
    assert_eq!(chunk.foreground.block_type[0], BlockType::Air);
    chunk.change_block_property_id(pos, LayerType::Foreground, 99);
    chunk.change_block_property_texture_index(pos, LayerType::Foreground, 4);
    assert_eq!(chunk.foreground.block_id[0], 99);
    assert_eq!(chunk.foreground.texture_index[0], 4);
}

#[test]
fn mesh_conversion_carries_positions_and_data() {
    let mut chunk = empty_chunk();
    let pos = ChunkRelativePos::new(5, 1);
    chunk.change_block_property_type(pos, LayerType::Foreground, BlockType::Tile);
    chunk.change_block_property_id(pos, LayerType::Foreground, 70000);
    let mesh = chunk.to_mesh();
    let index = CHUNK_SIZE + 5;
    assert_eq!(mesh.foreground.len(), CHUNK_BLOCK_COUNT);
    assert_eq!(mesh.foreground[index].x, 5);
    assert_eq!(mesh.foreground[index].y, 1);
    assert_eq!(mesh.foreground[index].block_id, 70000);
    assert_eq!(mesh.foreground[index].block_type, 1);
    assert_eq!(mesh.background[0].block_type, 0);
}

#[test]
fn packet_chunk_truncates_ids_to_16_bits() {
    let mut chunk = empty_chunk();
    let pos = ChunkRelativePos::new(0, 0);
    chunk.change_block_property_id(pos, LayerType::Foreground, 0x1_0005);
    let packet = PacketChunk::from_chunk(&chunk);
    assert_eq!(packet.foreground_blockid[0], 5);
    assert_eq!(packet.foreground_blocktype[0], 0);
    let mesh = ChunkMesh::from_packet(&packet);
    assert_eq!(mesh.foreground[0].block_id, 5);
    assert_eq!(mesh.foreground[0].x, 0);
    assert_eq!(mesh.foreground[33].x, 1);
    assert_eq!(mesh.foreground[33].y, 1);
}

#[test]
fn alive_task_keys_pack_owner_and_component() {
    let entity = EntityID { id: 7 };
    let player = PlayerID { id: 7 };
    let entity_key = AliveTaskKey::new_entity_task(&entity, &AliveComponents::Gravity);
    let player_key = AliveTaskKey::new_player_task(&player, &AliveComponents::Gravity);
    assert_eq!(entity_key.key, (7u64 << 32) | 1);
    assert_eq!(player_key.key, ((7u64 << 32) | 1) | IS_PLAYER_BIT);
}

#[test]
fn invulnerability_flag_sets_and_clears() {
    let mut flags = BasicBitflags { bits: 0 };
    assert!(!flags.is_invulnerable());
    flags.set_invulnerable(true);
    assert!(flags.is_invulnerable());
    flags.set_invulnerable(false);
    assert!(!flags.is_invulnerable());
}
