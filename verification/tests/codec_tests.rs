//! Byte-encoding round-trip tests for the chunk views and the packet
//! envelope.

use worldgen::block::{BlockArray, BlockType, ChunkRelativePos, LayerType};
use worldgen::chunk::{Chunk, ChunkMesh, PacketChunk};
use worldgen::codec::{
    decode_chunk_mesh, decode_packet_chunk, encode_chunk_mesh, encode_packet_chunk,
    CHUNK_MESH_BYTES, PACKET_CHUNK_BYTES,
};
use worldgen::packets::{
    build_packet_bytes, decode_packet_header, decode_server_packet, encode_packet_header,
    encode_server_packet, parse_packet_bytes, BlockChange, PacketHeader, ServerPacket,
};

fn sample_chunk() -> Chunk {
    let mut chunk = Chunk {
        foreground: BlockArray::filled_basic_air(),
        middleground: BlockArray::filled_basic_air(),
        background: BlockArray::filled_basic_air(),
        total_block_count: 0,
    };
    chunk.change_block_property_type(
        ChunkRelativePos::new(1, 2),
        LayerType::Foreground,
        BlockType::Tile,
    );
    chunk.change_block_property_id(ChunkRelativePos::new(1, 2), LayerType::Foreground, 0xABCD);
    chunk.change_block_property_type(
        ChunkRelativePos::new(9, 9),
        LayerType::Background,
        BlockType::Wall,
    );
    chunk.change_block_property_id(ChunkRelativePos::new(9, 9), LayerType::Background, 300);
    chunk
}

#[test]
fn packet_chunk_encoding_round_trips() {
    let packet = PacketChunk::from_chunk(&sample_chunk());
    let bytes = encode_packet_chunk(&packet);
    assert_eq!(bytes.len(), PACKET_CHUNK_BYTES);
    let decoded = decode_packet_chunk(&bytes).expect("valid encoding");
    assert_eq!(decoded, packet);
    let mut short = bytes.clone();
    short.pop();
    assert!(decode_packet_chunk(&short).is_none());
}

#[test]
fn chunk_mesh_encoding_round_trips() {
    let mesh = sample_chunk().to_mesh();
    let bytes = encode_chunk_mesh(&mesh);
    assert_eq!(bytes.len(), CHUNK_MESH_BYTES);
    let decoded = decode_chunk_mesh(&bytes).expect("valid encoding");
    assert_eq!(decoded.foreground, mesh.foreground);
    assert_eq!(decoded.middleground, mesh.middleground);
    assert_eq!(decoded.background, mesh.background);
    assert!(decode_chunk_mesh(&Vec::new()).is_none());
}

#[test]
fn server_packet_tags_round_trip() {
    let ping = encode_server_packet(&ServerPacket::Ping);
    assert_eq!(ping, vec![0u8]);
    assert!(matches!(
        decode_server_packet(&ping),
        Some(ServerPacket::Ping)
    ));
    let reload = encode_server_packet(&ServerPacket::ReloadChunks);
    assert_eq!(reload, vec![4u8]);
    assert!(matches!(
        decode_server_packet(&reload),
        Some(ServerPacket::ReloadChunks)
    ));
    assert!(decode_server_packet(&vec![9u8]).is_none());
    assert!(decode_server_packet(&Vec::new()).is_none());
}

#[test]
fn message_packet_round_trips() {
    let text = String::from("hello w\u{00f6}rld");
    let bytes = encode_server_packet(&ServerPacket::Message(text.clone()));
    match decode_server_packet(&bytes) {
        Some(ServerPacket::Message(s)) => assert_eq!(s, text),
        other => panic!("unexpected decode: {:?}", other),
    }
}

#[test]
fn block_change_packet_round_trips() {
    let change = ServerPacket::BlockChange((
        (-12345678901234i64, 42i64),
        BlockChange {
            layer: LayerType::Background,
            block_type: BlockType::Wall,
            block_id: 777,
        },
    ));
    let bytes = encode_server_packet(&change);
    assert_eq!(bytes.len(), 21);
    match decode_server_packet(&bytes) {
        Some(ServerPacket::BlockChange(((x, y), bc))) => {
            assert_eq!(x, -12345678901234);
            assert_eq!(y, 42);
            assert_eq!(bc.layer, LayerType::Background);
            assert_eq!(bc.block_type, BlockType::Wall);
            assert_eq!(bc.block_id, 777);
        }
        other => panic!("unexpected decode: {:?}", other),
    }
}

#[test]
fn chunk_packet_round_trips() {
    let packet = PacketChunk::from_chunk(&sample_chunk());
    let sp = ServerPacket::Chunk(((-3, 17), packet.clone()));
    let bytes = encode_server_packet(&sp);
    match decode_server_packet(&bytes) {
        Some(ServerPacket::Chunk(((cx, cy), pc))) => {
            assert_eq!(cx, -3);
            assert_eq!(cy, 17);
            assert_eq!(pc, packet);
        }
        other => panic!("unexpected decode: {:?}", other),
    }
}

#[test]
fn packet_header_round_trips() {
    let header = PacketHeader {
        is_compressed: true,
        original_size: 9000,
        data: vec![1, 2, 3, 4, 5],
    };
    let bytes = encode_packet_header(&header);
    let decoded = decode_packet_header(&bytes).expect("valid header");
    assert!(decoded.is_compressed);
    assert_eq!(decoded.original_size, 9000);
    assert_eq!(decoded.data, vec![1, 2, 3, 4, 5]);
    assert!(decode_packet_header(&vec![0u8; 10]).is_none());
}

#[test]
fn small_packets_travel_uncompressed() {
    let bytes = build_packet_bytes(&ServerPacket::Ping, true);
    // Envelope header flag byte says uncompressed.
    assert_eq!(bytes[0], 0);
    assert!(matches!(
        parse_packet_bytes(&bytes),
        Some(ServerPacket::Ping)
    ));
}

#[test]
fn large_packets_compress_and_still_round_trip() {
    let packet = PacketChunk::from_chunk(&sample_chunk());
    let sp = ServerPacket::Chunk(((0, 0), packet.clone()));
    let compressed = build_packet_bytes(&sp, true);
    assert_eq!(compressed[0], 1);
    assert!(compressed.len() < 17 + 9 + PACKET_CHUNK_BYTES);
    match parse_packet_bytes(&compressed) {
        Some(ServerPacket::Chunk(((cx, cy), pc))) => {
            assert_eq!((cx, cy), (0, 0));
            assert_eq!(pc, packet);
        }
        other => panic!("unexpected parse: {:?}", other),
    }
    let raw = build_packet_bytes(&sp, false);
    assert_eq!(raw[0], 0);
    match parse_packet_bytes(&raw) {
        Some(ServerPacket::Chunk((_, pc))) => assert_eq!(pc, packet),
        other => panic!("unexpected parse: {:?}", other),
    }
}
