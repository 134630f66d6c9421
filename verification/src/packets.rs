//! The outgoing packet envelope: the tagged server packet union, its
//! canonical byte encoding, and the two-layer header with optional LZ4
//! block compression for large payloads.

use vstd::prelude::*;

use crate::block::BlockType;
use crate::block::LayerType;
use crate::block::block_type_code;
use crate::block::block_type_code_spec;
use crate::block::block_type_of_code;
use crate::block::layer_code;
use crate::block::layer_code_spec;
use crate::block::layer_of_code;
use crate::chunk::PacketChunk;
use crate::codec::PACKET_CHUNK_BYTES;
use crate::codec::decode_packet_chunk;
use crate::codec::encode_packet_chunk;
use crate::codec::hi8_spec;
use crate::codec::is_packet_chunk_encoding;
use crate::codec::lo8_spec;
use crate::constants::COMPRESSION_THRESHOLD;
use vstd::utf8::decode_utf8;
use vstd::utf8::encode_utf8;
use vstd::utf8::valid_utf8;

verus! {

/// A block-level delta: the layer, the new block type and the new block
/// id of one cell.
#[derive(Clone, Copy, PartialEq, Eq, Structural, Debug)]
pub struct BlockChange {
    pub layer: LayerType,
    pub block_type: BlockType,
    pub block_id: u16,
}

/// The tagged union streamed from the server to its consumer.
#[derive(Debug)]
pub enum ServerPacket {
    Ping,
    Message(String),
    BlockChange(((i64, i64), BlockChange)),
    Chunk(((i32, i32), PacketChunk)),
    ReloadChunks,
}

/// The outer envelope: a compression flag, the payload's raw length, and
/// the (possibly compressed) payload bytes.
#[derive(Debug)]
pub struct PacketHeader {
    pub is_compressed: bool,
    pub original_size: u64,
    pub data: Vec<u8>,
}

/// Byte `k` (least significant first) of a 64-bit value.
pub open spec fn u64_byte_spec(v: u64, k: int) -> u8 {
    ((v >> (8 * k)) & 0xff) as u8
}

/// Two 64-bit values with equal bytes are equal.
proof fn lemma_u64_bytes_unique(x: u64, y: u64)
    requires
        forall|k: int| 0 <= k < 8 ==> (#[trigger] u64_byte_spec(x, k)) == u64_byte_spec(y, k),
    ensures
        x == y,
{
    assert(u64_byte_spec(x, 0) == u64_byte_spec(y, 0));
    assert(u64_byte_spec(x, 1) == u64_byte_spec(y, 1));
    assert(u64_byte_spec(x, 2) == u64_byte_spec(y, 2));
    assert(u64_byte_spec(x, 3) == u64_byte_spec(y, 3));
    assert(u64_byte_spec(x, 4) == u64_byte_spec(y, 4));
    assert(u64_byte_spec(x, 5) == u64_byte_spec(y, 5));
    assert(u64_byte_spec(x, 6) == u64_byte_spec(y, 6));
    assert(u64_byte_spec(x, 7) == u64_byte_spec(y, 7));
    assert((((x >> 0) & 0xff) as u8 == ((y >> 0) & 0xff) as u8 && ((x >> 8) & 0xff) as u8 == ((y
        >> 8) & 0xff) as u8 && ((x >> 16) & 0xff) as u8 == ((y >> 16) & 0xff) as u8 && ((x >> 24)
        & 0xff) as u8 == ((y >> 24) & 0xff) as u8 && ((x >> 32) & 0xff) as u8 == ((y >> 32) & 0xff)
        as u8 && ((x >> 40) & 0xff) as u8 == ((y >> 40) & 0xff) as u8 && ((x >> 48) & 0xff) as u8
        == ((y >> 48) & 0xff) as u8 && ((x >> 56) & 0xff) as u8 == ((y >> 56) & 0xff) as u8) ==> x
        == y) by (bit_vector);
}

/// Appends a 64-bit value as eight little-endian bytes.
fn append_u64(out: &mut Vec<u8>, v: u64)
    requires
        old(out)@.len() + 8 <= usize::MAX,
    ensures
        final(out)@.len() == old(out)@.len() + 8,
        forall|i: int| 0 <= i < old(out)@.len() ==> final(out)@[i] == old(out)@[i],
        forall|k: int|
            0 <= k < 8 ==> (#[trigger] final(out)@[old(out)@.len() + k]) == u64_byte_spec(v, k),
{
    proof {
        assert((v >> 0) & 0xff == v & 0xff) by (bit_vector);
    }
    out.push((v & 0xff) as u8);
    out.push(((v >> 8) & 0xff) as u8);
    out.push(((v >> 16) & 0xff) as u8);
    out.push(((v >> 24) & 0xff) as u8);
    out.push(((v >> 32) & 0xff) as u8);
    out.push(((v >> 40) & 0xff) as u8);
    out.push(((v >> 48) & 0xff) as u8);
    out.push(((v >> 56) & 0xff) as u8);
}

/// Reads the 64-bit value laid out from `start`.
fn read_u64(data: &Vec<u8>, start: usize) -> (r: u64)
    requires
        start + 8 <= data@.len(),
    ensures
        forall|k: int| 0 <= k < 8 ==> (#[trigger] u64_byte_spec(r, k)) == data@[start + k],
{
    let dlen = data.len();
    proof {
        assert(start + 8 <= dlen);
    }
    let b0 = data[start];
    let b1 = data[start + 1];
    let b2 = data[start + 2];
    let b3 = data[start + 3];
    let b4 = data[start + 4];
    let b5 = data[start + 5];
    let b6 = data[start + 6];
    let b7 = data[start + 7];
    let r = (b0 as u64) | ((b1 as u64) << 8) | ((b2 as u64) << 16) | ((b3 as u64) << 24) | ((b4
        as u64) << 32) | ((b5 as u64) << 40) | ((b6 as u64) << 48) | ((b7 as u64) << 56);
    proof {
        assert({
            let v = (b0 as u64) | ((b1 as u64) << 8) | ((b2 as u64) << 16) | ((b3 as u64) << 24) | (
            (b4 as u64) << 32) | ((b5 as u64) << 40) | ((b6 as u64) << 48) | ((b7 as u64) << 56);
            ((v >> 0) & 0xff) as u8 == b0 && ((v >> 8) & 0xff) as u8 == b1 && ((v >> 16) & 0xff)
                as u8 == b2 && ((v >> 24) & 0xff) as u8 == b3 && ((v >> 32) & 0xff) as u8 == b4 && ((
            v >> 40) & 0xff) as u8 == b5 && ((v >> 48) & 0xff) as u8 == b6 && ((v >> 56) & 0xff)
                as u8 == b7
        }) by (bit_vector);
        assert forall|k: int| 0 <= k < 8 implies (#[trigger] u64_byte_spec(r, k)) == data@[start
            + k] by {
            assert(k == 0 || k == 1 || k == 2 || k == 3 || k == 4 || k == 5 || k == 6 || k == 7);
        }
    }
    r
}

/// `b` is the canonical encoding of the server packet `p`: a one-byte
/// tag followed by the variant's fields, strings as length-prefixed
/// UTF-8, the chunk payload in its canonical struct-of-arrays encoding.
pub open spec fn is_server_packet_encoding(b: Seq<u8>, p: ServerPacket) -> bool {
    match p {
        ServerPacket::Ping => b =~= seq![0u8],
        ServerPacket::Message(s) => {
            let bytes = encode_utf8(s@);
            &&& b.len() == 9 + bytes.len()
            &&& b[0] == 1u8
            &&& forall|k: int|
                0 <= k < 8 ==> b[1 + k] == (#[trigger] u64_byte_spec(bytes.len() as u64, k))
            &&& forall|i: int| 0 <= i < bytes.len() ==> b[9 + i] == #[trigger] bytes[i]
        },
        ServerPacket::BlockChange(change) => {
            let ((x, y), bc) = change;
            &&& b.len() == 21
            &&& b[0] == 2u8
            &&& forall|k: int|
                0 <= k < 8 ==> b[1 + k] == (#[trigger] u64_byte_spec((x as u64), k))
            &&& forall|k: int|
                0 <= k < 8 ==> b[9 + k] == (#[trigger] u64_byte_spec((y as u64), k))
            &&& b[17] == layer_code_spec(bc.layer)
            &&& b[18] == block_type_code_spec(bc.block_type)
            &&& b[19] == lo8_spec(bc.block_id)
            &&& b[20] == hi8_spec(bc.block_id)
        },
        ServerPacket::Chunk(entry) => {
            let ((cx, cy), pc) = entry;
            &&& b.len() == 9 + PACKET_CHUNK_BYTES
            &&& b[0] == 3u8
            &&& forall|k: int|
                0 <= k < 8 ==> b[1 + k] == (#[trigger] u64_byte_spec(
                    ((cx as u64) << 32) | ((cy as u32) as u64),
                    k,
                ))
            &&& is_packet_chunk_encoding(b.subrange(9, 9 + PACKET_CHUNK_BYTES as int), pc)
        },
        ServerPacket::ReloadChunks => b =~= seq![4u8],
    }
}

/// Encodes a server packet into its canonical bytes.
pub fn encode_server_packet(p: &ServerPacket) -> (r: Vec<u8>)
    requires
        (p matches ServerPacket::Chunk(entry) ==> entry.1.wf()),
    ensures
        is_server_packet_encoding(r@, *p),
{
    let mut out: Vec<u8> = Vec::new();
    match p {
        ServerPacket::Ping => {
            out.push(0);
            proof {
                assert(out@ =~= seq![0u8]);
            }
        },
        ServerPacket::Message(s) => {
            out.push(1);
            let bytes = s.as_str().as_bytes();
            append_u64(&mut out, bytes.len() as u64);
            let mut i: usize = 0;
            while i < bytes.len()
                invariant
                    bytes@ == encode_utf8(s@),
                    out@.len() == 9 + i,
                    i <= bytes@.len(),
                    out@[0] == 1u8,
                    forall|k: int|
                        0 <= k < 8 ==> out@[1 + k] == (#[trigger] u64_byte_spec(
                            bytes@.len() as u64,
                            k,
                        )),
                    forall|t: int| 0 <= t < i ==> out@[9 + t] == #[trigger] bytes@[t],
                decreases bytes@.len() - i,
            {
                out.push(bytes[i]);
                i = i + 1;
            }
        },
        ServerPacket::BlockChange(change) => {
            let ((x, y), bc) = change;
            out.push(2);
            append_u64(&mut out, *x as u64);
            append_u64(&mut out, *y as u64);
            out.push(layer_code(bc.layer));
            out.push(block_type_code(bc.block_type));
            out.push((bc.block_id & 0xff) as u8);
            out.push(((bc.block_id >> 8) & 0xff) as u8);
        },
        ServerPacket::Chunk(entry) => {
            let ((cx, cy), pc) = entry;
            out.push(3);
            append_u64(&mut out, ((*cx as u64) << 32) | ((*cy as u32) as u64));
            let payload = encode_packet_chunk(pc);
            let mut i: usize = 0;
            while i < payload.len()
                invariant
                    is_packet_chunk_encoding(payload@, *pc),
                    out@.len() == 9 + i,
                    i <= payload@.len(),
                    out@[0] == 3u8,
                    forall|k: int|
                        0 <= k < 8 ==> out@[1 + k] == (#[trigger] u64_byte_spec(
                            ((*cx as u64) << 32) | ((*cy as u32) as u64),
                            k,
                        )),
                    forall|t: int| 0 <= t < i ==> out@[9 + t] == #[trigger] payload@[t],
                decreases payload@.len() - i,
            {
                out.push(payload[i]);
                i = i + 1;
            }
            proof {
                assert(out@.subrange(9, 9 + PACKET_CHUNK_BYTES as int) =~= payload@);
            }
        },
        ServerPacket::ReloadChunks => {
            out.push(4);
            proof {
                assert(out@ =~= seq![4u8]);
            }
        },
    }
    out
}

/// The tag byte of a server packet's encoding.
pub open spec fn packet_tag_spec(p: ServerPacket) -> u8 {
    match p {
        ServerPacket::Ping => 0,
        ServerPacket::Message(_) => 1,
        ServerPacket::BlockChange(_) => 2,
        ServerPacket::Chunk(_) => 3,
        ServerPacket::ReloadChunks => 4,
    }
}

/// Every encoding starts with its packet's tag byte.
proof fn lemma_encoding_tag(b: Seq<u8>, p: ServerPacket)
    requires
        is_server_packet_encoding(b, p),
    ensures
        b.len() >= 1,
        b[0] == packet_tag_spec(p),
{
}

/// Which server packets count as the same: equal variant and, field by
/// field, equal carried values (strings by their characters, chunk
/// payloads array by array).
pub open spec fn server_packet_same(p: ServerPacket, q: ServerPacket) -> bool {
    match (p, q) {
        (ServerPacket::Ping, ServerPacket::Ping) => true,
        (ServerPacket::Message(a), ServerPacket::Message(b)) => a@ == b@,
        (ServerPacket::BlockChange(c1), ServerPacket::BlockChange(c2)) => c1.0 == c2.0 && c1.1
            == c2.1,
        (ServerPacket::Chunk(e1), ServerPacket::Chunk(e2)) => {
            &&& e1.0 == e2.0
            &&& e1.1.foreground_blockid@ == e2.1.foreground_blockid@
            &&& e1.1.foreground_blocktype@ == e2.1.foreground_blocktype@
            &&& e1.1.foreground_textureindex@ == e2.1.foreground_textureindex@
            &&& e1.1.middleground_blockid@ == e2.1.middleground_blockid@
            &&& e1.1.middleground_blocktype@ == e2.1.middleground_blocktype@
            &&& e1.1.middleground_textureindex@ == e2.1.middleground_textureindex@
            &&& e1.1.background_blockid@ == e2.1.background_blockid@
            &&& e1.1.background_blocktype@ == e2.1.background_blocktype@
            &&& e1.1.background_textureindex@ == e2.1.background_textureindex@
        },
        (ServerPacket::ReloadChunks, ServerPacket::ReloadChunks) => true,
        _ => false,
    }
}

/// Packing a chunk coordinate pair into one 64-bit word loses nothing.
proof fn lemma_chunk_coord_pack(cx1: i32, cy1: i32, cx2: i32, cy2: i32)
    requires
        ((cx1 as u64) << 32) | ((cy1 as u32) as u64) == ((cx2 as u64) << 32) | ((cy2 as u32)
            as u64),
    ensures
        cx1 == cx2,
        cy1 == cy2,
{
    assert((((cx1 as u64) << 32) | ((cy1 as u32) as u64)) == (((cx2 as u64) << 32) | ((cy2 as u32)
        as u64)) ==> cx1 == cx2 && cy1 == cy2) by (bit_vector);
}

/// One encoding cannot come from two different server packets: the
/// decode of an encoded packet is the packet itself.
pub proof fn lemma_server_packet_round_trip(b: Seq<u8>, p: ServerPacket, q: ServerPacket)
    requires
        is_server_packet_encoding(b, p),
        is_server_packet_encoding(b, q),
    ensures
        server_packet_same(p, q),
{
    broadcast use vstd::utf8::group_utf8_lib;

    match (p, q) {
        (ServerPacket::Ping, ServerPacket::Ping) => {},
        (ServerPacket::Message(a), ServerPacket::Message(bb)) => {
            let ea = encode_utf8(a@);
            let eb = encode_utf8(bb@);
            assert forall|k: int| 0 <= k < 8 implies (#[trigger] u64_byte_spec(
                ea.len() as u64,
                k,
            )) == u64_byte_spec(eb.len() as u64, k) by {
                assert(b[1 + k] == u64_byte_spec(ea.len() as u64, k));
                assert(b[1 + k] == u64_byte_spec(eb.len() as u64, k));
            }
            lemma_u64_bytes_unique(ea.len() as u64, eb.len() as u64);
            assert(ea =~= eb);
            assert(decode_utf8(ea) == a@ && decode_utf8(eb) == bb@);
        },
        (ServerPacket::BlockChange(c1), ServerPacket::BlockChange(c2)) => {
            let ((x1, y1), bc1) = c1;
            let ((x2, y2), bc2) = c2;
            assert forall|k: int| 0 <= k < 8 implies (#[trigger] u64_byte_spec((x1 as u64), k))
                == u64_byte_spec((x2 as u64), k) by {
                assert(b[1 + k] == u64_byte_spec((x1 as u64), k));
                assert(b[1 + k] == u64_byte_spec((x2 as u64), k));
            }
            lemma_u64_bytes_unique(x1 as u64, x2 as u64);
            assert(x1 as u64 == x2 as u64 ==> x1 == x2) by (bit_vector);
            assert forall|k: int| 0 <= k < 8 implies (#[trigger] u64_byte_spec((y1 as u64), k))
                == u64_byte_spec((y2 as u64), k) by {
                assert(b[9 + k] == u64_byte_spec((y1 as u64), k));
                assert(b[9 + k] == u64_byte_spec((y2 as u64), k));
            }
            lemma_u64_bytes_unique(y1 as u64, y2 as u64);
            assert(y1 as u64 == y2 as u64 ==> y1 == y2) by (bit_vector);
            crate::codec::lemma_u16_bytes_unique(bc1.block_id, bc2.block_id);
        },
        (ServerPacket::Chunk(e1), ServerPacket::Chunk(e2)) => {
            let ((cx1, cy1), pc1) = e1;
            let ((cx2, cy2), pc2) = e2;
            let w1 = ((cx1 as u64) << 32) | ((cy1 as u32) as u64);
            let w2 = ((cx2 as u64) << 32) | ((cy2 as u32) as u64);
            assert forall|k: int| 0 <= k < 8 implies (#[trigger] u64_byte_spec(w1, k))
                == u64_byte_spec(w2, k) by {
                assert(b[1 + k] == u64_byte_spec(w1, k));
                assert(b[1 + k] == u64_byte_spec(w2, k));
            }
            lemma_u64_bytes_unique(w1, w2);
            lemma_chunk_coord_pack(cx1, cy1, cx2, cy2);
            crate::codec::lemma_packet_chunk_round_trip(
                b.subrange(9, 9 + PACKET_CHUNK_BYTES as int),
                pc1,
                pc2,
            );
        },
        (ServerPacket::ReloadChunks, ServerPacket::ReloadChunks) => {},
        _ => {
            lemma_encoding_tag(b, p);
            lemma_encoding_tag(b, q);
            assert(false);
        },
    }
}

/// Relies on String::from_utf8: it succeeds exactly on valid UTF-8 and
/// hands back a string carrying those bytes.
#[verifier::external_body]
fn string_from_utf8(bytes: Vec<u8>) -> (r: Option<String>)
    ensures
        r matches Some(s) ==> valid_utf8(bytes@) && encode_utf8(s@) == bytes@,
        r is None ==> !valid_utf8(bytes@),
{
    match String::from_utf8(bytes) {
        Ok(s) => Some(s),
        Err(_) => None,
    }
}

/// Decodes a server packet from its canonical bytes; `None` exactly when
/// the bytes encode no packet.
pub fn decode_server_packet(data: &Vec<u8>) -> (r: Option<ServerPacket>)
    ensures
        r matches Some(p) ==> is_server_packet_encoding(data@, p),
        r is None ==> forall|q: ServerPacket| !(#[trigger] is_server_packet_encoding(data@, q)),
{
    broadcast use vstd::utf8::group_utf8_lib;

    let dlen = data.len();
    if dlen == 0 {
        proof {
            assert forall|q: ServerPacket| !(#[trigger] is_server_packet_encoding(data@, q)) by {
                if is_server_packet_encoding(data@, q) {
                    lemma_encoding_tag(data@, q);
                }
            }
        }
        return None;
    }
    let tag = data[0];
    if tag == 0 {
        if dlen == 1 {
            proof {
                assert(data@ =~= seq![0u8]);
            }
            return Some(ServerPacket::Ping);
        }
        proof {
            lemma_no_packet_of_tag(data@, 0);
        }
        return None;
    }
    if tag == 1 {
        if dlen < 9 {
            proof {
                lemma_no_packet_of_tag(data@, 1);
            }
            return None;
        }
        let n = read_u64(data, 1);
        if n != (dlen - 9) as u64 {
            proof {
                assert forall|q: ServerPacket| !(#[trigger] is_server_packet_encoding(data@, q))
                    by {
                    if is_server_packet_encoding(data@, q) {
                        lemma_encoding_tag(data@, q);
                        if let ServerPacket::Message(s) = q {
                            let m = encode_utf8(s@).len() as u64;
                            assert forall|k: int| 0 <= k < 8 implies (#[trigger] u64_byte_spec(
                                n,
                                k,
                            )) == u64_byte_spec(m, k) by {
                                assert(u64_byte_spec(n, k) == data@[1 + k]);
                                assert(data@[1 + k] == u64_byte_spec(m, k));
                            }
                            lemma_u64_bytes_unique(n, m);
                        }
                    }
                }
            }
            return None;
        }
        let bytes = read_bytes(data, 9, dlen - 9);
        let ghost bytesv = bytes@;
        match string_from_utf8(bytes) {
            Some(s) => {
                proof {
                    assert(encode_utf8(s@) =~= data@.subrange(9, dlen as int));
                    assert forall|i: int| 0 <= i < encode_utf8(s@).len() implies data@[9 + i] == #[trigger] encode_utf8(s@)[i] by {
                        assert(encode_utf8(s@)[i] == data@.subrange(9, dlen as int)[i]);
                    }
                }
                return Some(ServerPacket::Message(s));
            },
            None => {
                proof {
                    assert forall|q: ServerPacket| !(#[trigger] is_server_packet_encoding(data@, q))
                        by {
                        if is_server_packet_encoding(data@, q) {
                            lemma_encoding_tag(data@, q);
                            if let ServerPacket::Message(s) = q {
                                assert(bytesv =~= encode_utf8(s@));
                                assert(valid_utf8(bytesv));
                            }
                        }
                    }
                }
                return None;
            },
        }
    }
    if tag == 2 {
        if dlen != 21 {
            proof {
                lemma_no_packet_of_tag(data@, 2);
            }
            return None;
        }
        let xu = read_u64(data, 1);
        let yu = read_u64(data, 9);
        let x = xu as i64;
        let y = yu as i64;
        let layer = match layer_of_code(data[17]) {
            Some(l) => l,
            None => {
                proof {
                    assert forall|q: ServerPacket| !(#[trigger] is_server_packet_encoding(data@, q))
                        by {
                        if is_server_packet_encoding(data@, q) {
                            lemma_encoding_tag(data@, q);
                            if let ServerPacket::BlockChange(change) = q {
                                crate::block::lemma_layer_code_round_trip(change.1.layer);
                            }
                        }
                    }
                }
                return None;
            },
        };
        let block_type = match block_type_of_code(data[18]) {
            Some(t) => t,
            None => {
                proof {
                    assert forall|q: ServerPacket| !(#[trigger] is_server_packet_encoding(data@, q))
                        by {
                        if is_server_packet_encoding(data@, q) {
                            lemma_encoding_tag(data@, q);
                            if let ServerPacket::BlockChange(change) = q {
                                crate::block::lemma_block_type_code_round_trip(
                                    change.1.block_type,
                                );
                            }
                        }
                    }
                }
                return None;
            },
        };
        let lo = data[19];
        let hi = data[20];
        let block_id = (lo as u16) | ((hi as u16) << 8);
        proof {
            assert(xu as i64 as u64 == xu) by (bit_vector);
            assert(yu as i64 as u64 == yu) by (bit_vector);
            assert({
                let v = (lo as u16) | ((hi as u16) << 8);
                (v & 0xff) as u8 == lo && ((v >> 8) & 0xff) as u8 == hi
            }) by (bit_vector);
        }
        return Some(
            ServerPacket::BlockChange(((x, y), BlockChange { layer, block_type, block_id })),
        );
    }
    if tag == 3 {
        if dlen != 9 + PACKET_CHUNK_BYTES {
            proof {
                lemma_no_packet_of_tag(data@, 3);
            }
            return None;
        }
        let packed = read_u64(data, 1);
        let cx = (packed >> 32) as u32 as i32;
        let cy = packed as u32 as i32;
        proof {
            assert({
                let w = packed;
                (((((w >> 32) as u32 as i32) as u64) << 32) | (((w as u32 as i32) as u32) as u64))
                    == w
            }) by (bit_vector);
        }
        let payload = read_bytes(data, 9, PACKET_CHUNK_BYTES);
        proof {
            assert(payload@ =~= data@.subrange(9, 9 + PACKET_CHUNK_BYTES as int));
        }
        match decode_packet_chunk(&payload) {
            Some(pc) => {
                return Some(ServerPacket::Chunk(((cx, cy), pc)));
            },
            None => {
                return vstd::pervasive::unreached();
            },
        }
    }
    if tag == 4 {
        if dlen == 1 {
            proof {
                assert(data@ =~= seq![4u8]);
            }
            return Some(ServerPacket::ReloadChunks);
        }
        proof {
            lemma_no_packet_of_tag(data@, 4);
        }
        return None;
    }
    proof {
        assert forall|q: ServerPacket| !(#[trigger] is_server_packet_encoding(data@, q)) by {
            if is_server_packet_encoding(data@, q) {
                lemma_encoding_tag(data@, q);
            }
        }
    }
    None
}

/// For bytes starting with the given tag whose length does not fit that
/// tag's layout, no packet is encoded.
proof fn lemma_no_packet_of_tag(b: Seq<u8>, tag: u8)
    requires
        b.len() >= 1,
        b[0] == tag,
        tag == 0 ==> b.len() != 1,
        tag == 1 ==> b.len() < 9,
        tag == 2 ==> b.len() != 21,
        tag == 3 ==> b.len() != 9 + PACKET_CHUNK_BYTES,
        tag == 4 ==> b.len() != 1,
        tag <= 4,
    ensures
        forall|q: ServerPacket| !(#[trigger] is_server_packet_encoding(b, q)),
{
    assert forall|q: ServerPacket| !(#[trigger] is_server_packet_encoding(b, q)) by {
        if is_server_packet_encoding(b, q) {
            lemma_encoding_tag(b, q);
        }
    }
}

/// Reads `count` bytes laid out from `start`.
fn read_bytes(data: &Vec<u8>, start: usize, count: usize) -> (r: Vec<u8>)
    requires
        start + count <= data@.len(),
    ensures
        r@.len() == count,
        forall|j: int| 0 <= j < count ==> #[trigger] r@[j] == data@[start + j],
{
    let dlen = data.len();
    let mut out: Vec<u8> = Vec::new();
    let mut j: usize = 0;
    while j < count
        invariant
            dlen == data@.len(),
            start + count <= data@.len(),
            j <= count,
            out@.len() == j,
            forall|t: int| 0 <= t < j ==> #[trigger] out@[t] == data@[start + t],
        decreases count - j,
    {
        out.push(data[start + j]);
        j = j + 1;
    }
    out
}

/// `b` is the canonical encoding of an envelope header: the compression
/// flag byte, the payload's raw length, the carried data's length, and
/// the carried data.
pub open spec fn is_packet_header_encoding(
    b: Seq<u8>,
    is_compressed: bool,
    original_size: u64,
    data: Seq<u8>,
) -> bool {
    &&& b.len() == 17 + data.len()
    &&& b[0] == if is_compressed {
        1u8
    } else {
        0u8
    }
    &&& forall|k: int| 0 <= k < 8 ==> b[1 + k] == (#[trigger] u64_byte_spec(original_size, k))
    &&& forall|k: int|
        0 <= k < 8 ==> b[9 + k] == (#[trigger] u64_byte_spec(data.len() as u64, k))
    &&& forall|i: int| 0 <= i < data.len() ==> b[17 + i] == #[trigger] data[i]
}

/// Encodes an envelope header into its canonical bytes.
pub fn encode_packet_header(h: &PacketHeader) -> (r: Vec<u8>)
    ensures
        is_packet_header_encoding(r@, h.is_compressed, h.original_size, h.data@),
{
    let mut out: Vec<u8> = Vec::new();
    out.push(if h.is_compressed {
        1
    } else {
        0
    });
    append_u64(&mut out, h.original_size);
    append_u64(&mut out, h.data.len() as u64);
    let mut i: usize = 0;
    while i < h.data.len()
        invariant
            out@.len() == 17 + i,
            i <= h.data@.len(),
            out@[0] == if h.is_compressed {
                1u8
            } else {
                0u8
            },
            forall|k: int| 0 <= k < 8 ==> out@[1 + k] == (#[trigger] u64_byte_spec(h.original_size, k)),
            forall|k: int|
                0 <= k < 8 ==> out@[9 + k] == (#[trigger] u64_byte_spec(h.data@.len() as u64, k)),
            forall|t: int| 0 <= t < i ==> out@[17 + t] == #[trigger] h.data@[t],
        decreases h.data@.len() - i,
    {
        out.push(h.data[i]);
        i = i + 1;
    }
    out
}

/// Decodes an envelope header from its canonical bytes; `None` for
/// malformed data.
pub fn decode_packet_header(data: &Vec<u8>) -> (r: Option<PacketHeader>)
    ensures
        r matches Some(h) ==> is_packet_header_encoding(
            data@,
            h.is_compressed,
            h.original_size,
            h.data@,
        ),
        r is None ==> forall|c: bool, s: u64, d: Seq<u8>|
            !(#[trigger] is_packet_header_encoding(data@, c, s, d)),
{
    let dlen = data.len();
    if dlen < 17 {
        return None;
    }
    let flag = data[0];
    if flag > 1 {
        return None;
    }
    let original_size = read_u64(data, 1);
    let payload_len = read_u64(data, 9);
    if payload_len != (dlen - 17) as u64 {
        proof {
            assert forall|c: bool, s: u64, d: Seq<u8>|
                !(#[trigger] is_packet_header_encoding(data@, c, s, d)) by {
                if is_packet_header_encoding(data@, c, s, d) {
                    assert forall|k: int| 0 <= k < 8 implies (#[trigger] u64_byte_spec(
                        payload_len,
                        k,
                    )) == u64_byte_spec(d.len() as u64, k) by {
                        assert(u64_byte_spec(payload_len, k) == data@[9 + k]);
                        assert(data@[9 + k] == u64_byte_spec(d.len() as u64, k));
                    }
                    lemma_u64_bytes_unique(payload_len, d.len() as u64);
                }
            }
        }
        return None;
    }
    let payload = read_bytes(data, 17, dlen - 17);
    proof {
        assert(payload@.len() == dlen - 17);
    }
    Some(PacketHeader { is_compressed: flag == 1, original_size, data: payload })
}

/// One encoding cannot come from two different headers.
pub proof fn lemma_packet_header_round_trip(
    b: Seq<u8>,
    c1: bool,
    s1: u64,
    d1: Seq<u8>,
    c2: bool,
    s2: u64,
    d2: Seq<u8>,
)
    requires
        is_packet_header_encoding(b, c1, s1, d1),
        is_packet_header_encoding(b, c2, s2, d2),
    ensures
        c1 == c2,
        s1 == s2,
        d1 == d2,
{
    assert forall|k: int| 0 <= k < 8 implies (#[trigger] u64_byte_spec(s1, k)) == u64_byte_spec(
        s2,
        k,
    ) by {
        assert(b[1 + k] == u64_byte_spec(s1, k));
        assert(b[1 + k] == u64_byte_spec(s2, k));
    }
    lemma_u64_bytes_unique(s1, s2);
    assert(d1 =~= d2);
}

/// Result of LZ4 block compression with a prepended size, as a function
/// of the input bytes.
pub uninterp spec fn lz4_compressed(b: Seq<u8>) -> Seq<u8>;

/// Result of LZ4 block decompression with a prepended size, as a
/// function of the input bytes; `None` for undecodable input.
pub uninterp spec fn lz4_decompressed(b: Seq<u8>) -> Option<Seq<u8>>;

/// Relies on lz4_flex::block::compress_prepend_size: a pure function of
/// the input bytes, and lz4_flex::block::decompress_size_prepended
/// recovers the input from its output exactly.  The prepended size is a
/// 32-bit little-endian word, so inputs long enough to truncate it are
/// excluded.
#[verifier::external_body]
fn lz4_compress(data: &Vec<u8>) -> (r: Vec<u8>)
    requires
        data@.len() < 0x1_0000_0000,
    ensures
        r@ == lz4_compressed(data@),
        lz4_decompressed(r@) == Some(data@),
{
    lz4_flex::block::compress_prepend_size(data.as_slice())
}

/// Relies on lz4_flex::block::decompress_size_prepended: a pure function
/// of the input bytes that fails on undecodable input.
#[verifier::external_body]
fn lz4_decompress(data: &Vec<u8>) -> (r: Option<Vec<u8>>)
    ensures
        r matches Some(v) ==> lz4_decompressed(data@) == Some(v@),
        r is None ==> lz4_decompressed(data@) is None,
{
    match lz4_flex::block::decompress_size_prepended(data.as_slice()) {
        Ok(v) => Some(v),
        Err(_) => None,
    }
}

/// Builds the bytes sent for one server packet: the canonical packet
/// encoding, LZ4-compressed when compression is enabled and the raw
/// encoding is longer than the compression threshold but still short
/// enough for the compressor's 32-bit size prefix, wrapped into the
/// envelope header.
pub fn build_packet_bytes(packet: &ServerPacket, compress: bool) -> (r: Vec<u8>)
    requires
        (packet matches ServerPacket::Chunk(entry) ==> entry.1.wf()),
    ensures
        exists|inner: Seq<u8>|
            {
                &&& #[trigger] is_server_packet_encoding(inner, *packet)
                &&& if compress && COMPRESSION_THRESHOLD < inner.len() < 0x1_0000_0000 {
                    &&& is_packet_header_encoding(
                        r@,
                        true,
                        inner.len() as u64,
                        lz4_compressed(inner),
                    )
                    &&& lz4_decompressed(lz4_compressed(inner)) == Some(inner)
                } else {
                    is_packet_header_encoding(r@, false, inner.len() as u64, inner)
                }
            },
{
    let inner = encode_server_packet(packet);
    let raw_len = inner.len();
    let ghost innerv = inner@;
    let header = if compress && raw_len > COMPRESSION_THRESHOLD && (raw_len as u64)
        < 0x1_0000_0000u64 {
        let compressed = lz4_compress(&inner);
        PacketHeader { is_compressed: true, original_size: raw_len as u64, data: compressed }
    } else {
        PacketHeader { is_compressed: false, original_size: raw_len as u64, data: inner }
    };
    let out = encode_packet_header(&header);
    proof {
        assert(is_server_packet_encoding(innerv, *packet));
    }
    out
}

/// A well-formed envelope carrying the packet `q`: an envelope header
/// over a payload that is, or decompresses to, a canonical packet
/// encoding of `q`.
pub open spec fn is_envelope_for(
    b: Seq<u8>,
    compressed: bool,
    size: u64,
    payload: Seq<u8>,
    inner: Seq<u8>,
    q: ServerPacket,
) -> bool {
    &&& is_packet_header_encoding(b, compressed, size, payload)
    &&& if compressed {
        lz4_decompressed(payload) == Some(inner)
    } else {
        payload == inner
    }
    &&& is_server_packet_encoding(inner, q)
}

/// Parses the bytes of one envelope back into the server packet it
/// carries; `None` exactly when the bytes hold no well-formed envelope.
pub fn parse_packet_bytes(data: &Vec<u8>) -> (r: Option<ServerPacket>)
    ensures
        r matches Some(p) ==> exists|compressed: bool, size: u64, payload: Seq<u8>, inner: Seq<u8>|
            #![trigger is_envelope_for(data@, compressed, size, payload, inner, p)]
            is_envelope_for(data@, compressed, size, payload, inner, p),
        r is None ==> forall|
            compressed: bool,
            size: u64,
            payload: Seq<u8>,
            inner: Seq<u8>,
            q: ServerPacket,
        |
            !(#[trigger] is_envelope_for(data@, compressed, size, payload, inner, q)),
{
    let header = match decode_packet_header(data) {
        Some(h) => h,
        None => {
            return None;
        },
    };
    let ghost compressed_g = header.is_compressed;
    let ghost size_g = header.original_size;
    let ghost payload_g = header.data@;
    if header.is_compressed {
        let raw = match lz4_decompress(&header.data) {
            Some(v) => v,
            None => {
                proof {
                    assert forall|
                        compressed: bool,
                        size: u64,
                        payload: Seq<u8>,
                        inner: Seq<u8>,
                        q: ServerPacket,
                    |
                        !(#[trigger] is_envelope_for(
                            data@,
                            compressed,
                            size,
                            payload,
                            inner,
                            q,
                        )) by {
                        if is_packet_header_encoding(data@, compressed, size, payload) {
                            lemma_packet_header_round_trip(
                                data@,
                                compressed,
                                size,
                                payload,
                                compressed_g,
                                size_g,
                                payload_g,
                            );
                        }
                    }
                }
                return None;
            },
        };
        let ghost raw_g = raw@;
        match decode_server_packet(&raw) {
            Some(p) => {
                proof {
                    assert(is_envelope_for(data@, compressed_g, size_g, payload_g, raw_g, p));
                }
                Some(p)
            },
            None => {
                proof {
                    assert forall|
                        compressed: bool,
                        size: u64,
                        payload: Seq<u8>,
                        inner: Seq<u8>,
                        q: ServerPacket,
                    |
                        !(#[trigger] is_envelope_for(
                            data@,
                            compressed,
                            size,
                            payload,
                            inner,
                            q,
                        )) by {
                        if is_packet_header_encoding(data@, compressed, size, payload) {
                            lemma_packet_header_round_trip(
                                data@,
                                compressed,
                                size,
                                payload,
                                compressed_g,
                                size_g,
                                payload_g,
                            );
                        }
                    }
                }
                None
            },
        }
    } else {
        match decode_server_packet(&header.data) {
            Some(p) => {
                proof {
                    assert(is_envelope_for(data@, compressed_g, size_g, payload_g, payload_g, p));
                }
                Some(p)
            },
            None => {
                proof {
                    assert forall|
                        compressed: bool,
                        size: u64,
                        payload: Seq<u8>,
                        inner: Seq<u8>,
                        q: ServerPacket,
                    |
                        !(#[trigger] is_envelope_for(
                            data@,
                            compressed,
                            size,
                            payload,
                            inner,
                            q,
                        )) by {
                        if is_packet_header_encoding(data@, compressed, size, payload) {
                            lemma_packet_header_round_trip(
                                data@,
                                compressed,
                                size,
                                payload,
                                compressed_g,
                                size_g,
                                payload_g,
                            );
                        }
                    }
                }
                None
            },
        }
    }
}

/// Round trip of the whole envelope: whatever packet a parse of built
/// bytes hands back carries the same values as the packet that was
/// built, compressed or not.
pub proof fn lemma_envelope_round_trip(
    sent: Seq<u8>,
    p: ServerPacket,
    q: ServerPacket,
    inner1: Seq<u8>,
    compress1: bool,
    compressed2: bool,
    size2: u64,
    payload2: Seq<u8>,
    inner2: Seq<u8>,
)
    requires
        is_server_packet_encoding(inner1, p),
        compress1 ==> is_packet_header_encoding(sent, true, inner1.len() as u64, lz4_compressed(inner1))
            && lz4_decompressed(lz4_compressed(inner1)) == Some(inner1),
        !compress1 ==> is_packet_header_encoding(sent, false, inner1.len() as u64, inner1),
        is_envelope_for(sent, compressed2, size2, payload2, inner2, q),
    ensures
        server_packet_same(p, q),
{
    if compress1 {
        lemma_packet_header_round_trip(
            sent,
            true,
            inner1.len() as u64,
            lz4_compressed(inner1),
            compressed2,
            size2,
            payload2,
        );
        assert(inner2 == inner1);
    } else {
        lemma_packet_header_round_trip(
            sent,
            false,
            inner1.len() as u64,
            inner1,
            compressed2,
            size2,
            payload2,
        );
        assert(inner2 == inner1);
    }
    lemma_server_packet_round_trip(inner1, p, q);
}

} // verus!
