//! The canonical little-endian byte encoding of the packetised chunk
//! views.  Multi-byte integers are laid out least-significant byte first
//! with fixed widths; arrays are laid out element after element with no
//! padding.  Encoding and decoding are exact inverses, which is what the
//! uniqueness laws at the end of the module state.

use vstd::prelude::*;

use crate::chunk::Block;
use crate::chunk::ChunkMesh;
use crate::chunk::PacketChunk;
use crate::constants::CHUNK_BLOCK_COUNT;

verus! {

/// Number of bytes of an encoded struct-of-arrays chunk packet.
pub const PACKET_CHUNK_BYTES: usize = 12288;

/// Number of bytes of an encoded array-of-structs chunk mesh.
pub const CHUNK_MESH_BYTES: usize = 24576;

/// Low byte of a 16-bit value.
pub open spec fn lo8_spec(v: u16) -> u8 {
    (v & 0xff) as u8
}

/// High byte of a 16-bit value.
pub open spec fn hi8_spec(v: u16) -> u8 {
    ((v >> 8) & 0xff) as u8
}

/// The 16-bit value with the given low and high bytes.
pub open spec fn u16_from_spec(lo: u8, hi: u8) -> u16 {
    (lo as u16) | ((hi as u16) << 8)
}

/// Byte `k` (least significant first) of a 32-bit value.
pub open spec fn u32_byte_spec(v: u32, k: int) -> u8 {
    ((v >> (8 * k)) & 0xff) as u8
}

/// The 32-bit value with the given four bytes, least significant first.
pub open spec fn u32_from_spec(b0: u8, b1: u8, b2: u8, b3: u8) -> u32 {
    (b0 as u32) | ((b1 as u32) << 8) | ((b2 as u32) << 16) | ((b3 as u32) << 24)
}

/// A 16-bit value round-trips through its two bytes.
pub proof fn lemma_u16_round_trip(v: u16)
    ensures
        u16_from_spec(lo8_spec(v), hi8_spec(v)) == v,
{
    assert(((v & 0xff) as u8 as u16) | ((((v >> 8) & 0xff) as u8 as u16) << 8) == v)
        by (bit_vector);
}

/// A 32-bit value round-trips through its four bytes.
pub proof fn lemma_u32_round_trip(v: u32)
    ensures
        u32_from_spec(
            u32_byte_spec(v, 0),
            u32_byte_spec(v, 1),
            u32_byte_spec(v, 2),
            u32_byte_spec(v, 3),
        ) == v,
{
    assert((((v >> 0) & 0xff) as u8 as u32) | ((((v >> 8) & 0xff) as u8 as u32) << 8) | ((((v
        >> 16) & 0xff) as u8 as u32) << 16) | ((((v >> 24) & 0xff) as u8 as u32) << 24) == v)
        by (bit_vector);
}

fn lo8(v: u16) -> (r: u8)
    ensures
        r == lo8_spec(v),
{
    (v & 0xff) as u8
}

fn hi8(v: u16) -> (r: u8)
    ensures
        r == hi8_spec(v),
{
    ((v >> 8) & 0xff) as u8
}

fn u16_from(lo: u8, hi: u8) -> (r: u16)
    ensures
        r == u16_from_spec(lo, hi),
{
    (lo as u16) | ((hi as u16) << 8)
}

/// Appends a 16-bit array, each element as two little-endian bytes.
fn append_u16s(out: &mut Vec<u8>, v: &Vec<u16>)
    requires
        old(out)@.len() + 2 * v@.len() <= usize::MAX,
    ensures
        final(out)@.len() == old(out)@.len() + 2 * v@.len(),
        forall|i: int| 0 <= i < old(out)@.len() ==> final(out)@[i] == old(out)@[i],
        forall|j: int|
            0 <= j < v@.len() ==> final(out)@[old(out)@.len() + 2 * j] == lo8_spec(
                #[trigger] v@[j],
            ) && final(out)@[old(out)@.len() + 2 * j + 1] == hi8_spec(v@[j]),
{
    let base = out.len();
    let mut j: usize = 0;
    while j < v.len()
        invariant
            base == old(out)@.len(),
            base + 2 * v@.len() <= usize::MAX,
            j <= v@.len(),
            out@.len() == base + 2 * j,
            forall|i: int| 0 <= i < base ==> out@[i] == old(out)@[i],
            forall|t: int|
                0 <= t < j ==> out@[base + 2 * t] == lo8_spec(#[trigger] v@[t]) && out@[base + 2
                    * t + 1] == hi8_spec(v@[t]),
        decreases v@.len() - j,
    {
        out.push(lo8(v[j]));
        out.push(hi8(v[j]));
        j = j + 1;
    }
}

/// Appends a byte array as is.
fn append_u8s(out: &mut Vec<u8>, v: &Vec<u8>)
    requires
        old(out)@.len() + v@.len() <= usize::MAX,
    ensures
        final(out)@.len() == old(out)@.len() + v@.len(),
        forall|i: int| 0 <= i < old(out)@.len() ==> final(out)@[i] == old(out)@[i],
        forall|j: int|
            0 <= j < v@.len() ==> final(out)@[old(out)@.len() + j] == #[trigger] v@[j],
{
    let base = out.len();
    let mut j: usize = 0;
    while j < v.len()
        invariant
            base == old(out)@.len(),
            base + v@.len() <= usize::MAX,
            j <= v@.len(),
            out@.len() == base + j,
            forall|i: int| 0 <= i < base ==> out@[i] == old(out)@[i],
            forall|t: int| 0 <= t < j ==> out@[base + t] == #[trigger] v@[t],
        decreases v@.len() - j,
    {
        out.push(v[j]);
        j = j + 1;
    }
}

/// Reads `count` 16-bit values laid out from `start`.
fn take_u16s(data: &Vec<u8>, start: usize, count: usize) -> (r: Vec<u16>)
    requires
        start + 2 * count <= data@.len(),
    ensures
        r@.len() == count,
        forall|j: int|
            0 <= j < count ==> #[trigger] r@[j] == u16_from_spec(
                data@[start + 2 * j],
                data@[start + 2 * j + 1],
            ),
{
    let dlen = data.len();
    let mut out: Vec<u16> = Vec::new();
    let mut j: usize = 0;
    while j < count
        invariant
            dlen == data@.len(),
            start + 2 * count <= data@.len(),
            j <= count,
            out@.len() == j,
            forall|t: int|
                0 <= t < j ==> #[trigger] out@[t] == u16_from_spec(
                    data@[start + 2 * t],
                    data@[start + 2 * t + 1],
                ),
        decreases count - j,
    {
        out.push(u16_from(data[start + 2 * j], data[start + 2 * j + 1]));
        j = j + 1;
    }
    out
}

/// Reads `count` bytes laid out from `start`.
fn take_u8s(data: &Vec<u8>, start: usize, count: usize) -> (r: Vec<u8>)
    requires
        start + count <= data@.len(),
    ensures
        r@.len() == count,
        forall|j: int| 0 <= j < count ==> #[trigger] r@[j] == data@[start + j],
{
    let dlen = data.len();
    let mut out: Vec<u8> = Vec::new();
    let mut j: usize = 0;
    while j < count
        invariant
            dlen == data@.len(),
            start + count <= data@.len(),
            j <= count,
            out@.len() == j,
            forall|t: int| 0 <= t < j ==> #[trigger] out@[t] == data@[start + t],
        decreases count - j,
    {
        out.push(data[start + j]);
        j = j + 1;
    }
    out
}

/// `b` is the canonical encoding of the chunk packet `p`: the nine
/// arrays in layer order foreground, middleground, background, each
/// layer as block ids, block types, texture indices.
pub open spec fn is_packet_chunk_encoding(b: Seq<u8>, p: PacketChunk) -> bool {
    let n = CHUNK_BLOCK_COUNT as int;
    &&& p.wf()
    &&& b.len() == PACKET_CHUNK_BYTES
    &&& forall|j: int|
        0 <= j < n ==> b[2 * j] == lo8_spec(#[trigger] p.foreground_blockid@[j]) && b[2 * j + 1]
            == hi8_spec(p.foreground_blockid@[j])
    &&& forall|j: int| 0 <= j < n ==> b[2 * n + j] == #[trigger] p.foreground_blocktype@[j]
    &&& forall|j: int| 0 <= j < n ==> b[3 * n + j] == #[trigger] p.foreground_textureindex@[j]
    &&& forall|j: int|
        0 <= j < n ==> b[4 * n + 2 * j] == lo8_spec(#[trigger] p.middleground_blockid@[j]) && b[4
            * n + 2 * j + 1] == hi8_spec(p.middleground_blockid@[j])
    &&& forall|j: int| 0 <= j < n ==> b[6 * n + j] == #[trigger] p.middleground_blocktype@[j]
    &&& forall|j: int| 0 <= j < n ==> b[7 * n + j] == #[trigger] p.middleground_textureindex@[j]
    &&& forall|j: int|
        0 <= j < n ==> b[8 * n + 2 * j] == lo8_spec(#[trigger] p.background_blockid@[j]) && b[8
            * n + 2 * j + 1] == hi8_spec(p.background_blockid@[j])
    &&& forall|j: int| 0 <= j < n ==> b[10 * n + j] == #[trigger] p.background_blocktype@[j]
    &&& forall|j: int| 0 <= j < n ==> b[11 * n + j] == #[trigger] p.background_textureindex@[j]
}

/// Encodes a chunk packet into its canonical bytes.
pub fn encode_packet_chunk(p: &PacketChunk) -> (r: Vec<u8>)
    requires
        p.wf(),
    ensures
        is_packet_chunk_encoding(r@, *p),
{
    let mut out: Vec<u8> = Vec::new();
    append_u16s(&mut out, &p.foreground_blockid);
    append_u8s(&mut out, &p.foreground_blocktype);
    append_u8s(&mut out, &p.foreground_textureindex);
    append_u16s(&mut out, &p.middleground_blockid);
    append_u8s(&mut out, &p.middleground_blocktype);
    append_u8s(&mut out, &p.middleground_textureindex);
    append_u16s(&mut out, &p.background_blockid);
    append_u8s(&mut out, &p.background_blocktype);
    append_u8s(&mut out, &p.background_textureindex);
    out
}

/// Decodes a chunk packet from its canonical bytes; `None` for data of
/// the wrong length.
pub fn decode_packet_chunk(data: &Vec<u8>) -> (r: Option<PacketChunk>)
    ensures
        data@.len() != PACKET_CHUNK_BYTES ==> r is None,
        data@.len() == PACKET_CHUNK_BYTES ==> (r matches Some(p)
            && is_packet_chunk_encoding(data@, p)),
{
    if data.len() != PACKET_CHUNK_BYTES {
        return None;
    }
    let n = CHUNK_BLOCK_COUNT;
    let foreground_blockid = take_u16s(data, 0, n);
    let foreground_blocktype = take_u8s(data, 2 * n, n);
    let foreground_textureindex = take_u8s(data, 3 * n, n);
    let middleground_blockid = take_u16s(data, 4 * n, n);
    let middleground_blocktype = take_u8s(data, 6 * n, n);
    let middleground_textureindex = take_u8s(data, 7 * n, n);
    let background_blockid = take_u16s(data, 8 * n, n);
    let background_blocktype = take_u8s(data, 10 * n, n);
    let background_textureindex = take_u8s(data, 11 * n, n);
    let p = PacketChunk {
        foreground_blockid,
        foreground_blocktype,
        foreground_textureindex,
        middleground_blockid,
        middleground_blocktype,
        middleground_textureindex,
        background_blockid,
        background_blocktype,
        background_textureindex,
    };
    proof {
        assert forall|j: int| 0 <= j < CHUNK_BLOCK_COUNT implies data@[2 * j] == lo8_spec(
            #[trigger] p.foreground_blockid@[j],
        ) && data@[2 * j + 1] == hi8_spec(p.foreground_blockid@[j]) by {
            let lo = data@[2 * j];
            let hi = data@[2 * j + 1];
            assert(p.foreground_blockid@[j] == u16_from_spec(lo, hi));
            assert(lo8_spec(u16_from_spec(lo, hi)) == lo && hi8_spec(u16_from_spec(lo, hi)) == hi)
                by (bit_vector);
        }
        assert forall|j: int| 0 <= j < CHUNK_BLOCK_COUNT implies data@[8 * CHUNK_BLOCK_COUNT + 2
            * j] == lo8_spec(#[trigger] p.background_blockid@[j]) && data@[8 * CHUNK_BLOCK_COUNT + 2
            * j + 1] == hi8_spec(p.background_blockid@[j]) by {
            let lo = data@[8 * CHUNK_BLOCK_COUNT + 2 * j];
            let hi = data@[8 * CHUNK_BLOCK_COUNT + 2 * j + 1];
            assert(p.background_blockid@[j] == u16_from_spec(lo, hi));
            assert(lo8_spec(u16_from_spec(lo, hi)) == lo && hi8_spec(u16_from_spec(lo, hi)) == hi)
                by (bit_vector);
        }
        assert forall|j: int| 0 <= j < CHUNK_BLOCK_COUNT implies data@[4 * CHUNK_BLOCK_COUNT + 2
            * j] == lo8_spec(#[trigger] p.middleground_blockid@[j]) && data@[4 * CHUNK_BLOCK_COUNT
            + 2 * j + 1] == hi8_spec(p.middleground_blockid@[j]) by {
            let lo = data@[4 * CHUNK_BLOCK_COUNT + 2 * j];
            let hi = data@[4 * CHUNK_BLOCK_COUNT + 2 * j + 1];
            assert(p.middleground_blockid@[j] == u16_from_spec(lo, hi));
            assert(lo8_spec(u16_from_spec(lo, hi)) == lo && hi8_spec(u16_from_spec(lo, hi)) == hi)
                by (bit_vector);
        }
    }
    Some(p)
}

/// One encoding cannot come from two different chunk packets: the
/// decode of an encoded packet is the packet itself, array for array.
pub proof fn lemma_packet_chunk_round_trip(b: Seq<u8>, p: PacketChunk, q: PacketChunk)
    requires
        is_packet_chunk_encoding(b, p),
        is_packet_chunk_encoding(b, q),
    ensures
        p.foreground_blockid@ == q.foreground_blockid@,
        p.foreground_blocktype@ == q.foreground_blocktype@,
        p.foreground_textureindex@ == q.foreground_textureindex@,
        p.middleground_blockid@ == q.middleground_blockid@,
        p.middleground_blocktype@ == q.middleground_blocktype@,
        p.middleground_textureindex@ == q.middleground_textureindex@,
        p.background_blockid@ == q.background_blockid@,
        p.background_blocktype@ == q.background_blocktype@,
        p.background_textureindex@ == q.background_textureindex@,
{
    assert forall|j: int| 0 <= j < CHUNK_BLOCK_COUNT implies #[trigger] p.foreground_blockid@[j]
        == q.foreground_blockid@[j] by {
        lemma_u16_bytes_unique(p.foreground_blockid@[j], q.foreground_blockid@[j]);
    }
    assert forall|j: int| 0 <= j < CHUNK_BLOCK_COUNT implies #[trigger] p.middleground_blockid@[j]
        == q.middleground_blockid@[j] by {
        lemma_u16_bytes_unique(p.middleground_blockid@[j], q.middleground_blockid@[j]);
    }
    assert forall|j: int| 0 <= j < CHUNK_BLOCK_COUNT implies #[trigger] p.background_blockid@[j]
        == q.background_blockid@[j] by {
        lemma_u16_bytes_unique(p.background_blockid@[j], q.background_blockid@[j]);
    }
    assert(p.foreground_blockid@ =~= q.foreground_blockid@);
    assert(p.foreground_blocktype@ =~= q.foreground_blocktype@);
    assert(p.foreground_textureindex@ =~= q.foreground_textureindex@);
    assert(p.middleground_blockid@ =~= q.middleground_blockid@);
    assert(p.middleground_blocktype@ =~= q.middleground_blocktype@);
    assert(p.middleground_textureindex@ =~= q.middleground_textureindex@);
    assert(p.background_blockid@ =~= q.background_blockid@);
    assert(p.background_blocktype@ =~= q.background_blocktype@);
    assert(p.background_textureindex@ =~= q.background_textureindex@);
}

/// Two 16-bit values with equal low and high bytes are equal.
pub proof fn lemma_u16_bytes_unique(a: u16, b: u16)
    requires
        lo8_spec(a) == lo8_spec(b),
        hi8_spec(a) == hi8_spec(b),
    ensures
        a == b,
{
    assert((a & 0xff) as u8 == (b & 0xff) as u8 && ((a >> 8) & 0xff) as u8 == ((b >> 8) & 0xff)
        as u8 ==> a == b) by (bit_vector);
}

/// The eight canonical bytes of one array-of-structs block record:
/// position, 32-bit block id, type code, texture index.
pub open spec fn block_byte_spec(blk: Block, k: int) -> u8 {
    if k == 0 {
        blk.x
    } else if k == 1 {
        blk.y
    } else if k == 2 {
        u32_byte_spec(blk.block_id, 0)
    } else if k == 3 {
        u32_byte_spec(blk.block_id, 1)
    } else if k == 4 {
        u32_byte_spec(blk.block_id, 2)
    } else if k == 5 {
        u32_byte_spec(blk.block_id, 3)
    } else if k == 6 {
        blk.block_type
    } else {
        blk.texture_index
    }
}

/// `b` is the canonical encoding of the chunk mesh `m`: the three block
/// arrays in draw order background, middleground, foreground, each block
/// as an eight-byte record.
pub open spec fn is_chunk_mesh_encoding(b: Seq<u8>, m: ChunkMesh) -> bool {
    let n = CHUNK_BLOCK_COUNT as int;
    &&& m.wf()
    &&& b.len() == CHUNK_MESH_BYTES
    &&& forall|j: int, k: int|
        0 <= j < n && 0 <= k < 8 ==> b[8 * j + k] == (#[trigger] block_byte_spec(
            m.background@[j],
            k,
        ))
    &&& forall|j: int, k: int|
        0 <= j < n && 0 <= k < 8 ==> b[8 * n + 8 * j + k] == (#[trigger] block_byte_spec(
            m.middleground@[j],
            k,
        ))
    &&& forall|j: int, k: int|
        0 <= j < n && 0 <= k < 8 ==> b[16 * n + 8 * j + k] == (#[trigger] block_byte_spec(
            m.foreground@[j],
            k,
        ))
}

/// Appends one block record's eight bytes.
fn append_block(out: &mut Vec<u8>, blk: &Block)
    requires
        old(out)@.len() + 8 <= usize::MAX,
    ensures
        final(out)@.len() == old(out)@.len() + 8,
        forall|i: int| 0 <= i < old(out)@.len() ==> final(out)@[i] == old(out)@[i],
        forall|k: int|
            0 <= k < 8 ==> (#[trigger] final(out)@[old(out)@.len() + k]) == block_byte_spec(
                *blk,
                k,
            ),
{
    proof {
        let v = blk.block_id;
        assert((v >> 0) & 0xff == v & 0xff) by (bit_vector);
    }
    out.push(blk.x);
    out.push(blk.y);
    out.push((blk.block_id & 0xff) as u8);
    out.push(((blk.block_id >> 8) & 0xff) as u8);
    out.push(((blk.block_id >> 16) & 0xff) as u8);
    out.push(((blk.block_id >> 24) & 0xff) as u8);
    out.push(blk.block_type);
    out.push(blk.texture_index);
}

/// Appends one layer of block records.
fn append_blocks(out: &mut Vec<u8>, blocks: &Vec<Block>)
    requires
        old(out)@.len() + 8 * blocks@.len() <= usize::MAX,
    ensures
        final(out)@.len() == old(out)@.len() + 8 * blocks@.len(),
        forall|i: int| 0 <= i < old(out)@.len() ==> final(out)@[i] == old(out)@[i],
        forall|j: int, k: int|
            0 <= j < blocks@.len() && 0 <= k < 8 ==> final(out)@[old(out)@.len() + 8 * j + k]
                == (#[trigger] block_byte_spec(blocks@[j], k)),
{
    let base = out.len();
    let mut j: usize = 0;
    while j < blocks.len()
        invariant
            base == old(out)@.len(),
            base + 8 * blocks@.len() <= usize::MAX,
            j <= blocks@.len(),
            out@.len() == base + 8 * j,
            forall|i: int| 0 <= i < base ==> out@[i] == old(out)@[i],
            forall|t: int, k: int|
                0 <= t < j && 0 <= k < 8 ==> out@[base + 8 * t + k] == (
                #[trigger] block_byte_spec(blocks@[t], k)),
        decreases blocks@.len() - j,
    {
        append_block(out, &blocks[j]);
        j = j + 1;
    }
}

/// Reads one layer of block records laid out from `start`.
fn take_blocks(data: &Vec<u8>, start: usize, count: usize) -> (r: Vec<Block>)
    requires
        start + 8 * count <= data@.len(),
    ensures
        r@.len() == count,
        forall|j: int, k: int|
            0 <= j < count && 0 <= k < 8 ==> data@[start + 8 * j + k] == (
            #[trigger] block_byte_spec(r@[j], k)),
{
    let dlen = data.len();
    let mut out: Vec<Block> = Vec::new();
    let mut j: usize = 0;
    while j < count
        invariant
            dlen == data@.len(),
            start + 8 * count <= data@.len(),
            j <= count,
            out@.len() == j,
            forall|t: int, k: int|
                0 <= t < j && 0 <= k < 8 ==> data@[start + 8 * t + k] == (
                #[trigger] block_byte_spec(out@[t], k)),
        decreases count - j,
    {
        let o = start + 8 * j;
        let b0 = data[o];
        let b1 = data[o + 1];
        let b2 = data[o + 2];
        let b3 = data[o + 3];
        let b4 = data[o + 4];
        let b5 = data[o + 5];
        let b6 = data[o + 6];
        let b7 = data[o + 7];
        let blk = Block {
            x: b0,
            y: b1,
            block_id: (b2 as u32) | ((b3 as u32) << 8) | ((b4 as u32) << 16) | ((b5 as u32) << 24),
            block_type: b6,
            texture_index: b7,
        };
        proof {
            let id = blk.block_id;
            assert(u32_byte_spec(id, 0) == b2 && u32_byte_spec(id, 1) == b3 && u32_byte_spec(id, 2)
                == b4 && u32_byte_spec(id, 3) == b5) by {
                assert({
                    let v = (b2 as u32) | ((b3 as u32) << 8) | ((b4 as u32) << 16) | ((b5 as u32)
                        << 24);
                    ((v >> 0) & 0xff) as u8 == b2 && ((v >> 8) & 0xff) as u8 == b3 && ((v >> 16)
                        & 0xff) as u8 == b4 && ((v >> 24) & 0xff) as u8 == b5
                }) by (bit_vector);
            }
        }
        out.push(blk);
        j = j + 1;
    }
    out
}

/// Encodes a chunk mesh into its canonical bytes.
pub fn encode_chunk_mesh(m: &ChunkMesh) -> (r: Vec<u8>)
    requires
        m.wf(),
    ensures
        is_chunk_mesh_encoding(r@, *m),
{
    let mut out: Vec<u8> = Vec::new();
    append_blocks(&mut out, &m.background);
    append_blocks(&mut out, &m.middleground);
    append_blocks(&mut out, &m.foreground);
    out
}

/// Decodes a chunk mesh from its canonical bytes; `None` for data of the
/// wrong length.
pub fn decode_chunk_mesh(data: &Vec<u8>) -> (r: Option<ChunkMesh>)
    ensures
        data@.len() != CHUNK_MESH_BYTES ==> r is None,
        data@.len() == CHUNK_MESH_BYTES ==> (r matches Some(m)
            && is_chunk_mesh_encoding(data@, m)),
{
    if data.len() != CHUNK_MESH_BYTES {
        return None;
    }
    let n = CHUNK_BLOCK_COUNT;
    let background = take_blocks(data, 0, n);
    let middleground = take_blocks(data, 8 * n, n);
    let foreground = take_blocks(data, 16 * n, n);
    Some(ChunkMesh { background, middleground, foreground })
}

/// Two blocks with equal record bytes are equal.
proof fn lemma_block_bytes_unique(a: Block, b: Block)
    requires
        forall|k: int| 0 <= k < 8 ==> (#[trigger] block_byte_spec(a, k)) == block_byte_spec(b, k),
    ensures
        a == b,
{
    assert(block_byte_spec(a, 0) == block_byte_spec(b, 0));
    assert(block_byte_spec(a, 1) == block_byte_spec(b, 1));
    assert(block_byte_spec(a, 2) == block_byte_spec(b, 2));
    assert(block_byte_spec(a, 3) == block_byte_spec(b, 3));
    assert(block_byte_spec(a, 4) == block_byte_spec(b, 4));
    assert(block_byte_spec(a, 5) == block_byte_spec(b, 5));
    assert(block_byte_spec(a, 6) == block_byte_spec(b, 6));
    assert(block_byte_spec(a, 7) == block_byte_spec(b, 7));
    let x = a.block_id;
    let y = b.block_id;
    assert(((x >> 0) & 0xff) as u8 == ((y >> 0) & 0xff) as u8 && ((x >> 8) & 0xff) as u8 == ((y
        >> 8) & 0xff) as u8 && ((x >> 16) & 0xff) as u8 == ((y >> 16) & 0xff) as u8 && ((x >> 24)
        & 0xff) as u8 == ((y >> 24) & 0xff) as u8 ==> x == y) by (bit_vector);
}

/// One encoding cannot come from two different chunk meshes: the decode
/// of an encoded mesh is the mesh itself, layer for layer.
pub proof fn lemma_chunk_mesh_round_trip(b: Seq<u8>, m1: ChunkMesh, m2: ChunkMesh)
    requires
        is_chunk_mesh_encoding(b, m1),
        is_chunk_mesh_encoding(b, m2),
    ensures
        m1.background@ == m2.background@,
        m1.middleground@ == m2.middleground@,
        m1.foreground@ == m2.foreground@,
{
    assert forall|j: int| 0 <= j < CHUNK_BLOCK_COUNT implies #[trigger] m1.background@[j]
        == m2.background@[j] by {
        assert forall|k: int|
            0 <= k < 8 implies (#[trigger] block_byte_spec(m1.background@[j], k))
            == block_byte_spec(m2.background@[j], k) by {
            assert(b[8 * j + k] == block_byte_spec(m1.background@[j], k));
            assert(b[8 * j + k] == block_byte_spec(m2.background@[j], k));
        }
        lemma_block_bytes_unique(m1.background@[j], m2.background@[j]);
    }
    assert forall|j: int| 0 <= j < CHUNK_BLOCK_COUNT implies #[trigger] m1.middleground@[j]
        == m2.middleground@[j] by {
        assert forall|k: int|
            0 <= k < 8 implies (#[trigger] block_byte_spec(m1.middleground@[j], k))
            == block_byte_spec(m2.middleground@[j], k) by {
            assert(b[8 * (CHUNK_BLOCK_COUNT as int) + 8 * j + k] == block_byte_spec(
                m1.middleground@[j],
                k,
            ));
            assert(b[8 * (CHUNK_BLOCK_COUNT as int) + 8 * j + k] == block_byte_spec(
                m2.middleground@[j],
                k,
            ));
        }
        lemma_block_bytes_unique(m1.middleground@[j], m2.middleground@[j]);
    }
    assert forall|j: int| 0 <= j < CHUNK_BLOCK_COUNT implies #[trigger] m1.foreground@[j]
        == m2.foreground@[j] by {
        assert forall|k: int|
            0 <= k < 8 implies (#[trigger] block_byte_spec(m1.foreground@[j], k))
            == block_byte_spec(m2.foreground@[j], k) by {
            assert(b[16 * (CHUNK_BLOCK_COUNT as int) + 8 * j + k] == block_byte_spec(
                m1.foreground@[j],
                k,
            ));
            assert(b[16 * (CHUNK_BLOCK_COUNT as int) + 8 * j + k] == block_byte_spec(
                m2.foreground@[j],
                k,
            ));
        }
        lemma_block_bytes_unique(m1.foreground@[j], m2.foreground@[j]);
    }
    assert(m1.background@ =~= m2.background@);
    assert(m1.middleground@ =~= m2.middleground@);
    assert(m1.foreground@ =~= m2.foreground@);
}

} // verus!
