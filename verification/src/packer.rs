//! Packs the six face lists into one GPU-ready byte buffer.
//!
//! For each direction, in the fixed order front, back, top, bottom, right,
//! left, the packer appends one block at the current buffer length: the
//! direction's six-vertex quad template, then one record per face holding
//! its position, the direction's normal and the block's color. Every
//! scalar is a 32-bit IEEE-754 single written little-endian; each
//! three-component vector takes sixteen bytes (three scalars and four
//! bytes of zero padding), as the consumer's storage-buffer layout
//! demands. After a block the buffer is padded with zeros to the next
//! multiple of the binding alignment, so the next block starts at an
//! offset the consumer may bind. The output is the buffer plus one
//! (start offset, face count) record per direction.

use crate::chunk::{Block, Chunk, Direction, FaceRecord, Faces};
use vstd::arithmetic::div_mod::{
    lemma_div_is_ordered, lemma_fundamental_div_mod, lemma_fundamental_div_mod_converse_div,
    lemma_mod_division_less_than_divisor, lemma_mod_multiples_basic,
};
use vstd::prelude::*;

verus! {

/// Offsets into the shared buffer must be multiples of this.
pub const BUFFER_ALIGNMENT: usize = 256;

/// IEEE-754 single-precision bit pattern of 1.0.
pub const ONE_BITS: u32 = 0x3f80_0000;

/// IEEE-754 single-precision bit pattern of -1.0.
pub const NEG_ONE_BITS: u32 = 0xbf80_0000;

/// IEEE-754 single-precision bit pattern of 0.5.
pub const HALF_BITS: u32 = 0x3f00_0000;

/// IEEE-754 single-precision bit pattern of -0.5.
pub const NEG_HALF_BITS: u32 = 0xbf00_0000;

/// IEEE-754 single-precision bit pattern of 0.2, the gray of stone.
pub const STONE_COLOR_BITS: u32 = 0x3e4c_cccd;

/// The fixed direction order of the packed buffer.
pub open spec fn dir_at(k: int) -> Direction {
    if k == 0 {
        Direction::Front
    } else if k == 1 {
        Direction::Back
    } else if k == 2 {
        Direction::Top
    } else if k == 3 {
        Direction::Bottom
    } else if k == 4 {
        Direction::Right
    } else {
        Direction::Left
    }
}

/// IEEE-754 single-precision bit pattern of a small whole coordinate.
pub open spec fn coord_bits_spec(n: int) -> u32 {
    if n == 0 {
        0
    } else if n == 1 {
        0x3f80_0000
    } else if n == 2 {
        0x4000_0000
    } else if n == 3 {
        0x4040_0000
    } else if n == 4 {
        0x4080_0000
    } else if n == 5 {
        0x40a0_0000
    } else if n == 6 {
        0x40c0_0000
    } else if n == 7 {
        0x40e0_0000
    } else if n == 8 {
        0x4100_0000
    } else if n == 9 {
        0x4110_0000
    } else if n == 10 {
        0x4120_0000
    } else if n == 11 {
        0x4130_0000
    } else if n == 12 {
        0x4140_0000
    } else if n == 13 {
        0x4150_0000
    } else if n == 14 {
        0x4160_0000
    } else {
        0x4170_0000
    }
}

/// The four little-endian bytes of a 32-bit word.
pub open spec fn le_bytes(w: u32) -> Seq<u8> {
    seq![(w & 0xff) as u8, ((w >> 8) & 0xff) as u8, ((w >> 16) & 0xff) as u8, ((w >> 24)
        & 0xff) as u8]
}

/// `n` zero bytes.
pub open spec fn zero_bytes(n: int) -> Seq<u8> {
    Seq::new(n as nat, |i: int| 0u8)
}

/// A three-component vector entry: three little-endian scalars and four
/// bytes of zero padding, sixteen bytes in all.
pub open spec fn vec3_bytes(a: u32, b: u32, c: u32) -> Seq<u8> {
    le_bytes(a) + le_bytes(b) + le_bytes(c) + zero_bytes(4)
}

/// The bit patterns of a direction's unit normal.
pub open spec fn normal_bits_spec(d: Direction) -> (u32, u32, u32) {
    match d {
        Direction::Front => (ONE_BITS, 0u32, 0u32),
        Direction::Back => (NEG_ONE_BITS, 0u32, 0u32),
        Direction::Top => (0u32, ONE_BITS, 0u32),
        Direction::Bottom => (0u32, NEG_ONE_BITS, 0u32),
        Direction::Right => (0u32, 0u32, ONE_BITS),
        Direction::Left => (0u32, 0u32, NEG_ONE_BITS),
    }
}

/// The bit patterns of a block's color; Air never reaches a face list and
/// gets black.
pub open spec fn color_bits_spec(b: Block) -> (u32, u32, u32) {
    match b {
        Block::Air => (0u32, 0u32, 0u32),
        Block::Stone => (STONE_COLOR_BITS, STONE_COLOR_BITS, STONE_COLOR_BITS),
    }
}

/// One vertex of a direction's quad template: each component is plus or
/// minus one half.
pub open spec fn template_vertex(d: Direction, i: int) -> (u32, u32, u32) {
    let p = HALF_BITS;
    let m = NEG_HALF_BITS;
    match d {
        Direction::Back => if i == 0 {
            (m, m, m)
        } else if i == 1 {
            (m, p, m)
        } else if i == 2 {
            (m, m, p)
        } else if i == 3 {
            (m, m, p)
        } else if i == 4 {
            (m, p, m)
        } else {
            (m, p, p)
        },
        Direction::Front => if i == 0 {
            (p, p, m)
        } else if i == 1 {
            (p, m, m)
        } else if i == 2 {
            (p, m, p)
        } else if i == 3 {
            (p, p, m)
        } else if i == 4 {
            (p, m, p)
        } else {
            (p, p, p)
        },
        Direction::Top => if i == 0 {
            (m, p, p)
        } else if i == 1 {
            (m, p, m)
        } else if i == 2 {
            (p, p, m)
        } else if i == 3 {
            (m, p, p)
        } else if i == 4 {
            (p, p, m)
        } else {
            (p, p, p)
        },
        Direction::Bottom => if i == 0 {
            (m, m, m)
        } else if i == 1 {
            (m, m, p)
        } else if i == 2 {
            (p, m, m)
        } else if i == 3 {
            (p, m, m)
        } else if i == 4 {
            (m, m, p)
        } else {
            (p, m, p)
        },
        Direction::Left => if i == 0 {
            (m, p, m)
        } else if i == 1 {
            (m, m, m)
        } else if i == 2 {
            (p, m, m)
        } else if i == 3 {
            (m, p, m)
        } else if i == 4 {
            (p, m, m)
        } else {
            (p, p, m)
        },
        Direction::Right => if i == 0 {
            (m, m, p)
        } else if i == 1 {
            (m, p, p)
        } else if i == 2 {
            (p, m, p)
        } else if i == 3 {
            (p, m, p)
        } else if i == 4 {
            (m, p, p)
        } else {
            (p, p, p)
        },
    }
}

/// The first `n` vertices of a direction's quad template, serialized.
pub open spec fn template_bytes_upto(d: Direction, n: int) -> Seq<u8>
    decreases n,
{
    if n <= 0 {
        Seq::empty()
    } else {
        template_bytes_upto(d, n - 1) + vec3_bytes(
            template_vertex(d, n - 1).0,
            template_vertex(d, n - 1).1,
            template_vertex(d, n - 1).2,
        )
    }
}

/// A direction's whole six-vertex quad template, 96 bytes.
pub open spec fn template_bytes(d: Direction) -> Seq<u8> {
    template_bytes_upto(d, 6)
}

/// One face record: position, normal, color, 48 bytes.
pub open spec fn face_bytes(rec: FaceRecord, d: Direction) -> Seq<u8> {
    vec3_bytes(
        coord_bits_spec(rec.0.x as int),
        coord_bits_spec(rec.0.y as int),
        coord_bits_spec(rec.0.z as int),
    ) + vec3_bytes(normal_bits_spec(d).0, normal_bits_spec(d).1, normal_bits_spec(d).2)
        + vec3_bytes(color_bits_spec(rec.1).0, color_bits_spec(rec.1).1, color_bits_spec(rec.1).2)
}

/// The first `n` records of a face list, serialized.
pub open spec fn face_list_bytes(list: Seq<FaceRecord>, d: Direction, n: int) -> Seq<u8>
    decreases n,
{
    if n <= 0 {
        Seq::empty()
    } else {
        face_list_bytes(list, d, n - 1) + face_bytes(list[n - 1], d)
    }
}

/// One direction's block: the quad template followed by its face records.
pub open spec fn direction_block_bytes(d: Direction, list: Seq<FaceRecord>) -> Seq<u8> {
    template_bytes(d) + face_list_bytes(list, d, list.len() as int)
}

/// The smallest multiple of the alignment at or above `n`.
pub open spec fn align_up(n: int) -> int {
    ((n + 255) / 256) * 256
}

/// The byte offset at which direction block `k` starts: each block begins
/// at the previous block's end rounded up to the alignment.
pub open spec fn pack_offset(faces: Faces, k: int) -> int
    decreases k,
{
    if k <= 0 {
        0
    } else {
        align_up(pack_offset(faces, k - 1) + 96 + 48 * faces.list(dir_at(k - 1)).len())
    }
}

/// The packed buffer after the first `k` direction blocks: each block
/// followed by its zero padding up to the alignment.
pub open spec fn packed_bytes(faces: Faces, k: int) -> Seq<u8>
    decreases k,
{
    if k <= 0 {
        Seq::empty()
    } else {
        let before = pack_offset(faces, k - 1);
        let end = before + 96 + 48 * faces.list(dir_at(k - 1)).len();
        packed_bytes(faces, k - 1) + direction_block_bytes(dir_at(k - 1), faces.list(dir_at(k - 1)))
            + zero_bytes(align_up(end) - end)
    }
}

/// Basic facts about the alignment rounding.
pub proof fn lemma_align_up(n: int)
    requires
        0 <= n,
    ensures
        n <= align_up(n) < n + 256,
        align_up(n) % 256 == 0,
        n % 256 == 0 ==> align_up(n) == n,
{
    lemma_fundamental_div_mod(n + 255, 256);
    lemma_mod_division_less_than_divisor(n + 255, 256);
    lemma_mod_multiples_basic((n + 255) / 256, 256);
    lemma_fundamental_div_mod(n, 256);
    lemma_mod_division_less_than_divisor(n, 256);
    if n % 256 == 0 {
        lemma_fundamental_div_mod_converse_div(n + 255, 256, n / 256, 255);
    }
}

/// Every multiple of the alignment at or above `n` is at or above
/// `align_up(n)`: the rounding is to the nearest such multiple.
pub proof fn lemma_align_up_least(n: int, m: int)
    requires
        0 <= n <= m,
        m % 256 == 0,
    ensures
        align_up(n) <= m,
{
    lemma_fundamental_div_mod(m, 256);
    lemma_fundamental_div_mod_converse_div(m + 255, 256, m / 256, 255);
    lemma_div_is_ordered(n + 255, m + 255, 256);
    lemma_fundamental_div_mod(n + 255, 256);
    lemma_mod_division_less_than_divisor(n + 255, 256);
}

/// Every direction's start offset in the packed buffer is a multiple of
/// the binding alignment.
pub proof fn lemma_pack_offsets_aligned(faces: Faces, k: int)
    requires
        0 <= k,
    ensures
        pack_offset(faces, k) % 256 == 0,
        0 <= pack_offset(faces, k),
    decreases k,
{
    if k > 0 {
        lemma_pack_offsets_aligned(faces, k - 1);
        lemma_align_up(pack_offset(faces, k - 1) + 96 + 48 * faces.list(dir_at(k - 1)).len());
    }
}

/// The packed prefix is exactly as long as the next block's start offset.
pub proof fn lemma_packed_bytes_len(faces: Faces, k: int)
    requires
        0 <= k,
    ensures
        packed_bytes(faces, k).len() == pack_offset(faces, k),
    decreases k,
{
    if k > 0 {
        lemma_packed_bytes_len(faces, k - 1);
        let list = faces.list(dir_at(k - 1));
        lemma_face_list_bytes_len(list, dir_at(k - 1), list.len() as int);
        lemma_template_bytes_len(dir_at(k - 1), 6);
        lemma_pack_offsets_aligned(faces, k - 1);
        lemma_align_up(pack_offset(faces, k - 1) + 96 + 48 * list.len());
    }
}

/// A serialized face list is 48 bytes per record.
pub proof fn lemma_face_list_bytes_len(list: Seq<FaceRecord>, d: Direction, n: int)
    requires
        0 <= n,
    ensures
        face_list_bytes(list, d, n).len() == 48 * n,
    decreases n,
{
    if n > 0 {
        lemma_face_list_bytes_len(list, d, n - 1);
    }
}

/// A serialized template prefix is 16 bytes per vertex.
pub proof fn lemma_template_bytes_len(d: Direction, n: int)
    requires
        0 <= n,
    ensures
        template_bytes_upto(d, n).len() == 16 * n,
    decreases n,
{
    if n > 0 {
        lemma_template_bytes_len(d, n - 1);
    }
}

/// Every record's position lies inside the grid.
pub open spec fn records_in_grid(list: Seq<FaceRecord>) -> bool {
    forall|i: int|
        0 <= i < list.len() ==> (#[trigger] list[i]).0.x < 16 && list[i].0.y < 16 && list[i].0.z
            < 16
}

/// What the mesher emits can always be packed: every record of a face
/// list scanned from the grid carries a position inside the grid.
pub proof fn lemma_face_seq_in_grid(g: Seq<Block>, n: int, d: Direction)
    requires
        0 <= n <= 4096,
    ensures
        records_in_grid(crate::chunk::face_seq(g, n, d)),
    decreases n,
{
    if n > 0 {
        lemma_face_seq_in_grid(g, n - 1, d);
        let i = n - 1;
        crate::chunk::lemma_index_to_coords(i);
        let s = crate::chunk::face_seq(g, i, d);
        let t = crate::chunk::face_seq(g, n, d);
        assert forall|j: int| 0 <= j < t.len() implies (#[trigger] t[j]).0.x < 16 && t[j].0.y < 16
            && t[j].0.z < 16 by {
            if j < s.len() {
                assert(t[j] == s[j]);
            } else {
                assert(t[j] == crate::chunk::face_record_at(g, i));
            }
        }
    }
}


/// Fails when a face count or a start offset does not fit the 32-bit
/// width the rendering backend takes; fatal for the chunk being packed.
#[derive(Clone, Copy, PartialEq, Eq, Structural, Debug)]
pub enum PackError {
    Overflow,
}

/// One direction's entry in the packed output: where its block starts and
/// how many faces it holds. A draw covers six vertices per face.
#[derive(Clone, Copy, PartialEq, Eq, Structural, Debug)]
pub struct FaceInfo {
    pub start_offset: u32,
    pub count: u32,
}

/// The packed buffer and the per-direction records, in direction order.
pub struct PackedFaces {
    pub buffer: Vec<u8>,
    pub infos: Vec<FaceInfo>,
}

/// Append one 32-bit word, little-endian.
fn push_u32_le(buffer: &mut Vec<u8>, w: u32)
    ensures
        final(buffer)@ == old(buffer)@ + le_bytes(w),
{
    buffer.push((w & 0xff) as u8);
    buffer.push(((w >> 8) & 0xff) as u8);
    buffer.push(((w >> 16) & 0xff) as u8);
    buffer.push(((w >> 24) & 0xff) as u8);
    proof {
        assert(buffer@ =~= old(buffer)@ + le_bytes(w));
    }
}

/// Append one three-component vector entry: three scalars, four zeros.
fn push_vec3(buffer: &mut Vec<u8>, a: u32, b: u32, c: u32)
    ensures
        final(buffer)@ == old(buffer)@ + vec3_bytes(a, b, c),
{
    push_u32_le(buffer, a);
    push_u32_le(buffer, b);
    push_u32_le(buffer, c);
    buffer.push(0);
    buffer.push(0);
    buffer.push(0);
    buffer.push(0);
    proof {
        assert(zero_bytes(4) =~= seq![0u8, 0u8, 0u8, 0u8]);
        assert(buffer@ =~= old(buffer)@ + vec3_bytes(a, b, c));
    }
}

/// The bit pattern of a grid coordinate as a 32-bit float.
fn coord_bits(n: u8) -> (r: u32)
    requires
        n < 16,
    ensures
        r == coord_bits_spec(n as int),
{
    match n {
        0 => 0,
        1 => 0x3f80_0000,
        2 => 0x4000_0000,
        3 => 0x4040_0000,
        4 => 0x4080_0000,
        5 => 0x40a0_0000,
        6 => 0x40c0_0000,
        7 => 0x40e0_0000,
        8 => 0x4100_0000,
        9 => 0x4110_0000,
        10 => 0x4120_0000,
        11 => 0x4130_0000,
        12 => 0x4140_0000,
        13 => 0x4150_0000,
        14 => 0x4160_0000,
        _ => 0x4170_0000,
    }
}

/// The bit patterns of a direction's unit normal.
fn normal_bits(d: Direction) -> (r: (u32, u32, u32))
    ensures
        r == normal_bits_spec(d),
{
    match d {
        Direction::Front => (ONE_BITS, 0u32, 0u32),
        Direction::Back => (NEG_ONE_BITS, 0u32, 0u32),
        Direction::Top => (0u32, ONE_BITS, 0u32),
        Direction::Bottom => (0u32, NEG_ONE_BITS, 0u32),
        Direction::Right => (0u32, 0u32, ONE_BITS),
        Direction::Left => (0u32, 0u32, NEG_ONE_BITS),
    }
}

/// The bit patterns of a block's color.
fn color_bits(b: Block) -> (r: (u32, u32, u32))
    ensures
        r == color_bits_spec(b),
{
    match b {
        Block::Air => (0u32, 0u32, 0u32),
        Block::Stone => (STONE_COLOR_BITS, STONE_COLOR_BITS, STONE_COLOR_BITS),
    }
}

/// Append one vertex of a direction's quad template.
fn push_template_vertex(buffer: &mut Vec<u8>, d: Direction, i: usize)
    requires
        i < 6,
    ensures
        final(buffer)@ == old(buffer)@ + vec3_bytes(
            template_vertex(d, i as int).0,
            template_vertex(d, i as int).1,
            template_vertex(d, i as int).2,
        ),
{
    let p = HALF_BITS;
    let m = NEG_HALF_BITS;
    let v: (u32, u32, u32) = match d {
        Direction::Back => if i == 0 {
            (m, m, m)
        } else if i == 1 {
            (m, p, m)
        } else if i == 2 {
            (m, m, p)
        } else if i == 3 {
            (m, m, p)
        } else if i == 4 {
            (m, p, m)
        } else {
            (m, p, p)
        },
        Direction::Front => if i == 0 {
            (p, p, m)
        } else if i == 1 {
            (p, m, m)
        } else if i == 2 {
            (p, m, p)
        } else if i == 3 {
            (p, p, m)
        } else if i == 4 {
            (p, m, p)
        } else {
            (p, p, p)
        },
        Direction::Top => if i == 0 {
            (m, p, p)
        } else if i == 1 {
            (m, p, m)
        } else if i == 2 {
            (p, p, m)
        } else if i == 3 {
            (m, p, p)
        } else if i == 4 {
            (p, p, m)
        } else {
            (p, p, p)
        },
        Direction::Bottom => if i == 0 {
            (m, m, m)
        } else if i == 1 {
            (m, m, p)
        } else if i == 2 {
            (p, m, m)
        } else if i == 3 {
            (p, m, m)
        } else if i == 4 {
            (m, m, p)
        } else {
            (p, m, p)
        },
        Direction::Left => if i == 0 {
            (m, p, m)
        } else if i == 1 {
            (m, m, m)
        } else if i == 2 {
            (p, m, m)
        } else if i == 3 {
            (m, p, m)
        } else if i == 4 {
            (p, m, m)
        } else {
            (p, p, m)
        },
        Direction::Right => if i == 0 {
            (m, m, p)
        } else if i == 1 {
            (m, p, p)
        } else if i == 2 {
            (p, m, p)
        } else if i == 3 {
            (p, m, p)
        } else if i == 4 {
            (m, p, p)
        } else {
            (p, p, p)
        },
    };
    push_vec3(buffer, v.0, v.1, v.2);
}

/// Append a direction's whole quad template.
fn push_template(buffer: &mut Vec<u8>, d: Direction)
    ensures
        final(buffer)@ == old(buffer)@ + template_bytes(d),
{
    let mut i: usize = 0;
    while i < 6
        invariant
            i <= 6,
            buffer@ == old(buffer)@ + template_bytes_upto(d, i as int),
        decreases 6 - i,
    {
        push_template_vertex(buffer, d, i);
        i = i + 1;
    }
}

/// Append one face record: position, normal, color.
fn push_face(buffer: &mut Vec<u8>, rec: FaceRecord, d: Direction)
    requires
        rec.0.x < 16,
        rec.0.y < 16,
        rec.0.z < 16,
    ensures
        final(buffer)@ == old(buffer)@ + face_bytes(rec, d),
{
    let pos = rec.0;
    push_vec3(buffer, coord_bits(pos.x), coord_bits(pos.y), coord_bits(pos.z));
    let n = normal_bits(d);
    push_vec3(buffer, n.0, n.1, n.2);
    let c = color_bits(rec.1);
    push_vec3(buffer, c.0, c.1, c.2);
    proof {
        assert(buffer@ =~= old(buffer)@ + face_bytes(rec, d));
    }
}

/// Pad the buffer with zeros up to the next multiple of the alignment.
fn pad_to_alignment(buffer: &mut Vec<u8>)
    ensures
        final(buffer)@ == old(buffer)@ + zero_bytes(
            align_up(old(buffer)@.len() as int) - old(buffer)@.len(),
        ),
        final(buffer)@.len() == align_up(old(buffer)@.len() as int),
{
    proof {
        lemma_align_up(old(buffer)@.len() as int);
    }
    while buffer.len() % 256 != 0
        invariant
            old(buffer)@.len() <= buffer@.len() <= align_up(old(buffer)@.len() as int),
            buffer@ == old(buffer)@ + zero_bytes(buffer@.len() - old(buffer)@.len()),
            align_up(old(buffer)@.len() as int) < old(buffer)@.len() + 256,
            align_up(old(buffer)@.len() as int) % 256 == 0,
        decreases align_up(old(buffer)@.len() as int) - buffer@.len(),
    {
        proof {
            if buffer@.len() == align_up(old(buffer)@.len() as int) {
                assert(buffer@.len() % 256 == 0);
                assert(false);
            }
            assert(zero_bytes(buffer@.len() + 1 - old(buffer)@.len()) =~= zero_bytes(
                buffer@.len() - old(buffer)@.len(),
            ) + seq![0u8]);
        }
        buffer.push(0);
    }
    proof {
        lemma_align_up_least(old(buffer)@.len() as int, buffer@.len() as int);
    }
}

/// Append one direction's block and its padding, and record its offset
/// and count; reports failure when the offset or the count does not fit
/// 32 bits.
fn push_direction(
    buffer: &mut Vec<u8>,
    infos: &mut Vec<FaceInfo>,
    list: &Vec<FaceRecord>,
    d: Direction,
) -> (ok: bool)
    requires
        records_in_grid(list@),
    ensures
        ok <==> (old(buffer)@.len() <= 0xffff_ffff && list@.len() <= 0xffff_ffff),
        ok ==> final(buffer)@ == old(buffer)@ + direction_block_bytes(d, list@) + zero_bytes(
            align_up(old(buffer)@.len() + 96 + 48 * list@.len() as int) - (old(buffer)@.len() + 96
                + 48 * list@.len()),
        ),
        ok ==> final(buffer)@.len() == align_up(old(buffer)@.len() + 96 + 48 * list@.len() as int),
        ok ==> final(infos)@ == old(infos)@ + seq![
            FaceInfo {
                start_offset: old(buffer)@.len() as u32,
                count: list@.len() as u32,
            },
        ],
        !ok ==> final(buffer)@ == old(buffer)@ && final(infos)@ == old(infos)@,
{
    if buffer.len() > 0xffff_ffff_usize || list.len() > 0xffff_ffff_usize {
        return false;
    }
    let start_offset: u32 = buffer.len() as u32;
    let count: u32 = list.len() as u32;
    push_template(buffer, d);
    let ghost after_template = buffer@;
    let mut i: usize = 0;
    while i < list.len()
        invariant
            i <= list@.len(),
            buffer@ == after_template + face_list_bytes(list@, d, i as int),
            after_template == old(buffer)@ + template_bytes(d),
            records_in_grid(list@),
        decreases list@.len() - i,
    {
        push_face(buffer, list[i], d);
        i = i + 1;
    }
    proof {
        lemma_template_bytes_len(d, 6);
        lemma_face_list_bytes_len(list@, d, list@.len() as int);
        assert(buffer@ =~= old(buffer)@ + direction_block_bytes(d, list@));
    }
    pad_to_alignment(buffer);
    infos.push(FaceInfo { start_offset, count });
    proof {
        assert(infos@ =~= old(infos)@ + seq![FaceInfo { start_offset, count }]);
    }
    true
}

/// Whether every direction's block can be recorded: each start offset and
/// each face count fits 32 bits.
pub open spec fn pack_fits(faces: Faces) -> bool {
    forall|k: int|
        0 <= k < 6 ==> pack_offset(faces, k) <= 0xffff_ffff && (#[trigger] faces.list(
            dir_at(k),
        )).len() <= 0xffff_ffff
}

/// Serialize the six face lists into one aligned buffer. On success the
/// buffer is exactly the packed layout and the six records carry, in
/// direction order, each block's start offset and face count; it fails
/// with `Overflow` exactly when some offset or count does not fit 32 bits.
pub fn pack_faces(faces: &Faces) -> (r: Result<PackedFaces, PackError>)
    requires
        records_in_grid(faces.front@),
        records_in_grid(faces.back@),
        records_in_grid(faces.top@),
        records_in_grid(faces.bottom@),
        records_in_grid(faces.right@),
        records_in_grid(faces.left@),
    ensures
        r is Ok <==> pack_fits(*faces),
        r is Err ==> r == Err::<PackedFaces, PackError>(PackError::Overflow),
        r is Ok ==> r->Ok_0.buffer@ == packed_bytes(*faces, 6),
        r is Ok ==> r->Ok_0.infos@.len() == 6,
        r is Ok ==> forall|k: int|
            0 <= k < 6 ==> (#[trigger] r->Ok_0.infos@[k]) == (FaceInfo {
                start_offset: pack_offset(*faces, k) as u32,
                count: faces.list(dir_at(k)).len() as u32,
            }),
{
    let mut buffer: Vec<u8> = Vec::new();
    let mut infos: Vec<FaceInfo> = Vec::new();
    proof {
        assert(buffer@ =~= packed_bytes(*faces, 0));
        lemma_packed_bytes_len(*faces, 0);
    }
    let ok0 = push_direction(&mut buffer, &mut infos, &faces.front, Direction::Front);
    if !ok0 {
        proof {
            assert(!pack_fits(*faces)) by {
                if pack_fits(*faces) {
                    assert(faces.list(dir_at(0)).len() <= 0xffff_ffff);
                }
            }
        }
        return Err(PackError::Overflow);
    }
    proof {
        assert(buffer@ =~= packed_bytes(*faces, 1));
        lemma_packed_bytes_len(*faces, 1);
    }
    let ghost infos1 = infos@;
    let ok1 = push_direction(&mut buffer, &mut infos, &faces.back, Direction::Back);
    if !ok1 {
        proof {
            assert(!pack_fits(*faces)) by {
                if pack_fits(*faces) {
                    assert(faces.list(dir_at(1)).len() <= 0xffff_ffff);
                    assert(pack_offset(*faces, 1) <= 0xffff_ffff);
                }
            }
        }
        return Err(PackError::Overflow);
    }
    proof {
        assert(buffer@ =~= packed_bytes(*faces, 2));
        lemma_packed_bytes_len(*faces, 2);
    }
    let ghost infos2 = infos@;
    let ok2 = push_direction(&mut buffer, &mut infos, &faces.top, Direction::Top);
    if !ok2 {
        proof {
            assert(!pack_fits(*faces)) by {
                if pack_fits(*faces) {
                    assert(faces.list(dir_at(2)).len() <= 0xffff_ffff);
                    assert(pack_offset(*faces, 2) <= 0xffff_ffff);
                }
            }
        }
        return Err(PackError::Overflow);
    }
    proof {
        assert(buffer@ =~= packed_bytes(*faces, 3));
        lemma_packed_bytes_len(*faces, 3);
    }
    let ghost infos3 = infos@;
    let ok3 = push_direction(&mut buffer, &mut infos, &faces.bottom, Direction::Bottom);
    if !ok3 {
        proof {
            assert(!pack_fits(*faces)) by {
                if pack_fits(*faces) {
                    assert(faces.list(dir_at(3)).len() <= 0xffff_ffff);
                    assert(pack_offset(*faces, 3) <= 0xffff_ffff);
                }
            }
        }
        return Err(PackError::Overflow);
    }
    proof {
        assert(buffer@ =~= packed_bytes(*faces, 4));
        lemma_packed_bytes_len(*faces, 4);
    }
    let ghost infos4 = infos@;
    let ok4 = push_direction(&mut buffer, &mut infos, &faces.right, Direction::Right);
    if !ok4 {
        proof {
            assert(!pack_fits(*faces)) by {
                if pack_fits(*faces) {
                    assert(faces.list(dir_at(4)).len() <= 0xffff_ffff);
                    assert(pack_offset(*faces, 4) <= 0xffff_ffff);
                }
            }
        }
        return Err(PackError::Overflow);
    }
    proof {
        assert(buffer@ =~= packed_bytes(*faces, 5));
        lemma_packed_bytes_len(*faces, 5);
    }
    let ghost infos5 = infos@;
    let ok5 = push_direction(&mut buffer, &mut infos, &faces.left, Direction::Left);
    if !ok5 {
        proof {
            assert(!pack_fits(*faces)) by {
                if pack_fits(*faces) {
                    assert(faces.list(dir_at(5)).len() <= 0xffff_ffff);
                    assert(pack_offset(*faces, 5) <= 0xffff_ffff);
                }
            }
        }
        return Err(PackError::Overflow);
    }
    proof {
        assert(buffer@ =~= packed_bytes(*faces, 6));
        assert(pack_fits(*faces)) by {
            assert forall|k: int| 0 <= k < 6 implies pack_offset(*faces, k) <= 0xffff_ffff && (
            #[trigger] faces.list(dir_at(k))).len() <= 0xffff_ffff by {
                if k == 0 {
                    assert(faces.list(dir_at(0)) == faces.front@);
                } else if k == 1 {
                    assert(faces.list(dir_at(1)) == faces.back@);
                } else if k == 2 {
                    assert(faces.list(dir_at(2)) == faces.top@);
                } else if k == 3 {
                    assert(faces.list(dir_at(3)) == faces.bottom@);
                } else if k == 4 {
                    assert(faces.list(dir_at(4)) == faces.right@);
                } else {
                    assert(faces.list(dir_at(5)) == faces.left@);
                }
            }
        }
        assert(infos@[0] == FaceInfo {
            start_offset: pack_offset(*faces, 0) as u32,
            count: faces.list(dir_at(0)).len() as u32,
        });
        assert(infos@[1] == FaceInfo {
            start_offset: pack_offset(*faces, 1) as u32,
            count: faces.list(dir_at(1)).len() as u32,
        });
        assert(infos@[2] == FaceInfo {
            start_offset: pack_offset(*faces, 2) as u32,
            count: faces.list(dir_at(2)).len() as u32,
        });
        assert(infos@[3] == FaceInfo {
            start_offset: pack_offset(*faces, 3) as u32,
            count: faces.list(dir_at(3)).len() as u32,
        });
        assert(infos@[4] == FaceInfo {
            start_offset: pack_offset(*faces, 4) as u32,
            count: faces.list(dir_at(4)).len() as u32,
        });
        assert(infos@[5] == FaceInfo {
            start_offset: pack_offset(*faces, 5) as u32,
            count: faces.list(dir_at(5)).len() as u32,
        });
    }
    Ok(PackedFaces { buffer, infos })
}

/// Mesh a chunk and pack the result in one step. A full grid still packs
/// into well under a megabyte, so the packing never overflows; every
/// direction's recorded start offset is a multiple of the alignment and
/// the offsets strictly increase in direction order.
pub fn pack_chunk(chunk: &Chunk) -> (r: Result<PackedFaces, PackError>)
    requires
        chunk.wf(),
    ensures
        r is Ok,
        r->Ok_0.infos@.len() == 6,
        forall|k: int|
            0 <= k < 6 ==> (#[trigger] r->Ok_0.infos@[k]).count == crate::chunk::face_seq(
                chunk@,
                4096,
                dir_at(k),
            ).len(),
        forall|k: int| 0 <= k < 6 ==> (#[trigger] r->Ok_0.infos@[k]).start_offset % 256 == 0,
        forall|k: int|
            0 <= k < 5 ==> (#[trigger] r->Ok_0.infos@[k]).start_offset
                < r->Ok_0.infos@[k + 1].start_offset,
{
    let faces = chunk.generate_faces();
    proof {
        lemma_face_seq_in_grid(chunk@, 4096, Direction::Front);
        lemma_face_seq_in_grid(chunk@, 4096, Direction::Back);
        lemma_face_seq_in_grid(chunk@, 4096, Direction::Top);
        lemma_face_seq_in_grid(chunk@, 4096, Direction::Bottom);
        lemma_face_seq_in_grid(chunk@, 4096, Direction::Right);
        lemma_face_seq_in_grid(chunk@, 4096, Direction::Left);
        assert(faces.list(Direction::Front) == crate::chunk::face_seq(chunk@, 4096, Direction::Front));
        assert(faces.front@ == faces.list(Direction::Front));
        assert(faces.list(Direction::Back) == crate::chunk::face_seq(chunk@, 4096, Direction::Back));
        assert(faces.back@ == faces.list(Direction::Back));
        assert(faces.list(Direction::Top) == crate::chunk::face_seq(chunk@, 4096, Direction::Top));
        assert(faces.top@ == faces.list(Direction::Top));
        assert(faces.list(Direction::Bottom) == crate::chunk::face_seq(chunk@, 4096, Direction::Bottom));
        assert(faces.bottom@ == faces.list(Direction::Bottom));
        assert(faces.list(Direction::Right) == crate::chunk::face_seq(chunk@, 4096, Direction::Right));
        assert(faces.right@ == faces.list(Direction::Right));
        assert(faces.list(Direction::Left) == crate::chunk::face_seq(chunk@, 4096, Direction::Left));
        assert(faces.left@ == faces.list(Direction::Left));
        assert forall|k: int| 0 <= k < 6 implies (#[trigger] faces.list(dir_at(k))).len()
            <= 4096 by {
            crate::chunk::lemma_face_seq_len_bound(chunk@, 4096, dir_at(k));
        }
        assert forall|k: int| 0 <= k < 6 implies 0 <= #[trigger] pack_offset(faces, k) <= 6
            * 196960 by {
            lemma_pack_offset_growth(faces, k);
        }
        assert(pack_fits(faces));
    }
    let r = pack_faces(&faces);
    proof {
        let packed = r->Ok_0;
        assert forall|k: int| 0 <= k < 6 implies (#[trigger] packed.infos@[k]).start_offset % 256
            == 0 by {
            lemma_pack_offsets_aligned(faces, k);
            lemma_pack_offset_growth(faces, k);
        }
        assert forall|k: int| 0 <= k < 5 implies (#[trigger] packed.infos@[k]).start_offset
            < packed.infos@[k + 1].start_offset by {
            lemma_pack_offsets_aligned(faces, k);
            lemma_pack_offset_growth(faces, k);
            lemma_pack_offset_growth(faces, k + 1);
            lemma_align_up(pack_offset(faces, k) + 96 + 48 * faces.list(dir_at(k)).len());
        }
    }
    r
}

/// When every face list fits the grid's cell count, the start offsets
/// stay within six maximal aligned blocks.
proof fn lemma_pack_offset_growth(faces: Faces, k: int)
    requires
        0 <= k <= 6,
        forall|j: int| 0 <= j < 6 ==> (#[trigger] faces.list(dir_at(j))).len() <= 4096,
    ensures
        0 <= pack_offset(faces, k) <= k * 196960,
    decreases k,
{
    if k > 0 {
        lemma_pack_offset_growth(faces, k - 1);
        let before = pack_offset(faces, k - 1) + 96 + 48 * faces.list(dir_at(k - 1)).len();
        lemma_align_up(before);
        assert(48 * faces.list(dir_at(k - 1)).len() <= 48 * 4096);
    }
}


} // verus!
