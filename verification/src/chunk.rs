//! Fixed 16x16x16 voxel grid with bounds-checked reads and culled-face
//! meshing: one pass over the grid emits, for each of the six principal
//! directions, the ordered list of visible cube faces.

use vstd::arithmetic::div_mod::{
    lemma_div_denominator, lemma_div_pos_is_pos, lemma_fundamental_div_mod,
    lemma_fundamental_div_mod_converse_div, lemma_fundamental_div_mod_converse_mod,
    lemma_mod_division_less_than_divisor,
};
use vstd::prelude::*;

verus! {

/// A voxel. `Air` is transparent; any other variant is solid.
#[derive(Clone, Copy, PartialEq, Eq, Structural, Debug)]
pub enum Block {
    Air,
    Stone,
}

/// The six principal directions, in the fixed order the mesher and the
/// packer both use: +x, -x, +y, -y, +z, -z.
#[derive(Clone, Copy, PartialEq, Eq, Structural, Debug)]
pub enum Direction {
    Front,
    Back,
    Top,
    Bottom,
    Right,
    Left,
}

/// A cell coordinate inside the grid.
#[derive(Clone, Copy, PartialEq, Eq, Structural, Debug)]
pub struct GridPos {
    pub x: u8,
    pub y: u8,
    pub z: u8,
}

/// One visible face: the cell it belongs to and the block stored there.
pub type FaceRecord = (GridPos, Block);

/// The six per-direction face lists produced by one meshing pass.
pub struct Faces {
    pub front: Vec<FaceRecord>,
    pub back: Vec<FaceRecord>,
    pub left: Vec<FaceRecord>,
    pub right: Vec<FaceRecord>,
    pub top: Vec<FaceRecord>,
    pub bottom: Vec<FaceRecord>,
}

/// Offset one step along a direction's axis: the x displacement.
pub open spec fn dir_dx(d: Direction) -> int {
    match d {
        Direction::Front => 1,
        Direction::Back => -1,
        _ => 0,
    }
}

/// Offset one step along a direction's axis: the y displacement.
pub open spec fn dir_dy(d: Direction) -> int {
    match d {
        Direction::Top => 1,
        Direction::Bottom => -1,
        _ => 0,
    }
}

/// Offset one step along a direction's axis: the z displacement.
pub open spec fn dir_dz(d: Direction) -> int {
    match d {
        Direction::Right => 1,
        Direction::Left => -1,
        _ => 0,
    }
}

/// Row-major index of a cell: outer x, then y, then z.
pub open spec fn cell_index(x: int, y: int, z: int) -> int {
    x * 256 + y * 16 + z
}

/// Whether the cell (x, y, z) is inside the grid and holds a solid block.
/// Everything outside the grid counts as not solid, so the outer shell of
/// the grid always renders.
pub open spec fn solid_at(g: Seq<Block>, x: int, y: int, z: int) -> bool {
    0 <= x < 16 && 0 <= y < 16 && 0 <= z < 16 && g[cell_index(x, y, z)] != Block::Air
}

/// A face of cell (x, y, z) pointing toward `d` is visible exactly when the
/// cell is solid and its neighbor one step along `d` is not.
pub open spec fn face_visible(g: Seq<Block>, x: int, y: int, z: int, d: Direction) -> bool {
    solid_at(g, x, y, z) && !solid_at(g, x + dir_dx(d), y + dir_dy(d), z + dir_dz(d))
}

/// The face record emitted for cell index `i` (0 <= i < 4096).
pub open spec fn face_record_at(g: Seq<Block>, i: int) -> FaceRecord {
    (GridPos { x: (i / 256) as u8, y: ((i / 16) % 16) as u8, z: (i % 16) as u8 }, g[i])
}

/// The direction-`d` face list after scanning the first `n` cells in
/// row-major order: the record of every scanned cell whose `d` face is
/// visible, in scan order.
pub open spec fn face_seq(g: Seq<Block>, n: int, d: Direction) -> Seq<FaceRecord>
    decreases n,
{
    if n <= 0 {
        Seq::empty()
    } else {
        let i = n - 1;
        face_seq(g, i, d) + if face_visible(g, i / 256, (i / 16) % 16, i % 16, d) {
            seq![face_record_at(g, i)]
        } else {
            Seq::empty()
        }
    }
}

impl Faces {
    /// The list this value holds for direction `d`.
    pub open spec fn list(&self, d: Direction) -> Seq<FaceRecord> {
        match d {
            Direction::Front => self.front@,
            Direction::Back => self.back@,
            Direction::Top => self.top@,
            Direction::Bottom => self.bottom@,
            Direction::Right => self.right@,
            Direction::Left => self.left@,
        }
    }
}

/// Row-major indexing is a bijection: the coordinates of a cell can be
/// read back out of its index by division and remainder.
pub proof fn lemma_coords_of_index(x: int, y: int, z: int)
    requires
        0 <= x < 16,
        0 <= y < 16,
        0 <= z < 16,
    ensures
        0 <= cell_index(x, y, z) < 4096,
        cell_index(x, y, z) / 256 == x,
        (cell_index(x, y, z) / 16) % 16 == y,
        cell_index(x, y, z) % 16 == z,
{
    let i = cell_index(x, y, z);
    assert(i == (x * 16 + y) * 16 + z);
    lemma_fundamental_div_mod_converse_div(i, 16, x * 16 + y, z);
    lemma_fundamental_div_mod_converse_mod(i, 16, x * 16 + y, z);
    lemma_fundamental_div_mod_converse_mod(x * 16 + y, 16, x, y);
    lemma_fundamental_div_mod_converse_div(i, 256, x, y * 16 + z);
}

/// The inverse reading: the coordinates encoded in a cell index lie in
/// range and map back to that index.
pub proof fn lemma_index_to_coords(i: int)
    requires
        0 <= i < 4096,
    ensures
        0 <= i / 256 < 16,
        0 <= (i / 16) % 16 < 16,
        0 <= i % 16 < 16,
        cell_index(i / 256, (i / 16) % 16, i % 16) == i,
{
    lemma_fundamental_div_mod(i, 16);
    lemma_mod_division_less_than_divisor(i, 16);
    lemma_div_pos_is_pos(i, 16);
    lemma_fundamental_div_mod(i / 16, 16);
    lemma_mod_division_less_than_divisor(i / 16, 16);
    lemma_div_denominator(i, 16, 16);
    lemma_div_pos_is_pos(i, 256);
    assert(i == 256 * (i / 256) + 16 * ((i / 16) % 16) + i % 16);
    assert(i / 256 < 16) by {
        if i / 256 >= 16 {
            assert(256 * (i / 256) >= 256 * 16);
        }
    }
}

/// A face list never holds more records than the cells scanned for it.
pub proof fn lemma_face_seq_len_bound(g: Seq<Block>, n: int, d: Direction)
    requires
        0 <= n,
    ensures
        face_seq(g, n, d).len() <= n,
    decreases n,
{
    if n > 0 {
        lemma_face_seq_len_bound(g, n - 1, d);
    }
}

/// One record per grid position: records taken at distinct scan indices
/// carry distinct positions, so a position identifies its cell.
pub proof fn lemma_record_position_identifies_cell(g: Seq<Block>, i: int, x: int, y: int, z: int)
    requires
        0 <= i < 4096,
        0 <= x < 16,
        0 <= y < 16,
        0 <= z < 16,
        face_record_at(g, i).0 == (GridPos { x: x as u8, y: y as u8, z: z as u8 }),
    ensures
        i == cell_index(x, y, z),
{
    lemma_index_to_coords(i);
}

/// Dense, exclusively owned storage for the 16x16x16 grid, as one flat
/// buffer in row-major order (outer x, then y, then z).
pub struct Chunk {
    blocks: Vec<Block>,
}

impl View for Chunk {
    type V = Seq<Block>;

    closed spec fn view(&self) -> Seq<Block> {
        self.blocks@
    }
}

impl Chunk {
    /// A chunk always holds exactly 4096 blocks.
    pub closed spec fn wf(&self) -> bool {
        self.blocks@.len() == 4096
    }

    /// A new chunk, entirely Air.
    pub fn new() -> (c: Chunk)
        ensures
            c.wf(),
            c@.len() == 4096,
            forall|i: int| 0 <= i < 4096 ==> c@[i] == Block::Air,
    {
        let mut blocks: Vec<Block> = Vec::new();
        let mut i: usize = 0;
        while i < 4096
            invariant
                i <= 4096,
                blocks@.len() == i,
                forall|j: int| 0 <= j < i ==> blocks@[j] == Block::Air,
            decreases 4096 - i,
        {
            blocks.push(Block::Air);
            i = i + 1;
        }
        Chunk { blocks }
    }

    /// Bounds-checked read: `None` when any coordinate leaves [0, 16),
    /// otherwise the stored block. Never panics.
    pub fn get_block(&self, x: u8, y: u8, z: u8) -> (r: Option<Block>)
        requires
            self.wf(),
        ensures
            x < 16 && y < 16 && z < 16 ==> r == Some(self@[cell_index(x as int, y as int, z as int)]),
            !(x < 16 && y < 16 && z < 16) ==> r is None,
    {
        if x < 16 && y < 16 && z < 16 {
            let i: usize = (x as usize) * 256 + (y as usize) * 16 + (z as usize);
            Some(self.blocks[i])
        } else {
            None
        }
    }

    /// Bounds-checked write: the owner's only way to mutate the grid.
    pub fn set_block(&mut self, x: u8, y: u8, z: u8, block: Block)
        requires
            old(self).wf(),
            x < 16,
            y < 16,
            z < 16,
        ensures
            final(self).wf(),
            final(self)@ == old(self)@.update(cell_index(x as int, y as int, z as int), block),
    {
        let i: usize = (x as usize) * 256 + (y as usize) * 16 + (z as usize);
        self.blocks.set(i, block);
    }

    /// Whether the face of cell (x, y, z) toward `d` is unobstructed: the
    /// neighbor one step along `d` is outside the grid or holds Air.
    fn face_clear(&self, x: u8, y: u8, z: u8, d: Direction) -> (r: bool)
        requires
            self.wf(),
            x < 16,
            y < 16,
            z < 16,
        ensures
            r == !solid_at(self@, x + dir_dx(d), y + dir_dy(d), z + dir_dz(d)),
    {
        let neighbor: Option<Block> = match d {
            Direction::Front => if x == 15 { None } else { self.get_block(x + 1, y, z) },
            Direction::Back => if x == 0 { None } else { self.get_block(x - 1, y, z) },
            Direction::Top => if y == 15 { None } else { self.get_block(x, y + 1, z) },
            Direction::Bottom => if y == 0 { None } else { self.get_block(x, y - 1, z) },
            Direction::Right => if z == 15 { None } else { self.get_block(x, y, z + 1) },
            Direction::Left => if z == 0 { None } else { self.get_block(x, y, z - 1) },
        };
        match neighbor {
            None => true,
            Some(b) => b == Block::Air,
        }
    }

    /// One culled-face meshing pass: scan every cell in row-major order
    /// (outer x, then y, then z) and emit, for each direction, the record
    /// of every solid cell whose neighbor that way is Air or out of range.
    pub fn generate_faces(&self) -> (faces: Faces)
        requires
            self.wf(),
        ensures
            forall|d: Direction| #[trigger] faces.list(d) == face_seq(self@, 4096, d),
    {
        let ghost g = self@;
        let mut front: Vec<FaceRecord> = Vec::new();
        let mut back: Vec<FaceRecord> = Vec::new();
        let mut top: Vec<FaceRecord> = Vec::new();
        let mut bottom: Vec<FaceRecord> = Vec::new();
        let mut right: Vec<FaceRecord> = Vec::new();
        let mut left: Vec<FaceRecord> = Vec::new();

        let mut i: usize = 0;
        let mut x: u8 = 0;
        let mut y: u8 = 0;
        let mut z: u8 = 0;
        while i < 4096
            invariant
                self.wf(),
                g == self@,
                i <= 4096,
                x <= 16,
                y < 16,
                z < 16,
                i == cell_index(x as int, y as int, z as int),
                i == 4096 <==> x == 16,
                front@ == face_seq(g, i as int, Direction::Front),
                back@ == face_seq(g, i as int, Direction::Back),
                top@ == face_seq(g, i as int, Direction::Top),
                bottom@ == face_seq(g, i as int, Direction::Bottom),
                right@ == face_seq(g, i as int, Direction::Right),
                left@ == face_seq(g, i as int, Direction::Left),
            decreases 4096 - i,
        {
            proof {
                lemma_coords_of_index(x as int, y as int, z as int);
            }
            let block = self.blocks[i];
            let record: FaceRecord = (GridPos { x, y, z }, block);
            assert(record == face_record_at(g, i as int));
            if !(block == Block::Air) {
                if self.face_clear(x, y, z, Direction::Front) {
                    front.push(record);
                }
                if self.face_clear(x, y, z, Direction::Back) {
                    back.push(record);
                }
                if self.face_clear(x, y, z, Direction::Top) {
                    top.push(record);
                }
                if self.face_clear(x, y, z, Direction::Bottom) {
                    bottom.push(record);
                }
                if self.face_clear(x, y, z, Direction::Right) {
                    right.push(record);
                }
                if self.face_clear(x, y, z, Direction::Left) {
                    left.push(record);
                }
            } else {
                assert(!solid_at(g, x as int, y as int, z as int));
            }
            i = i + 1;
            z = z + 1;
            if z == 16 {
                z = 0;
                y = y + 1;
                if y == 16 {
                    y = 0;
                    x = x + 1;
                }
            }
        }
        Faces { front, back, left, right, top, bottom }
    }
}

/// Helper: a cell whose direction-`d` face is not visible never appears in
/// the direction-`d` list, whatever prefix of the scan is taken.
proof fn lemma_face_seq_skips_cell(g: Seq<Block>, n: int, d: Direction, x: int, y: int, z: int)
    requires
        0 <= n <= 4096,
        0 <= x < 16,
        0 <= y < 16,
        0 <= z < 16,
        !face_visible(g, x, y, z, d),
    ensures
        forall|k: int|
            0 <= k < face_seq(g, n, d).len() ==> (#[trigger] face_seq(g, n, d)[k]).0 != (GridPos {
                x: x as u8,
                y: y as u8,
                z: z as u8,
            }),
    decreases n,
{
    if n > 0 {
        let i = n - 1;
        lemma_face_seq_skips_cell(g, i, d, x, y, z);
        let s = face_seq(g, i, d);
        let pos = GridPos { x: x as u8, y: y as u8, z: z as u8 };
        assert forall|k: int| 0 <= k < face_seq(g, n, d).len() implies (#[trigger] face_seq(
            g,
            n,
            d,
        )[k]).0 != pos by {
            if k < s.len() {
                assert(face_seq(g, n, d)[k] == s[k]);
            } else {
                assert(face_visible(g, i / 256, (i / 16) % 16, i % 16, d));
                assert(face_seq(g, n, d)[k] == face_record_at(g, i));
                if face_record_at(g, i).0 == pos {
                    lemma_record_position_identifies_cell(g, i, x, y, z);
                    lemma_coords_of_index(x, y, z);
                    assert(face_visible(g, x, y, z, d));
                }
            }
        }
    }
}

/// A solid cell whose six neighbors are all solid contributes no face: no
/// direction's list holds a record at its position. (A cell strictly inside
/// a large enough solid region is such a cell.)
pub proof fn lemma_buried_cell_contributes_nothing(g: Seq<Block>, x: int, y: int, z: int)
    requires
        0 <= x < 16,
        0 <= y < 16,
        0 <= z < 16,
        solid_at(g, x + 1, y, z),
        solid_at(g, x - 1, y, z),
        solid_at(g, x, y + 1, z),
        solid_at(g, x, y - 1, z),
        solid_at(g, x, y, z + 1),
        solid_at(g, x, y, z - 1),
    ensures
        forall|d: Direction, k: int|
            0 <= k < face_seq(g, 4096, d).len() ==> (#[trigger] face_seq(g, 4096, d)[k]).0 != (
            GridPos { x: x as u8, y: y as u8, z: z as u8 }),
{
    assert forall|d: Direction, k: int|
        0 <= k < face_seq(g, 4096, d).len() implies (#[trigger] face_seq(g, 4096, d)[k]).0 != (
    GridPos { x: x as u8, y: y as u8, z: z as u8 }) by {
        assert(!face_visible(g, x, y, z, d)) by {
            match d {
                Direction::Front => assert(solid_at(g, x + 1, y, z)),
                Direction::Back => assert(solid_at(g, x - 1, y, z)),
                Direction::Top => assert(solid_at(g, x, y + 1, z)),
                Direction::Bottom => assert(solid_at(g, x, y - 1, z)),
                Direction::Right => assert(solid_at(g, x, y, z + 1)),
                Direction::Left => assert(solid_at(g, x, y, z - 1)),
            }
        }
        lemma_face_seq_skips_cell(g, 4096, d, x, y, z);
    }
}

/// Helper: when the only solid cell of the grid is (x, y, z), a scan prefix
/// yields the empty list until it passes that cell and exactly its record
/// afterwards.
proof fn lemma_face_seq_single_cell(g: Seq<Block>, n: int, d: Direction, x: int, y: int, z: int)
    requires
        g.len() == 4096,
        0 <= n <= 4096,
        0 <= x < 16,
        0 <= y < 16,
        0 <= z < 16,
        solid_at(g, x, y, z),
        forall|i: int| 0 <= i < 4096 && i != cell_index(x, y, z) ==> g[i] == Block::Air,
    ensures
        face_seq(g, n, d) == if n > cell_index(x, y, z) {
            seq![face_record_at(g, cell_index(x, y, z))]
        } else {
            Seq::<FaceRecord>::empty()
        },
    decreases n,
{
    lemma_coords_of_index(x, y, z);
    let c = cell_index(x, y, z);
    if n > 0 {
        let i = n - 1;
        lemma_face_seq_single_cell(g, i, d, x, y, z);
        lemma_index_to_coords(i);
        let xi = i / 256;
        let yi = (i / 16) % 16;
        let zi = i % 16;
        if i == c {
            assert(xi == x && yi == y && zi == z);
            let nx = x + dir_dx(d);
            let ny = y + dir_dy(d);
            let nz = z + dir_dz(d);
            assert(!solid_at(g, nx, ny, nz)) by {
                if 0 <= nx < 16 && 0 <= ny < 16 && 0 <= nz < 16 {
                    lemma_coords_of_index(nx, ny, nz);
                    assert(cell_index(nx, ny, nz) != c);
                }
            }
            assert(face_visible(g, xi, yi, zi, d));
            assert(face_seq(g, n, d) =~= seq![face_record_at(g, c)]);
        } else {
            assert(!face_visible(g, xi, yi, zi, d)) by {
                assert(cell_index(xi, yi, zi) == i);
                assert(g[i] == Block::Air);
            }
        }
    }
}

/// An isolated solid cell, surrounded by Air or by the grid boundary on all
/// six sides, contributes exactly six faces: each direction's list is
/// exactly its one record.
pub proof fn lemma_isolated_cell_six_faces(g: Seq<Block>, x: int, y: int, z: int)
    requires
        g.len() == 4096,
        0 <= x < 16,
        0 <= y < 16,
        0 <= z < 16,
        solid_at(g, x, y, z),
        forall|i: int| 0 <= i < 4096 && i != cell_index(x, y, z) ==> g[i] == Block::Air,
    ensures
        forall|d: Direction| #[trigger] face_seq(g, 4096, d) == seq![
            (
                GridPos { x: x as u8, y: y as u8, z: z as u8 },
                g[cell_index(x, y, z)],
            ),
        ],
{
    lemma_coords_of_index(x, y, z);
    assert forall|d: Direction| #[trigger] face_seq(g, 4096, d) == seq![
        (
            GridPos { x: x as u8, y: y as u8, z: z as u8 },
            g[cell_index(x, y, z)],
        ),
    ] by {
        lemma_face_seq_single_cell(g, 4096, d, x, y, z);
        assert(face_record_at(g, cell_index(x, y, z)) == (
            GridPos { x: x as u8, y: y as u8, z: z as u8 },
            g[cell_index(x, y, z)],
        ));
    }
}

} // verus!
