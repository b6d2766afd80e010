use vstd::prelude::*;

use crate::chunk::Chunk;

verus! {

/// One cell of the grid: empty, or solid with a baked brightness byte.
#[derive(Clone, Copy, Debug, PartialEq, Eq, Structural)]
pub enum Voxel {
    Air,
    Solid { shade: u8 },
}

impl Default for Voxel {
    fn default() -> (r: Self)
        ensures
            r == Voxel::Air,
    {
        Voxel::Air
    }
}

impl Voxel {
    /// Light that passes through the voxel: 1 for air, 0 for a solid voxel.
    pub open spec fn transparency(self) -> nat {
        match self {
            Voxel::Air => 1,
            Voxel::Solid { .. } => 0,
        }
    }

    /// Brightness as a byte, where 255 stands for full brightness (air counts as fully bright).
    pub open spec fn shade_byte(self) -> u8 {
        match self {
            Voxel::Air => 255,
            Voxel::Solid { shade } => shade,
        }
    }

    /// True when no geometry is present in this cell.
    pub fn is_empty(&self) -> (r: bool)
        ensures
            r == (*self is Air),
    {
        match *self {
            Voxel::Air => true,
            _ => false,
        }
    }

    /// How much light passes through this voxel, on a scale where 1 means all of it and 0 none.
    pub fn light_transparency(&self) -> (r: u8)
        ensures
            r as nat == self.transparency(),
    {
        match *self {
            Voxel::Air => 1,
            _ => 0,
        }
    }

    /// The voxel's brightness on a 0..=255 scale; divide by 255 for the normalized value.
    pub fn shade(&self) -> (r: u8)
        ensures
            r == self.shade_byte(),
    {
        match *self {
            Voxel::Solid { shade } => shade,
            _ => 255,
        }
    }
}

/// The six faces of a unit cube.
#[derive(Clone, Copy, Debug, PartialEq, Eq, Structural)]
pub enum VoxelFace {
    Left,
    Right,
    Front,
    Back,
    Top,
    Bottom,
}

/// The faces in the fixed order in which the mesher visits them.
pub open spec fn face_at(i: int) -> VoxelFace {
    if i == 0 {
        VoxelFace::Left
    } else if i == 1 {
        VoxelFace::Right
    } else if i == 2 {
        VoxelFace::Front
    } else if i == 3 {
        VoxelFace::Back
    } else if i == 4 {
        VoxelFace::Top
    } else {
        VoxelFace::Bottom
    }
}

impl VoxelFace {
    /// Position of the face in the visiting order.
    pub open spec fn ordinal(self) -> int {
        match self {
            VoxelFace::Left => 0,
            VoxelFace::Right => 1,
            VoxelFace::Front => 2,
            VoxelFace::Back => 3,
            VoxelFace::Top => 4,
            VoxelFace::Bottom => 5,
        }
    }

    /// The unit offset from a voxel to the neighbour across this face.
    pub open spec fn offset(self) -> (int, int, int) {
        match self {
            VoxelFace::Left => (-1, 0, 0),
            VoxelFace::Right => (1, 0, 0),
            VoxelFace::Front => (0, 0, -1),
            VoxelFace::Back => (0, 0, 1),
            VoxelFace::Top => (0, 1, 0),
            VoxelFace::Bottom => (0, -1, 0),
        }
    }

    /// All six faces, in visiting order.
    pub fn values() -> (r: [VoxelFace; 6])
        ensures
            forall|i: int| 0 <= i < 6 ==> #[trigger] r@[i] == face_at(i),
    {
        [
            VoxelFace::Left,
            VoxelFace::Right,
            VoxelFace::Front,
            VoxelFace::Back,
            VoxelFace::Top,
            VoxelFace::Bottom,
        ]
    }

    /// Position of the face in the visiting order.
    pub fn index(&self) -> (r: usize)
        ensures
            r as int == self.ordinal(),
    {
        match *self {
            VoxelFace::Left => 0,
            VoxelFace::Right => 1,
            VoxelFace::Front => 2,
            VoxelFace::Back => 3,
            VoxelFace::Top => 4,
            VoxelFace::Bottom => 5,
        }
    }

    /// The outward unit normal of the face.
    pub fn normal(&self) -> (r: (i64, i64, i64))
        ensures
            r.0 as int == self.offset().0,
            r.1 as int == self.offset().1,
            r.2 as int == self.offset().2,
    {
        match *self {
            VoxelFace::Left => (-1, 0, 0),
            VoxelFace::Right => (1, 0, 0),
            VoxelFace::Front => (0, 0, -1),
            VoxelFace::Back => (0, 0, 1),
            VoxelFace::Top => (0, 1, 0),
            VoxelFace::Bottom => (0, -1, 0),
        }
    }
}

/// Slot of the neighbour at offset `(x, y, z)`, each in `-1..=1`, within a neighbourhood.
pub open spec fn slot(x: int, y: int, z: int) -> int {
    (y + 1) * 9 + (x + 1) * 3 + (z + 1)
}

/// The x offset of a neighbourhood slot.
pub open spec fn slot_dx(i: int) -> int {
    (i / 3) % 3 - 1
}

/// The y offset of a neighbourhood slot.
pub open spec fn slot_dy(i: int) -> int {
    i / 9 - 1
}

/// The z offset of a neighbourhood slot.
pub open spec fn slot_dz(i: int) -> int {
    i % 3 - 1
}

pub open spec fn is_unit_offset(x: int) -> bool {
    -1 <= x <= 1
}

/// The slot of the voxel itself.
pub open spec fn center_slot() -> int {
    slot(0, 0, 0)
}

/// The slot of the neighbour across `face`.
pub open spec fn face_slot(face: VoxelFace) -> int {
    slot(face.offset().0, face.offset().1, face.offset().2)
}

/// Decoding a slot gives back the offsets that it was encoded from, and slots lie in `0..27`.
pub proof fn lemma_slot_offsets(x: int, y: int, z: int)
    requires
        is_unit_offset(x),
        is_unit_offset(y),
        is_unit_offset(z),
    ensures
        0 <= slot(x, y, z) < 27,
        slot_dx(slot(x, y, z)) == x,
        slot_dy(slot(x, y, z)) == y,
        slot_dz(slot(x, y, z)) == z,
{
}

/// Every slot in `0..27` is the slot of its decoded offsets.
pub proof fn lemma_slot_of_offsets(i: int)
    requires
        0 <= i < 27,
    ensures
        is_unit_offset(slot_dx(i)),
        is_unit_offset(slot_dy(i)),
        is_unit_offset(slot_dz(i)),
        slot(slot_dx(i), slot_dy(i), slot_dz(i)) == i,
{
}

/// The 27 voxels around `(x, y, z)` in `chunk`, by slot; cells outside the chunk read as air.
pub open spec fn neighborhood(chunk: Chunk, x: int, y: int, z: int) -> Seq<Voxel> {
    Seq::new(27, |i: int| chunk.voxel_at(x + slot_dx(i), y + slot_dy(i), z + slot_dz(i)))
}

/// A neighbour that lies outside the chunk is air.
pub proof fn lemma_neighbor_outside_is_air(chunk: Chunk, x: int, y: int, z: int, dx: int, dy: int, dz: int)
    requires
        is_unit_offset(dx),
        is_unit_offset(dy),
        is_unit_offset(dz),
        !chunk.in_bounds(x + dx, y + dy, z + dz),
    ensures
        neighborhood(chunk, x, y, z)[slot(dx, dy, dz)] == Voxel::Air,
{
    lemma_slot_offsets(dx, dy, dz);
    chunk.lemma_outside_is_air(x + dx, y + dy, z + dz);
}

/// The 27 voxels of the 3×3×3 block around one voxel, the voxel itself included.
pub struct VoxelAdjacency {
    pub adjacency: [Voxel; 27],
}

impl View for VoxelAdjacency {
    type V = Seq<Voxel>;

    open spec fn view(&self) -> Seq<Voxel> {
        self.adjacency@
    }
}

impl VoxelAdjacency {
    /// Wraps voxels laid out by `slot`.
    pub fn new(adjacency: [Voxel; 27]) -> (r: VoxelAdjacency)
        ensures
            r@ == adjacency@,
    {
        VoxelAdjacency { adjacency }
    }

    /// Gathers the neighbourhood of `(x, y, z)` in `chunk`, with air for cells outside it.
    pub fn build(chunk: &Chunk, x: isize, y: isize, z: isize) -> (r: VoxelAdjacency)
        requires
            chunk.wf(),
            isize::MIN < x < isize::MAX,
            isize::MIN < y < isize::MAX,
            isize::MIN < z < isize::MAX,
        ensures
            r@ == neighborhood(*chunk, x as int, y as int, z as int),
    {
        let mut adjacency = [Voxel::Air; 27];
        let mut i: usize = 0;
        while i < 27
            invariant
                chunk.wf(),
                isize::MIN < x < isize::MAX,
                isize::MIN < y < isize::MAX,
                isize::MIN < z < isize::MAX,
                i <= 27,
                forall|j: int|
                    0 <= j < i ==> #[trigger] adjacency@[j] == neighborhood(
                        *chunk,
                        x as int,
                        y as int,
                        z as int,
                    )[j],
            decreases 27 - i,
        {
            proof {
                lemma_slot_of_offsets(i as int);
            }
            let dx = ((i / 3) % 3) as isize - 1;
            let dy = (i / 9) as isize - 1;
            let dz = (i % 3) as isize - 1;
            let voxel = match chunk.get(x + dx, y + dy, z + dz) {
                Some(v) => *v,
                None => {
                    proof {
                        chunk.lemma_outside_is_air((x + dx) as int, (y + dy) as int, (z + dz) as int);
                    }
                    Voxel::Air
                },
            };
            adjacency[i] = voxel;
            i = i + 1;
        }
        let r = VoxelAdjacency { adjacency };
        assert(r@ =~= neighborhood(*chunk, x as int, y as int, z as int));
        r
    }

    /// The voxel itself.
    pub fn center(&self) -> (r: &Voxel)
        ensures
            *r == self@[center_slot()],
    {
        self.get(0, 0, 0)
    }

    /// The neighbour across `face`.
    pub fn face(&self, face: VoxelFace) -> (r: &Voxel)
        ensures
            *r == self@[face_slot(face)],
    {
        match face {
            VoxelFace::Left => self.get(-1, 0, 0),
            VoxelFace::Right => self.get(1, 0, 0),
            VoxelFace::Front => self.get(0, 0, -1),
            VoxelFace::Back => self.get(0, 0, 1),
            VoxelFace::Top => self.get(0, 1, 0),
            VoxelFace::Bottom => self.get(0, -1, 0),
        }
    }

    pub fn left(&self) -> (r: &Voxel)
        ensures
            *r == self@[slot(-1, 0, 0)],
    {
        self.face(VoxelFace::Left)
    }

    pub fn right(&self) -> (r: &Voxel)
        ensures
            *r == self@[slot(1, 0, 0)],
    {
        self.face(VoxelFace::Right)
    }

    pub fn top(&self) -> (r: &Voxel)
        ensures
            *r == self@[slot(0, 1, 0)],
    {
        self.face(VoxelFace::Top)
    }

    pub fn bottom(&self) -> (r: &Voxel)
        ensures
            *r == self@[slot(0, -1, 0)],
    {
        self.face(VoxelFace::Bottom)
    }

    pub fn front(&self) -> (r: &Voxel)
        ensures
            *r == self@[slot(0, 0, -1)],
    {
        self.face(VoxelFace::Front)
    }

    pub fn back(&self) -> (r: &Voxel)
        ensures
            *r == self@[slot(0, 0, 1)],
    {
        self.face(VoxelFace::Back)
    }

    /// The neighbour at offset `(x, y, z)`.
    pub fn get(&self, x: isize, y: isize, z: isize) -> (r: &Voxel)
        requires
            is_unit_offset(x as int),
            is_unit_offset(y as int),
            is_unit_offset(z as int),
        ensures
            *r == self@[slot(x as int, y as int, z as int)],
    {
        self.get_index_unsafe(VoxelAdjacency::adjacency_index(x, y, z))
    }

    /// The voxel in slot `index`.
    pub fn get_index_unsafe(&self, index: usize) -> (r: &Voxel)
        requires
            index < 27,
        ensures
            *r == self@[index as int],
    {
        &self.adjacency[index]
    }

    /// The slot of offset `(x, y, z)`: `(y + 1) * 9 + (x + 1) * 3 + (z + 1)`.
    pub fn adjacency_index(x: isize, y: isize, z: isize) -> (r: usize)
        requires
            is_unit_offset(x as int),
            is_unit_offset(y as int),
            is_unit_offset(z as int),
        ensures
            r as int == slot(x as int, y as int, z as int),
            r < 27,
    {
        ((y + 1) * 9 + (x + 1) * 3 + (z + 1)) as usize
    }
}

} // verus!
