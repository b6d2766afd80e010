use vstd::prelude::*;

use crate::chunk::{
    lemma_extent_bounds, lemma_index_cell, lemma_scan_cell, linear_index, scan_x, scan_y, scan_z, Chunk,
};
use crate::error::WorldError;
use crate::voxel::{
    center_slot, face_at, face_slot, lemma_slot_offsets, neighborhood, slot, Voxel, VoxelAdjacency,
    VoxelFace,
};

verus! {

/// Height at which every chunk mesh is placed in world space.
pub const VERTICAL_ANCHOR: i64 = -30;

/// Number of distinct values of a 16-bit index: a mesh must have fewer vertices than this.
pub const INDEX_LIMIT: usize = 65536;

/// Corner `c` (`0..8`) of the unit cube, as an offset from the voxel's lowest corner.
pub open spec fn corner_offset(c: int) -> (int, int, int) {
    if c == 0 {
        (0, 0, 0)
    } else if c == 1 {
        (1, 0, 0)
    } else if c == 2 {
        (1, 0, 1)
    } else if c == 3 {
        (0, 0, 1)
    } else if c == 4 {
        (0, 1, 0)
    } else if c == 5 {
        (1, 1, 0)
    } else if c == 6 {
        (1, 1, 1)
    } else {
        (0, 1, 1)
    }
}

/// The cube corners of a face, in the order in which its four vertices are emitted.
pub open spec fn face_corner_list(face: VoxelFace) -> Seq<int> {
    match face {
        VoxelFace::Left => seq![4, 7, 3, 0],
        VoxelFace::Right => seq![6, 5, 1, 2],
        VoxelFace::Front => seq![5, 4, 0, 1],
        VoxelFace::Back => seq![7, 6, 2, 3],
        VoxelFace::Top => seq![6, 7, 4, 5],
        VoxelFace::Bottom => seq![1, 0, 3, 2],
    }
}

/// The cube corner of vertex `i` of `face`.
pub open spec fn face_corner(face: VoxelFace, i: int) -> int {
    face_corner_list(face)[i]
}

/// Offsets of the four cells, on the outer side of `face`, that touch its `i`-th vertex.
pub open spec fn occlusion_offsets(face: VoxelFace, i: int) -> Seq<(int, int, int)> {
    match face {
        VoxelFace::Left => if i == 0 {
            seq![(-1, 0, -1), (-1, 0, 0), (-1, 1, 0), (-1, 1, -1)]
        } else if i == 1 {
            seq![(-1, 0, 0), (-1, 0, 1), (-1, 1, 1), (-1, 1, 0)]
        } else if i == 2 {
            seq![(-1, -1, 0), (-1, -1, 1), (-1, 0, 1), (-1, 0, 0)]
        } else {
            seq![(-1, -1, -1), (-1, -1, 0), (-1, 0, 0), (-1, 0, -1)]
        },
        VoxelFace::Right => if i == 0 {
            seq![(1, 0, 0), (1, 0, 1), (1, 1, 1), (1, 1, 0)]
        } else if i == 1 {
            seq![(1, 0, -1), (1, 0, 0), (1, 1, 0), (1, 1, -1)]
        } else if i == 2 {
            seq![(1, -1, -1), (1, -1, 0), (1, 0, 0), (1, 0, -1)]
        } else {
            seq![(1, -1, 0), (1, -1, 1), (1, 0, 1), (1, 0, 0)]
        },
        VoxelFace::Front => if i == 0 {
            seq![(0, 0, -1), (0, 1, -1), (1, 0, -1), (1, 1, -1)]
        } else if i == 1 {
            seq![(-1, 0, -1), (-1, 1, -1), (0, 0, -1), (0, 1, -1)]
        } else if i == 2 {
            seq![(-1, -1, -1), (-1, 0, -1), (0, -1, -1), (0, 0, -1)]
        } else {
            seq![(0, -1, -1), (0, 0, -1), (1, -1, -1), (1, 0, -1)]
        },
        VoxelFace::Back => if i == 0 {
            seq![(-1, 0, 1), (-1, 1, 1), (0, 0, 1), (0, 1, 1)]
        } else if i == 1 {
            seq![(0, 0, 1), (0, 1, 1), (1, 0, 1), (1, 1, 1)]
        } else if i == 2 {
            seq![(0, -1, 1), (0, 0, 1), (1, -1, 1), (1, 0, 1)]
        } else {
            seq![(-1, -1, 1), (-1, 0, 1), (0, -1, 1), (0, 0, 1)]
        },
        VoxelFace::Top => if i == 0 {
            seq![(0, 1, 0), (0, 1, 1), (1, 1, 0), (1, 1, 1)]
        } else if i == 1 {
            seq![(-1, 1, 0), (-1, 1, 1), (0, 1, 0), (0, 1, 1)]
        } else if i == 2 {
            seq![(-1, 1, -1), (-1, 1, 0), (0, 1, -1), (0, 1, 0)]
        } else {
            seq![(0, 1, -1), (0, 1, 0), (1, 1, -1), (1, 1, 0)]
        },
        VoxelFace::Bottom => if i == 0 {
            seq![(0, -1, -1), (0, -1, 0), (1, -1, -1), (1, -1, 0)]
        } else if i == 1 {
            seq![(-1, -1, -1), (-1, -1, 0), (0, -1, -1), (0, -1, 0)]
        } else if i == 2 {
            seq![(-1, -1, 0), (-1, -1, 1), (0, -1, 0), (0, -1, 1)]
        } else {
            seq![(0, -1, 0), (0, -1, 1), (1, -1, 0), (1, -1, 1)]
        },
    }
}

/// The neighbourhood slot of the `j`-th occluding cell of vertex `i` of `face`.
pub open spec fn occlusion_slot(face: VoxelFace, i: int, j: int) -> int {
    let o = occlusion_offsets(face, i)[j];
    slot(o.0, o.1, o.2)
}

/// How many of the four cells around vertex `i` of `face` let light through (`0..=4`); the
/// vertex's occlusion weight is this count divided by four.
pub open spec fn corner_occlusion(adj: Seq<Voxel>, face: VoxelFace, i: int) -> nat {
    adj[occlusion_slot(face, i, 0)].transparency() + adj[occlusion_slot(face, i, 1)].transparency()
        + adj[occlusion_slot(face, i, 2)].transparency() + adj[occlusion_slot(face, i, 3)].transparency()
}

/// One corner of an emitted face.
#[derive(Clone, Copy, Debug, PartialEq, Eq)]
pub struct Vertex {
    /// Lattice position: the voxel's coordinates plus the corner's unit offset. Scaling by the
    /// voxel size gives the position in model space.
    pub position: (i64, i64, i64),
    /// The face the vertex belongs to; its outward normal is `face.normal()`.
    pub face: VoxelFace,
    /// Transparent cells around the corner, `0..=4`; the occlusion weight is `occlusion / 4`.
    pub occlusion: u8,
    /// Brightness byte of the voxel the face belongs to.
    pub shade: u8,
}

/// Vertex `i` of `face` of the voxel at `(x, y, z)` whose neighbourhood is `adj`.
pub open spec fn face_vertex(adj: Seq<Voxel>, face: VoxelFace, i: int, x: int, y: int, z: int) -> Vertex {
    let c = corner_offset(face_corner(face, i));
    Vertex {
        position: ((x + c.0) as i64, (y + c.1) as i64, (z + c.2) as i64),
        face,
        occlusion: corner_occlusion(adj, face, i) as u8,
        shade: adj[center_slot()].shade_byte(),
    }
}

/// The four vertices of `face` of the voxel at `(x, y, z)`.
pub open spec fn face_vertices(adj: Seq<Voxel>, face: VoxelFace, x: int, y: int, z: int) -> Seq<Vertex> {
    Seq::new(4, |i: int| face_vertex(adj, face, i, x, y, z))
}

/// Corner order of the two triangles of a quad with the given corner occlusions: the quad is
/// split along the diagonal 0–2 when corners 0 and 2 sum to less than corners 1 and 3, and
/// along 1–3 otherwise.
pub open spec fn quad_order(o0: int, o1: int, o2: int, o3: int) -> Seq<int> {
    if o0 + o2 < o1 + o3 {
        seq![3, 2, 1, 1, 0, 3]
    } else {
        seq![0, 2, 1, 0, 3, 2]
    }
}

/// The six indices of `face`, whose first vertex has index `base`.
pub open spec fn quad_indices(adj: Seq<Voxel>, face: VoxelFace, base: int) -> Seq<u16> {
    let order = quad_order(
        corner_occlusion(adj, face, 0) as int,
        corner_occlusion(adj, face, 1) as int,
        corner_occlusion(adj, face, 2) as int,
        corner_occlusion(adj, face, 3) as int,
    );
    Seq::new(6, |j: int| (base + order[j]) as u16)
}

/// A face is drawn when the voxel is solid and the neighbour across the face is air.
pub open spec fn face_visible(adj: Seq<Voxel>, face: VoxelFace) -> bool {
    !(adj[center_slot()] is Air) && adj[face_slot(face)] is Air
}

/// Visible faces among the first `n` faces in visiting order.
pub open spec fn visible_count(adj: Seq<Voxel>, n: int) -> nat
    decreases n,
{
    if n <= 0 {
        0
    } else {
        visible_count(adj, n - 1) + if face_visible(adj, face_at(n - 1)) {
            1nat
        } else {
            0nat
        }
    }
}

/// Vertices emitted for the first `n` faces of the voxel at `(x, y, z)`.
pub open spec fn voxel_vertices(adj: Seq<Voxel>, x: int, y: int, z: int, n: int) -> Seq<Vertex>
    decreases n,
{
    if n <= 0 {
        Seq::empty()
    } else {
        voxel_vertices(adj, x, y, z, n - 1) + if face_visible(adj, face_at(n - 1)) {
            face_vertices(adj, face_at(n - 1), x, y, z)
        } else {
            Seq::empty()
        }
    }
}

/// Indices emitted for the first `n` faces of a voxel whose first vertex has index `base`.
pub open spec fn voxel_indices(adj: Seq<Voxel>, base: int, n: int) -> Seq<u16>
    decreases n,
{
    if n <= 0 {
        Seq::empty()
    } else {
        voxel_indices(adj, base, n - 1) + if face_visible(adj, face_at(n - 1)) {
            quad_indices(adj, face_at(n - 1), base + 4 * visible_count(adj, n - 1))
        } else {
            Seq::empty()
        }
    }
}

/// The neighbourhood of the `k`-th cell of `c` in scan order.
pub open spec fn cell_neighborhood(c: Chunk, k: int) -> Seq<Voxel> {
    neighborhood(
        c,
        scan_x(c.spec_width(), c.spec_height(), k),
        scan_y(c.spec_width(), c.spec_height(), k),
        scan_z(c.spec_height(), k),
    )
}

/// Vertices emitted for the `k`-th cell of `c` in scan order.
pub open spec fn cell_vertices(c: Chunk, k: int) -> Seq<Vertex> {
    voxel_vertices(
        cell_neighborhood(c, k),
        scan_x(c.spec_width(), c.spec_height(), k),
        scan_y(c.spec_width(), c.spec_height(), k),
        scan_z(c.spec_height(), k),
        6,
    )
}

/// Vertices emitted for the first `n` cells of `c` in scan order (y, then x, then z).
pub open spec fn chunk_vertices(c: Chunk, n: int) -> Seq<Vertex>
    decreases n,
{
    if n <= 0 {
        Seq::empty()
    } else {
        chunk_vertices(c, n - 1) + cell_vertices(c, n - 1)
    }
}

/// Indices emitted for the first `n` cells of `c` in scan order.
pub open spec fn chunk_indices(c: Chunk, n: int) -> Seq<u16>
    decreases n,
{
    if n <= 0 {
        Seq::empty()
    } else {
        chunk_indices(c, n - 1) + voxel_indices(
            cell_neighborhood(c, n - 1),
            chunk_vertices(c, n - 1).len() as int,
            6,
        )
    }
}

/// All vertices of the mesh of `c`.
pub open spec fn mesh_vertices(c: Chunk) -> Seq<Vertex> {
    chunk_vertices(c, c.volume())
}

/// All indices of the mesh of `c`.
pub open spec fn mesh_indices(c: Chunk) -> Seq<u16> {
    chunk_indices(c, c.volume())
}

/// A triangle list over `vertex_count` vertices: whole triangles, every index in range.
pub open spec fn indices_valid(indices: Seq<u16>, vertex_count: int) -> bool {
    &&& indices.len() % 3 == 0
    &&& forall|i: int| 0 <= i < indices.len() ==> (#[trigger] indices[i] as int) < vertex_count
}

proof fn lemma_visible_count_monotone(adj: Seq<Voxel>, m: int, n: int)
    requires
        m <= n,
    ensures
        visible_count(adj, m) <= visible_count(adj, n),
        visible_count(adj, n) <= visible_count(adj, m) + (n - m),
    decreases n - m,
{
    if m < n {
        lemma_visible_count_monotone(adj, m, n - 1);
    }
}

proof fn lemma_voxel_lengths(adj: Seq<Voxel>, x: int, y: int, z: int, base: int, n: int)
    ensures
        voxel_vertices(adj, x, y, z, n).len() == 4 * visible_count(adj, n),
        voxel_indices(adj, base, n).len() == 6 * visible_count(adj, n),
    decreases n,
{
    if n > 0 {
        lemma_voxel_lengths(adj, x, y, z, base, n - 1);
    }
}

proof fn lemma_air_sees_nothing(adj: Seq<Voxel>, n: int)
    requires
        adj[center_slot()] is Air,
    ensures
        visible_count(adj, n) == 0,
    decreases n,
{
    if n > 0 {
        lemma_air_sees_nothing(adj, n - 1);
    }
}

proof fn lemma_chunk_vertices_monotone(c: Chunk, m: int, n: int)
    requires
        m <= n,
    ensures
        chunk_vertices(c, m).len() <= chunk_vertices(c, n).len(),
    decreases n - m,
{
    if m < n {
        lemma_chunk_vertices_monotone(c, m, n - 1);
    }
}

/// The cube corner at index `corner` (`0..8`), as an offset from the voxel's lowest corner.
pub fn corner_position(corner: usize) -> (r: (i64, i64, i64))
    requires
        corner < 8,
    ensures
        r.0 as int == corner_offset(corner as int).0,
        r.1 as int == corner_offset(corner as int).1,
        r.2 as int == corner_offset(corner as int).2,
{
    match corner {
        0 => (0, 0, 0),
        1 => (1, 0, 0),
        2 => (1, 0, 1),
        3 => (0, 0, 1),
        4 => (0, 1, 0),
        5 => (1, 1, 0),
        6 => (1, 1, 1),
        _ => (0, 1, 1),
    }
}

/// The cube corners of `face`, in emission order.
pub fn face_corners(face: VoxelFace) -> (r: [usize; 4])
    ensures
        forall|i: int| 0 <= i < 4 ==> #[trigger] r@[i] as int == face_corner(face, i),
        forall|i: int| 0 <= i < 4 ==> #[trigger] r@[i] < 8,
{
    match face {
        VoxelFace::Left => [4, 7, 3, 0],
        VoxelFace::Right => [6, 5, 1, 2],
        VoxelFace::Front => [5, 4, 0, 1],
        VoxelFace::Back => [7, 6, 2, 3],
        VoxelFace::Top => [6, 7, 4, 5],
        VoxelFace::Bottom => [1, 0, 3, 2],
    }
}

/// Neighbourhood slots of the four cells that shade vertex `corner` (`0..4`) of `face`.
pub fn occlusion_indices(face: VoxelFace, corner: usize) -> (r: [usize; 4])
    requires
        corner < 4,
    ensures
        forall|j: int| 0 <= j < 4 ==> #[trigger] r@[j] as int == occlusion_slot(face, corner as int, j),
        forall|j: int| 0 <= j < 4 ==> #[trigger] r@[j] < 27,
{
    match face {
        VoxelFace::Left => match corner {
            0 => [9, 10, 19, 18],
            1 => [10, 11, 20, 19],
            2 => [1, 2, 11, 10],
            _ => [0, 1, 10, 9],
        },
        VoxelFace::Right => match corner {
            0 => [16, 17, 26, 25],
            1 => [15, 16, 25, 24],
            2 => [6, 7, 16, 15],
            _ => [7, 8, 17, 16],
        },
        VoxelFace::Front => match corner {
            0 => [12, 21, 15, 24],
            1 => [9, 18, 12, 21],
            2 => [0, 9, 3, 12],
            _ => [3, 12, 6, 15],
        },
        VoxelFace::Back => match corner {
            0 => [11, 20, 14, 23],
            1 => [14, 23, 17, 26],
            2 => [5, 14, 8, 17],
            _ => [2, 11, 5, 14],
        },
        VoxelFace::Top => match corner {
            0 => [22, 23, 25, 26],
            1 => [19, 20, 22, 23],
            2 => [18, 19, 21, 22],
            _ => [21, 22, 24, 25],
        },
        VoxelFace::Bottom => match corner {
            0 => [3, 4, 6, 7],
            1 => [0, 1, 3, 4],
            2 => [1, 2, 4, 5],
            _ => [4, 5, 7, 8],
        },
    }
}

/// Counts the transparent voxels among the four slots `indices`: the corner's occlusion in
/// quarters.
fn compute_vertex_average_occlusion(adjacency: &VoxelAdjacency, indices: [usize; 4]) -> (r: u8)
    requires
        forall|j: int| 0 <= j < 4 ==> #[trigger] indices@[j] < 27,
    ensures
        r as nat == adjacency@[indices@[0] as int].transparency() + adjacency@[indices@[1] as int].transparency()
            + adjacency@[indices@[2] as int].transparency() + adjacency@[indices@[3] as int].transparency(),
        r <= 4,
{
    adjacency.get_index_unsafe(indices[0]).light_transparency()
        + adjacency.get_index_unsafe(indices[1]).light_transparency()
        + adjacency.get_index_unsafe(indices[2]).light_transparency()
        + adjacency.get_index_unsafe(indices[3]).light_transparency()
}

/// The occlusion of each of the four vertices of `face`, in quarters.
fn compute_face_average_occlusion(adjacency: &VoxelAdjacency, face: VoxelFace) -> (r: [u8; 4])
    ensures
        forall|i: int| 0 <= i < 4 ==> #[trigger] r@[i] as nat == corner_occlusion(adjacency@, face, i),
        forall|i: int| 0 <= i < 4 ==> #[trigger] r@[i] <= 4,
{
    [
        compute_vertex_average_occlusion(adjacency, occlusion_indices(face, 0)),
        compute_vertex_average_occlusion(adjacency, occlusion_indices(face, 1)),
        compute_vertex_average_occlusion(adjacency, occlusion_indices(face, 2)),
        compute_vertex_average_occlusion(adjacency, occlusion_indices(face, 3)),
    ]
}

/// The corners (`0..4`) of the two triangles of a quad with the given corner occlusions,
/// split along the diagonal that joins the two least occluded corners.
pub fn quad_triangles(occlusion: [u8; 4]) -> (r: [u16; 6])
    ensures
        forall|j: int|
            0 <= j < 6 ==> #[trigger] r@[j] as int == quad_order(
                occlusion@[0] as int,
                occlusion@[1] as int,
                occlusion@[2] as int,
                occlusion@[3] as int,
            )[j],
        forall|j: int| 0 <= j < 6 ==> #[trigger] r@[j] <= 3,
{
    if (occlusion[0] as u16) + (occlusion[2] as u16) < (occlusion[1] as u16) + (occlusion[3] as u16) {
        [3, 2, 1, 1, 0, 3]
    } else {
        [0, 2, 1, 0, 3, 2]
    }
}

/// Number of faces of the voxel that would be drawn.
pub fn visible_face_count(adjacency: &VoxelAdjacency) -> (r: usize)
    ensures
        r as nat == visible_count(adjacency@, 6),
        r <= 6,
{
    if adjacency.center().is_empty() {
        proof {
            lemma_air_sees_nothing(adjacency@, 6);
        }
        return 0;
    }
    let faces = VoxelFace::values();
    let mut count: usize = 0;
    let mut n: usize = 0;
    while n < 6
        invariant
            n <= 6,
            count <= n,
            count as nat == visible_count(adjacency@, n as int),
            !(adjacency@[center_slot()] is Air),
            forall|i: int| 0 <= i < 6 ==> #[trigger] faces@[i] == face_at(i),
        decreases 6 - n,
    {
        if adjacency.face(faces[n]).is_empty() {
            count = count + 1;
        }
        n = n + 1;
    }
    count
}

/// Appends the visible faces of one voxel: four vertices and two triangles per face. The
/// voxel sits at `position` and its neighbourhood is `adjacency`.
pub fn build_voxel(
    adjacency: &VoxelAdjacency,
    position: (isize, isize, isize),
    vertices: &mut Vec<Vertex>,
    indices: &mut Vec<u16>,
)
    requires
        position.0 < isize::MAX,
        position.1 < isize::MAX,
        position.2 < isize::MAX,
        old(vertices)@.len() + 4 * visible_count(adjacency@, 6) <= INDEX_LIMIT,
    ensures
        final(vertices)@ == old(vertices)@ + voxel_vertices(
            adjacency@,
            position.0 as int,
            position.1 as int,
            position.2 as int,
            6,
        ),
        final(indices)@ == old(indices)@ + voxel_indices(adjacency@, old(vertices)@.len() as int, 6),
{
    let (x, y, z) = position;
    let ghost adj = adjacency@;
    let ghost start = old(vertices)@.len() as int;
    proof {
        lemma_voxel_lengths(adj, x as int, y as int, z as int, start, 6);
    }
    // Air has no faces.
    if adjacency.center().is_empty() {
        proof {
            lemma_air_sees_nothing(adj, 6);
        }
        assert(voxel_vertices(adj, x as int, y as int, z as int, 6) =~= Seq::<Vertex>::empty());
        assert(voxel_indices(adj, start, 6) =~= Seq::<u16>::empty());
        assert(vertices@ =~= old(vertices)@ + voxel_vertices(adj, x as int, y as int, z as int, 6));
        assert(indices@ =~= old(indices)@ + voxel_indices(adj, start, 6));
        return;
    }
    let shade = adjacency.center().shade();
    let faces = VoxelFace::values();
    let mut n: usize = 0;
    while n < 6
        invariant
            n <= 6,
            adj == adjacency@,
            x < isize::MAX,
            y < isize::MAX,
            z < isize::MAX,
            start == old(vertices)@.len(),
            start + 4 * visible_count(adj, 6) <= INDEX_LIMIT,
            !(adj[center_slot()] is Air),
            shade == adj[center_slot()].shade_byte(),
            forall|i: int| 0 <= i < 6 ==> #[trigger] faces@[i] == face_at(i),
            vertices@ == old(vertices)@ + voxel_vertices(adj, x as int, y as int, z as int, n as int),
            indices@ == old(indices)@ + voxel_indices(adj, start, n as int),
        decreases 6 - n,
    {
        let face = faces[n];
        proof {
            lemma_voxel_lengths(adj, x as int, y as int, z as int, start, n as int);
            lemma_visible_count_monotone(adj, n as int + 1, 6);
        }
        // Faces against a solid neighbour are hidden.
        if adjacency.face(face).is_empty() {
            let occlusion = compute_face_average_occlusion(adjacency, face);
            let corners = face_corners(face);
            let base_vertex = vertices.len() as u16;
            let ghost before = vertices@;
            let mut i: usize = 0;
            while i < 4
                invariant
                    i <= 4,
                    x < isize::MAX,
                    y < isize::MAX,
                    z < isize::MAX,
                    adj == adjacency@,
                    shade == adj[center_slot()].shade_byte(),
                    forall|j: int| 0 <= j < 4 ==> #[trigger] occlusion@[j] as nat == corner_occlusion(adj, face, j),
                    forall|j: int| 0 <= j < 4 ==> #[trigger] occlusion@[j] <= 4,
                    forall|j: int| 0 <= j < 4 ==> #[trigger] corners@[j] as int == face_corner(face, j),
                    forall|j: int| 0 <= j < 4 ==> #[trigger] corners@[j] < 8,
                    vertices@ == before + face_vertices(adj, face, x as int, y as int, z as int).take(i as int),
                decreases 4 - i,
            {
                let corner = corner_position(corners[i]);
                vertices.push(
                    Vertex {
                        position: (x as i64 + corner.0, y as i64 + corner.1, z as i64 + corner.2),
                        face,
                        occlusion: occlusion[i],
                        shade,
                    },
                );
                assert(vertices@ =~= before + face_vertices(adj, face, x as int, y as int, z as int).take(i + 1));
                i = i + 1;
            }
            assert(face_vertices(adj, face, x as int, y as int, z as int).take(4) =~= face_vertices(adj, face, x as int, y as int, z as int));
            let order = quad_triangles(occlusion);
            let ghost quad = quad_indices(adj, face, before.len() as int);
            let ghost indices_before = indices@;
            let mut j: usize = 0;
            while j < 6
                invariant
                    j <= 6,
                    base_vertex as int == before.len(),
                    before.len() + 4 <= INDEX_LIMIT,
                    forall|t: int| 0 <= t < 6 ==> #[trigger] order@[t] <= 3,
                    forall|t: int|
                        0 <= t < 6 ==> #[trigger] order@[t] as int == quad_order(
                            occlusion@[0] as int,
                            occlusion@[1] as int,
                            occlusion@[2] as int,
                            occlusion@[3] as int,
                        )[t],
                    forall|t: int| 0 <= t < 4 ==> #[trigger] occlusion@[t] as nat == corner_occlusion(adj, face, t),
                    quad == quad_indices(adj, face, before.len() as int),
                    indices@ == indices_before + quad.take(j as int),
                decreases 6 - j,
            {
                indices.push(base_vertex + order[j]);
                assert(indices@ =~= indices_before + quad.take(j + 1));
                j = j + 1;
            }
            assert(quad.take(6) =~= quad);
            assert(vertices@ =~= old(vertices)@ + voxel_vertices(adj, x as int, y as int, z as int, n + 1));
            assert(indices@ =~= old(indices)@ + voxel_indices(adj, start, n + 1));
        } else {
            assert(vertices@ =~= old(vertices)@ + voxel_vertices(adj, x as int, y as int, z as int, n + 1));
            assert(indices@ =~= old(indices)@ + voxel_indices(adj, start, n + 1));
        }
        n = n + 1;
    }
}

/// The geometry of one chunk: vertices, a triangle list of 16-bit indices into them, and the
/// offset that places the chunk in the world.
pub struct Mesh {
    pub vertices: Vec<Vertex>,
    pub indices: Vec<u16>,
    /// World-space offset: the chunk's grid position on x and z, `VERTICAL_ANCHOR` on y.
    pub placement: (i64, i64, i64),
}

impl Mesh {
    /// Meshes every voxel of `data` in scan order (y, then x, then z). Fails with
    /// `CapacityExceeded` when the mesh would need `INDEX_LIMIT` vertices or more.
    pub fn from_data(data: &Chunk) -> (r: Result<Mesh, WorldError>)
        requires
            data.wf(),
        ensures
            r is Ok <==> mesh_vertices(*data).len() < INDEX_LIMIT,
            r is Err ==> r == Err::<Mesh, WorldError>(WorldError::CapacityExceeded),
            r matches Ok(m) ==> {
                &&& m.vertices@ == mesh_vertices(*data)
                &&& m.indices@ == mesh_indices(*data)
                &&& m.placement == (data.spec_position().0, VERTICAL_ANCHOR, data.spec_position().1)
                &&& indices_valid(m.indices@, m.vertices@.len() as int)
            },
    {
        let width = data.width();
        let height = data.height();
        let layers = data.layers();
        proof {
            lemma_extent_bounds(width as int, height as int, layers as int);
        }
        let area = width * height;
        let volume = area * layers;
        let mut vertices: Vec<Vertex> = Vec::new();
        let mut indices: Vec<u16> = Vec::new();
        let mut k: usize = 0;
        while k < volume
            invariant
                data.wf(),
                width as int == data.spec_width(),
                height as int == data.spec_height(),
                layers as int == data.spec_layers(),
                area == width * height,
                volume as int == data.volume(),
                volume <= isize::MAX,
                k <= volume,
                vertices@ == chunk_vertices(*data, k as int),
                indices@ == chunk_indices(*data, k as int),
                vertices@.len() < INDEX_LIMIT,
            decreases volume - k,
        {
            proof {
                lemma_scan_cell(width as int, height as int, layers as int, k as int);
                lemma_extent_bounds(width as int, height as int, layers as int);
            }
            let y = k / area;
            let x = (k % area) / height;
            let z = k % height;
            let adjacency = VoxelAdjacency::build(data, x as isize, y as isize, z as isize);
            let visible = visible_face_count(&adjacency);
            proof {
                lemma_voxel_lengths(
                    adjacency@,
                    x as int,
                    y as int,
                    z as int,
                    vertices@.len() as int,
                    6,
                );
            }
            if vertices.len() + 4 * visible >= INDEX_LIMIT {
                proof {
                    lemma_chunk_vertices_monotone(*data, k as int + 1, data.volume());
                }
                return Err(WorldError::CapacityExceeded);
            }
            build_voxel(&adjacency, (x as isize, y as isize, z as isize), &mut vertices, &mut indices);
            k = k + 1;
        }
        proof {
            lemma_mesh_indices_valid(*data);
        }
        let position = data.position();
        Ok(Mesh { vertices, indices, placement: (position.0, VERTICAL_ANCHOR, position.1) })
    }
}

proof fn lemma_voxel_indices_bounded(adj: Seq<Voxel>, base: int, n: int)
    requires
        0 <= base,
        base + 4 * visible_count(adj, n) <= INDEX_LIMIT,
    ensures
        voxel_indices(adj, base, n).len() == 6 * visible_count(adj, n),
        forall|i: int|
            0 <= i < voxel_indices(adj, base, n).len() ==> (#[trigger] voxel_indices(
                adj,
                base,
                n,
            )[i] as int) < base + 4 * visible_count(adj, n),
    decreases n,
{
    if n > 0 {
        lemma_visible_count_monotone(adj, n - 1, n);
        lemma_voxel_indices_bounded(adj, base, n - 1);
        let prev = voxel_indices(adj, base, n - 1);
        let face = face_at(n - 1);
        if face_visible(adj, face) {
            let b = base + 4 * visible_count(adj, n - 1);
            let quad = quad_indices(adj, face, b);
            assert forall|j: int| 0 <= j < 6 implies (#[trigger] quad[j] as int) < b + 4 by {
                let order = quad_order(
                    corner_occlusion(adj, face, 0) as int,
                    corner_occlusion(adj, face, 1) as int,
                    corner_occlusion(adj, face, 2) as int,
                    corner_occlusion(adj, face, 3) as int,
                );
                assert(0 <= order[j] <= 3);
            }
            assert(voxel_indices(adj, base, n) == prev + quad);
        } else {
            assert(voxel_indices(adj, base, n) =~= prev);
        }
    }
}

proof fn lemma_chunk_indices_valid(c: Chunk, n: int)
    requires
        chunk_vertices(c, n).len() <= INDEX_LIMIT,
    ensures
        indices_valid(chunk_indices(c, n), chunk_vertices(c, n).len() as int),
    decreases n,
{
    if n > 0 {
        let adj = cell_neighborhood(c, n - 1);
        let base = chunk_vertices(c, n - 1).len() as int;
        lemma_voxel_lengths(
            adj,
            scan_x(c.spec_width(), c.spec_height(), n - 1),
            scan_y(c.spec_width(), c.spec_height(), n - 1),
            scan_z(c.spec_height(), n - 1),
            base,
            6,
        );
        lemma_chunk_indices_valid(c, n - 1);
        lemma_voxel_indices_bounded(adj, base, 6);
        let prev = chunk_indices(c, n - 1);
        let added = voxel_indices(adj, base, 6);
        assert forall|i: int|
            0 <= i < chunk_indices(c, n).len() implies (#[trigger] chunk_indices(c, n)[i] as int)
            < chunk_vertices(c, n).len() by {
            if i >= prev.len() {
                assert(chunk_indices(c, n)[i] == added[i - prev.len()]);
            }
        }
    }
}

/// Every mesh that meshing produces is a well-formed triangle list: its index count is a
/// multiple of three and every index names one of its vertices.
pub proof fn lemma_mesh_indices_valid(c: Chunk)
    requires
        mesh_vertices(c).len() < INDEX_LIMIT,
    ensures
        indices_valid(mesh_indices(c), mesh_vertices(c).len() as int),
{
    lemma_chunk_indices_valid(c, c.volume());
}

proof fn lemma_voxel_vertex_properties(adj: Seq<Voxel>, x: int, y: int, z: int, n: int)
    ensures
        forall|i: int|
            0 <= i < voxel_vertices(adj, x, y, z, n).len() ==> {
                &&& face_visible(adj, (#[trigger] voxel_vertices(adj, x, y, z, n)[i]).face)
                &&& voxel_vertices(adj, x, y, z, n)[i].occlusion <= 4
            },
    decreases n,
{
    if n > 0 {
        lemma_voxel_vertex_properties(adj, x, y, z, n - 1);
        let prev = voxel_vertices(adj, x, y, z, n - 1);
        let face = face_at(n - 1);
        if face_visible(adj, face) {
            assert forall|i: int| 0 <= i < 4 implies (#[trigger] face_vertices(adj, face, x, y, z)[i]).occlusion <= 4 by {
                assert(corner_occlusion(adj, face, i) <= 4);
            }
        } else {
            assert(voxel_vertices(adj, x, y, z, n) =~= prev);
        }
    }
}

proof fn lemma_chunk_occlusion_bounded(c: Chunk, n: int)
    ensures
        forall|i: int|
            0 <= i < chunk_vertices(c, n).len() ==> (#[trigger] chunk_vertices(c, n)[i]).occlusion <= 4,
    decreases n,
{
    if n > 0 {
        lemma_chunk_occlusion_bounded(c, n - 1);
        lemma_voxel_vertex_properties(
            cell_neighborhood(c, n - 1),
            scan_x(c.spec_width(), c.spec_height(), n - 1),
            scan_y(c.spec_width(), c.spec_height(), n - 1),
            scan_z(c.spec_height(), n - 1),
            6,
        );
        let prev = chunk_vertices(c, n - 1);
        assert forall|i: int| 0 <= i < chunk_vertices(c, n).len() implies (#[trigger] chunk_vertices(c, n)[i]).occlusion <= 4 by {
            if i >= prev.len() {
                assert(chunk_vertices(c, n)[i] == cell_vertices(c, n - 1)[i - prev.len()]);
            }
        }
    }
}

/// Every occlusion weight of a mesh lies in `[0, 1]`: each vertex counts at most four
/// transparent cells, and its weight is that count divided by four.
pub proof fn lemma_mesh_occlusion_bounded(c: Chunk)
    ensures
        forall|i: int| 0 <= i < mesh_vertices(c).len() ==> (#[trigger] mesh_vertices(c)[i]).occlusion <= 4,
{
    lemma_chunk_occlusion_bounded(c, c.volume());
}

proof fn lemma_none_visible(adj: Seq<Voxel>, n: int)
    requires
        forall|m: int| 0 <= m < 6 ==> !face_visible(adj, #[trigger] face_at(m)),
        n <= 6,
    ensures
        visible_count(adj, n) == 0,
    decreases n,
{
    if n > 0 {
        lemma_none_visible(adj, n - 1);
    }
}

/// No face is emitted between two adjacent solid voxels: the vertices that the voxel at
/// `(x, y, z)` contributes to the mesh include none of the face that touches its solid
/// neighbour.
pub proof fn lemma_no_face_between_solids(c: Chunk, x: int, y: int, z: int, face: VoxelFace)
    requires
        c.wf(),
        c.in_bounds(x, y, z),
        !(c.voxel_at(x, y, z) is Air),
        !(c.voxel_at(x + face.offset().0, y + face.offset().1, z + face.offset().2) is Air),
    ensures
        forall|i: int|
            0 <= i < cell_vertices(c, linear_index(c.spec_width(), c.spec_height(), x, y, z)).len()
                ==> (#[trigger] cell_vertices(
                c,
                linear_index(c.spec_width(), c.spec_height(), x, y, z),
            )[i]).face != face,
{
    let k = linear_index(c.spec_width(), c.spec_height(), x, y, z);
    lemma_index_cell(c.spec_width(), c.spec_height(), c.spec_layers(), x, y, z);
    let adj = neighborhood(c, x, y, z);
    assert(cell_neighborhood(c, k) == adj);
    lemma_slot_offsets(face.offset().0, face.offset().1, face.offset().2);
    assert(!face_visible(adj, face));
    lemma_voxel_vertex_properties(adj, x, y, z, 6);
}

/// A solid voxel whose six face neighbours are all solid contributes neither vertices nor
/// indices to the mesh.
pub proof fn lemma_enclosed_voxel_invisible(c: Chunk, x: int, y: int, z: int)
    requires
        c.wf(),
        c.in_bounds(x, y, z),
        !(c.voxel_at(x, y, z) is Air),
        !(c.voxel_at(x - 1, y, z) is Air),
        !(c.voxel_at(x + 1, y, z) is Air),
        !(c.voxel_at(x, y - 1, z) is Air),
        !(c.voxel_at(x, y + 1, z) is Air),
        !(c.voxel_at(x, y, z - 1) is Air),
        !(c.voxel_at(x, y, z + 1) is Air),
    ensures
        cell_vertices(c, linear_index(c.spec_width(), c.spec_height(), x, y, z)).len() == 0,
        chunk_indices(c, linear_index(c.spec_width(), c.spec_height(), x, y, z) + 1)
            == chunk_indices(c, linear_index(c.spec_width(), c.spec_height(), x, y, z)),
{
    let k = linear_index(c.spec_width(), c.spec_height(), x, y, z);
    lemma_index_cell(c.spec_width(), c.spec_height(), c.spec_layers(), x, y, z);
    let adj = neighborhood(c, x, y, z);
    assert(cell_neighborhood(c, k) == adj);
    assert forall|m: int| 0 <= m < 6 implies !face_visible(adj, #[trigger] face_at(m)) by {
        let o = face_at(m).offset();
        lemma_slot_offsets(o.0, o.1, o.2);
    }
    lemma_none_visible(adj, 6);
    let base = chunk_vertices(c, k).len() as int;
    lemma_voxel_lengths(adj, x, y, z, base, 6);
    assert(chunk_indices(c, k + 1) =~= chunk_indices(c, k));
}

proof fn lemma_same_voxels_same_mesh(a: Chunk, b: Chunk, n: int)
    requires
        a.spec_width() == b.spec_width(),
        a.spec_height() == b.spec_height(),
        forall|x: int, y: int, z: int| #[trigger] a.voxel_at(x, y, z) == b.voxel_at(x, y, z),
    ensures
        chunk_vertices(a, n) == chunk_vertices(b, n),
        chunk_indices(a, n) == chunk_indices(b, n),
    decreases n,
{
    if n > 0 {
        lemma_same_voxels_same_mesh(a, b, n - 1);
        assert(cell_neighborhood(a, n - 1) =~= cell_neighborhood(b, n - 1));
    }
}

/// Generation is deterministic: two chunks generated with the same extents from the same
/// samples hold the same voxels everywhere, and so mesh to the same vertices and indices.
pub proof fn lemma_generation_deterministic(a: Chunk, b: Chunk, heights: Seq<i64>, shades: Seq<u8>)
    requires
        a.wf(),
        b.wf(),
        a.spec_width() == b.spec_width(),
        a.spec_height() == b.spec_height(),
        a.spec_layers() == b.spec_layers(),
        a.generated_from(heights, shades),
        b.generated_from(heights, shades),
    ensures
        forall|x: int, y: int, z: int| #[trigger] a.voxel_at(x, y, z) == b.voxel_at(x, y, z),
        mesh_vertices(a) == mesh_vertices(b),
        mesh_indices(a) == mesh_indices(b),
{
    assert forall|x: int, y: int, z: int| #[trigger] a.voxel_at(x, y, z) == b.voxel_at(x, y, z) by {
        if !a.in_bounds(x, y, z) {
            a.lemma_outside_is_air(x, y, z);
            b.lemma_outside_is_air(x, y, z);
        }
    }
    lemma_same_voxels_same_mesh(a, b, a.volume());
}

/// Cell offset `o` lies on the side of a face with outward normal `n` and touches the cube
/// corner at offset `v`.
pub open spec fn touches_corner(o: (int, int, int), v: (int, int, int), n: (int, int, int)) -> bool {
    &&& o.0 * n.0 + o.1 * n.1 + o.2 * n.2 == 1
    &&& o.0 <= v.0 < o.0 + 2
    &&& o.1 <= v.1 < o.1 + 2
    &&& o.2 <= v.2 < o.2 + 2
}

/// Four pairwise distinct elements.
pub open spec fn distinct4<A>(s: Seq<A>) -> bool {
    &&& s.len() == 4
    &&& s[0] != s[1]
    &&& s[0] != s[2]
    &&& s[0] != s[3]
    &&& s[1] != s[2]
    &&& s[1] != s[3]
    &&& s[2] != s[3]
}

spec fn corner_cells_touch(face: VoxelFace, i: int) -> bool {
    let s = occlusion_offsets(face, i);
    let v = corner_offset(face_corner(face, i));
    &&& touches_corner(s[0], v, face.offset())
    &&& touches_corner(s[1], v, face.offset())
    &&& touches_corner(s[2], v, face.offset())
    &&& touches_corner(s[3], v, face.offset())
}

/// The four cells that shade a vertex are distinct, lie on the outer side of the vertex's
/// face, and touch the vertex.
pub proof fn lemma_occlusion_cells_touch_corner(face: VoxelFace, i: int)
    requires
        0 <= i < 4,
    ensures
        distinct4(occlusion_offsets(face, i)),
        forall|j: int|
            0 <= j < 4 ==> touches_corner(
                #[trigger] occlusion_offsets(face, i)[j],
                corner_offset(face_corner(face, i)),
                face.offset(),
            ),
{
    match face {
        VoxelFace::Left => {
            if i == 0 {
                assert(corner_cells_touch(face, 0));
            } else if i == 1 {
                assert(corner_cells_touch(face, 1));
            } else if i == 2 {
                assert(corner_cells_touch(face, 2));
            } else {
                assert(corner_cells_touch(face, 3));
            }
        },
        VoxelFace::Right => {
            if i == 0 {
                assert(corner_cells_touch(face, 0));
            } else if i == 1 {
                assert(corner_cells_touch(face, 1));
            } else if i == 2 {
                assert(corner_cells_touch(face, 2));
            } else {
                assert(corner_cells_touch(face, 3));
            }
        },
        VoxelFace::Front => {
            if i == 0 {
                assert(corner_cells_touch(face, 0));
            } else if i == 1 {
                assert(corner_cells_touch(face, 1));
            } else if i == 2 {
                assert(corner_cells_touch(face, 2));
            } else {
                assert(corner_cells_touch(face, 3));
            }
        },
        VoxelFace::Back => {
            if i == 0 {
                assert(corner_cells_touch(face, 0));
            } else if i == 1 {
                assert(corner_cells_touch(face, 1));
            } else if i == 2 {
                assert(corner_cells_touch(face, 2));
            } else {
                assert(corner_cells_touch(face, 3));
            }
        },
        VoxelFace::Top => {
            if i == 0 {
                assert(corner_cells_touch(face, 0));
            } else if i == 1 {
                assert(corner_cells_touch(face, 1));
            } else if i == 2 {
                assert(corner_cells_touch(face, 2));
            } else {
                assert(corner_cells_touch(face, 3));
            }
        },
        VoxelFace::Bottom => {
            if i == 0 {
                assert(corner_cells_touch(face, 0));
            } else if i == 1 {
                assert(corner_cells_touch(face, 1));
            } else if i == 2 {
                assert(corner_cells_touch(face, 2));
            } else {
                assert(corner_cells_touch(face, 3));
            }
        },
    }
    let s = occlusion_offsets(face, i);
    assert forall|j: int|
        0 <= j < 4 implies touches_corner(
        #[trigger] s[j],
        corner_offset(face_corner(face, i)),
        face.offset(),
    ) by {
        if j == 0 {
        } else if j == 1 {
        } else if j == 2 {
        } else {
        }
    }
}

} // verus!
