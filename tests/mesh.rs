use voxel_world::{
    build_voxel, quad_triangles, visible_face_count, Chunk, Mesh, Vertex, Voxel, VoxelAdjacency,
    VoxelFace, WorldError, INDEX_LIMIT, VERTICAL_ANCHOR,
};

/// A chunk whose voxel at `(x, y, z)` is solid where `is_solid` says so.
fn chunk_of(
    width: usize,
    height: usize,
    layers: usize,
    is_solid: impl Fn(usize, usize, usize) -> bool,
) -> Chunk {
    let mut voxels = Vec::new();
    for y in 0..layers {
        for x in 0..width {
            for z in 0..height {
                voxels.push(if is_solid(x, y, z) {
                    Voxel::Solid { shade: 200 }
                } else {
                    Voxel::Air
                });
            }
        }
    }
    Chunk::from_voxels(width, height, layers, (0, 0), voxels).unwrap()
}

fn assert_valid_triangle_list(mesh: &Mesh) {
    assert_eq!(mesh.indices.len() % 3, 0);
    for index in &mesh.indices {
        assert!((*index as usize) < mesh.vertices.len());
    }
}

fn count_face(mesh: &Mesh, face: VoxelFace) -> usize {
    mesh.vertices.iter().filter(|v| v.face == face).count() / 4
}

#[test]
fn single_solid_in_two_by_two_meshes_six_quads() {
    // Layer 0 holds [[Solid, Air], [Air, Air]].
    let chunk = chunk_of(2, 2, 1, |x, _, z| x == 0 && z == 0);
    let mesh = Mesh::from_data(&chunk).unwrap();
    assert_eq!(mesh.vertices.len(), 24);
    assert_eq!(mesh.indices.len(), 36);
    for face in VoxelFace::values() {
        assert_eq!(count_face(&mesh, face), 1);
    }
    // Left face first, its corners in table order; every corner fully lit.
    let left: Vec<(i64, i64, i64)> = mesh.vertices[0..4].iter().map(|v| v.position).collect();
    assert_eq!(left, vec![(0, 1, 0), (0, 1, 1), (0, 0, 1), (0, 0, 0)]);
    assert!(mesh.vertices.iter().all(|v| v.occlusion == 4 && v.shade == 200));
    // Equal diagonal sums split along 1-3.
    assert_eq!(&mesh.indices[0..12], &[0, 2, 1, 0, 3, 2, 4, 6, 5, 4, 7, 6]);
    assert_valid_triangle_list(&mesh);
}

#[test]
fn placement_follows_grid_position() {
    let chunk = Chunk::from_voxels(1, 1, 1, (3, -2), vec![Voxel::Air]).unwrap();
    let mesh = Mesh::from_data(&chunk).unwrap();
    assert_eq!(mesh.placement, (3, VERTICAL_ANCHOR, -2));
    assert_eq!(VERTICAL_ANCHOR, -30);
}

#[test]
fn no_face_between_adjacent_solids() {
    let chunk = chunk_of(2, 1, 1, |_, _, _| true);
    let mesh = Mesh::from_data(&chunk).unwrap();
    assert_eq!(mesh.vertices.len(), 40);
    assert_eq!(count_face(&mesh, VoxelFace::Right), 1);
    assert_eq!(count_face(&mesh, VoxelFace::Left), 1);
    // The only Right face is the one of the voxel at x = 1, on the plane x = 2.
    assert!(mesh
        .vertices
        .iter()
        .filter(|v| v.face == VoxelFace::Right)
        .all(|v| v.position.0 == 2));
    assert!(mesh
        .vertices
        .iter()
        .filter(|v| v.face == VoxelFace::Left)
        .all(|v| v.position.0 == 0));
}

#[test]
fn enclosed_voxel_emits_nothing() {
    let chunk = chunk_of(3, 3, 3, |_, _, _| true);
    let mesh = Mesh::from_data(&chunk).unwrap();
    // Only the outer surface: nine quads on each of six sides.
    assert_eq!(mesh.vertices.len(), 6 * 9 * 4);
    assert_eq!(mesh.indices.len(), 6 * 9 * 6);
    let adjacency = VoxelAdjacency::build(&chunk, 1, 1, 1);
    assert_eq!(visible_face_count(&adjacency), 0);
    let mut vertices = Vec::new();
    let mut indices = Vec::new();
    build_voxel(&adjacency, (1, 1, 1), &mut vertices, &mut indices);
    assert!(vertices.is_empty());
    assert!(indices.is_empty());
    assert_valid_triangle_list(&mesh);
}

#[test]
fn air_voxel_emits_nothing() {
    let adjacency = VoxelAdjacency::new([Voxel::Air; 27]);
    let mut vertices = Vec::new();
    let mut indices = Vec::new();
    build_voxel(&adjacency, (0, 0, 0), &mut vertices, &mut indices);
    assert!(vertices.is_empty());
    assert!(indices.is_empty());
}

#[test]
fn build_voxel_appends_after_existing_geometry() {
    let mut slots = [Voxel::Air; 27];
    slots[13] = Voxel::Solid { shade: 1 };
    slots[22] = Voxel::Solid { shade: 1 }; // above: the top face is hidden
    let adjacency = VoxelAdjacency::new(slots);
    assert_eq!(visible_face_count(&adjacency), 5);
    let existing = Vertex { position: (0, 0, 0), face: VoxelFace::Top, occlusion: 0, shade: 0 };
    let mut vertices = vec![existing; 8];
    let mut indices = vec![0u16; 3];
    build_voxel(&adjacency, (5, 6, 7), &mut vertices, &mut indices);
    assert_eq!(vertices.len(), 8 + 20);
    assert_eq!(indices.len(), 3 + 30);
    assert!(vertices[8..].iter().all(|v| v.face != VoxelFace::Top));
    assert!(indices[3..].iter().all(|i| *i >= 8 && *i < 28));
    // Left face of the voxel at (5, 6, 7) starts at corner 4 = (0, 1, 0).
    assert_eq!(vertices[8].position, (5, 7, 7));
}

#[test]
fn corner_occlusion_counts_transparent_neighbours() {
    // 2 wide, 1 high, 2 layers: solid at (0, 0, 0) and (1, 1, 0).
    let chunk = chunk_of(2, 1, 2, |x, y, _| x == y);
    let mesh = Mesh::from_data(&chunk).unwrap();
    let top: Vec<&Vertex> = mesh
        .vertices
        .iter()
        .filter(|v| v.face == VoxelFace::Top && v.position.1 == 1)
        .collect();
    assert_eq!(top.len(), 4);
    let occlusion: Vec<u8> = top.iter().map(|v| v.occlusion).collect();
    assert_eq!(occlusion, vec![3, 4, 4, 3]);
    assert!(mesh.vertices.iter().all(|v| v.occlusion <= 4));
    assert_valid_triangle_list(&mesh);
}

#[test]
fn occlusion_stays_in_range_on_rough_terrain() {
    let heights: Vec<i64> = (0..25).map(|i| (i * 13 % 7) as i64 - 1).collect();
    let shades: Vec<u8> = (0..150).map(|i| (i * 31 % 256) as u8).collect();
    let chunk = Chunk::from_samples(5, 5, 6, (0, 0), &heights, &shades).unwrap();
    let mesh = Mesh::from_data(&chunk).unwrap();
    assert!(!mesh.vertices.is_empty());
    assert!(mesh.vertices.iter().all(|v| v.occlusion <= 4));
    assert!(mesh.vertices.iter().any(|v| v.occlusion < 4));
    assert_valid_triangle_list(&mesh);
}

#[test]
fn diagonal_joins_least_occluded_corners() {
    assert_eq!(quad_triangles([0, 4, 0, 4]), [3, 2, 1, 1, 0, 3]);
    assert_eq!(quad_triangles([4, 0, 4, 0]), [0, 2, 1, 0, 3, 2]);
    assert_eq!(quad_triangles([4, 4, 4, 4]), [0, 2, 1, 0, 3, 2]);
    assert_eq!(quad_triangles([1, 2, 2, 2]), [3, 2, 1, 1, 0, 3]);
}

#[test]
fn oversized_solid_chunk_exceeds_capacity() {
    // Fully solid, the surface alone needs 6 * 64 * 64 quads = 98304 vertices.
    let chunk = chunk_of(64, 64, 64, |_, _, _| true);
    assert_eq!(Mesh::from_data(&chunk).err(), Some(WorldError::CapacityExceeded));
}

#[test]
fn capacity_limit_is_exact() {
    // A solid column of n voxels has 4n + 2 faces, so 16n + 8 vertices.
    let fits = chunk_of(1, 1, 4095, |_, _, _| true);
    let mesh = Mesh::from_data(&fits).unwrap();
    assert_eq!(mesh.vertices.len(), 65528);
    assert!(mesh.vertices.len() < INDEX_LIMIT);
    assert_valid_triangle_list(&mesh);
    let too_tall = chunk_of(1, 1, 4096, |_, _, _| true);
    assert_eq!(Mesh::from_data(&too_tall).err(), Some(WorldError::CapacityExceeded));
}
