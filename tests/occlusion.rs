use voxel_world::{corner_position, face_corners, occlusion_indices, VoxelAdjacency, VoxelFace};

#[test]
fn occlusion_adjacencies() {
    let mut locations = Vec::new();
    for dy in -1..=1 {
        for dx in -1..=1 {
            for dz in -1..=1 {
                locations.push((dx, dy, dz));
            }
        }
    }

    assert_eq!(locations.len(), 27);

    for face in VoxelFace::values() {
        let n = face.normal();
        let normal = [n.0 as f32, n.1 as f32, n.2 as f32];
        for (i, vertex_index) in face_corners(face).iter().enumerate() {
            let c = corner_position(*vertex_index);
            let vertex = [c.0 as f32, c.1 as f32, c.2 as f32];
            let slots = occlusion_indices(face, i);
            let count = locations
                .iter()
                .filter(|(x, y, z)| {
                    *x as f32 * normal[0] + *y as f32 * normal[1] + *z as f32 * normal[2] > 0.7
                })
                .filter(|(x, y, z)| {
                    *x as f32 <= vertex[0]
                        && *x as f32 + 2. > vertex[0]
                        && *y as f32 <= vertex[1]
                        && *y as f32 + 2. > vertex[1]
                        && *z as f32 <= vertex[2]
                        && *z as f32 + 2. > vertex[2]
                })
                .filter(|(x, y, z)| slots.contains(&VoxelAdjacency::adjacency_index(*x, *y, *z)))
                .count();

            assert_eq!(4, count);
        }
    }
}

#[test]
fn adjacency_index_formula() {
    assert_eq!(VoxelAdjacency::adjacency_index(-1, -1, -1), 0);
    assert_eq!(VoxelAdjacency::adjacency_index(0, 0, 0), 13);
    assert_eq!(VoxelAdjacency::adjacency_index(1, 1, 1), 26);
    assert_eq!(VoxelAdjacency::adjacency_index(1, -1, 0), 7);
    assert_eq!(VoxelAdjacency::adjacency_index(-1, 1, 0), 19);
}

#[test]
fn face_values_in_order() {
    let faces = VoxelFace::values();
    assert_eq!(
        faces,
        [
            VoxelFace::Left,
            VoxelFace::Right,
            VoxelFace::Front,
            VoxelFace::Back,
            VoxelFace::Top,
            VoxelFace::Bottom
        ]
    );
    for (i, face) in faces.iter().enumerate() {
        assert_eq!(face.index(), i);
    }
    assert_eq!(VoxelFace::Bottom.normal(), (0, -1, 0));
    assert_eq!(VoxelFace::Front.normal(), (0, 0, -1));
}
