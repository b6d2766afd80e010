use voxel_world::{
    clamp_height, Chunk, ChunkData, Mesh, Voxel, VoxelAdjacency, WorldError, CHUNK_HEIGHT,
    CHUNK_LAYERS, CHUNK_WIDTH,
};

fn solid(shade: u8) -> Voxel {
    Voxel::Solid { shade }
}

#[test]
fn voxel_queries() {
    assert!(Voxel::Air.is_empty());
    assert!(!solid(3).is_empty());
    assert_eq!(Voxel::Air.light_transparency(), 1);
    assert_eq!(solid(3).light_transparency(), 0);
    assert_eq!(Voxel::Air.shade(), 255);
    assert_eq!(solid(7).shade(), 7);
    assert_eq!(Voxel::default(), Voxel::Air);
}

#[test]
fn from_voxels_stores_in_scan_order() {
    // 2 wide (x), 3 high (z), 2 layers (y): index = y * 6 + x * 3 + z.
    let voxels: Vec<Voxel> = (0..12u8).map(solid).collect();
    let chunk = Chunk::from_voxels(2, 3, 2, (4, -1), voxels).unwrap();
    assert_eq!(chunk.width(), 2);
    assert_eq!(chunk.height(), 3);
    assert_eq!(chunk.layers(), 2);
    assert_eq!(chunk.position(), (4, -1));
    assert_eq!(chunk.index(1, 1, 2), 11);
    assert_eq!(chunk.index(1, 0, 0), 3);
    assert_eq!(*chunk.get(1, 1, 2).unwrap(), solid(11));
    assert_eq!(*chunk.get(0, 1, 1).unwrap(), solid(7));
    assert_eq!(*chunk.get_unchecked(1, 0, 2), solid(5));
}

#[test]
fn get_outside_is_none() {
    let chunk = Chunk::from_voxels(1, 1, 1, (0, 0), vec![solid(1)]).unwrap();
    assert_eq!(chunk.get(-1, 0, 0), None);
    assert_eq!(chunk.get(1, 0, 0), None);
    assert_eq!(chunk.get(0, 1, 0), None);
    assert_eq!(chunk.get(0, 0, -1), None);
    assert_eq!(chunk.get(0, 0, 0), Some(&solid(1)));
}

#[test]
fn zero_extent_is_configuration_error() {
    assert_eq!(
        Chunk::from_voxels(0, 1, 1, (0, 0), vec![]).err(),
        Some(WorldError::ConfigurationError)
    );
    assert_eq!(
        Chunk::from_voxels(1, 1, 0, (0, 0), vec![]).err(),
        Some(WorldError::ConfigurationError)
    );
}

#[test]
fn wrong_voxel_count_is_configuration_error() {
    assert_eq!(
        Chunk::from_voxels(2, 2, 1, (0, 0), vec![Voxel::Air; 3]).err(),
        Some(WorldError::ConfigurationError)
    );
}

#[test]
fn oversized_extents_are_configuration_error() {
    assert_eq!(
        Chunk::from_voxels(usize::MAX, 2, 1, (0, 0), vec![]).err(),
        Some(WorldError::ConfigurationError)
    );
    assert_eq!(
        Chunk::from_samples(usize::MAX / 2, 2, 2, (0, 0), &vec![], &vec![]).err(),
        Some(WorldError::ConfigurationError)
    );
}

#[test]
fn clamp_height_bounds() {
    assert_eq!(clamp_height(-3, 8), 0);
    assert_eq!(clamp_height(100, 8), 8);
    assert_eq!(clamp_height(5, 8), 5);
    assert_eq!(clamp_height(8, 8), 8);
    assert_eq!(clamp_height(i64::MIN, 8), 0);
    assert_eq!(clamp_height(i64::MAX, 8), 8);
}

#[test]
fn from_samples_fills_columns_up_to_height() {
    // 2 wide, 1 high, 3 layers; column (x, z) at x * 1 + z.
    let heights = vec![2, -4];
    let shades: Vec<u8> = (10..16).collect();
    let chunk = Chunk::from_samples(2, 1, 3, (0, 0), &heights, &shades).unwrap();
    assert_eq!(*chunk.get(0, 0, 0).unwrap(), solid(10));
    assert_eq!(*chunk.get(0, 1, 0).unwrap(), solid(12));
    assert_eq!(*chunk.get(0, 2, 0).unwrap(), Voxel::Air);
    assert_eq!(*chunk.get(1, 0, 0).unwrap(), Voxel::Air);
    assert_eq!(*chunk.get(1, 1, 0).unwrap(), Voxel::Air);
}

#[test]
fn from_samples_clamps_tall_columns() {
    let heights = vec![1000];
    let shades = vec![9u8; 4];
    let chunk = Chunk::from_samples(1, 1, 4, (0, 0), &heights, &shades).unwrap();
    for y in 0..4 {
        assert_eq!(*chunk.get(0, y, 0).unwrap(), solid(9));
    }
}

#[test]
fn from_samples_wrong_lengths_are_configuration_error() {
    assert_eq!(
        Chunk::from_samples(2, 2, 2, (0, 0), &vec![1, 1, 1], &vec![0; 8]).err(),
        Some(WorldError::ConfigurationError)
    );
    assert_eq!(
        Chunk::from_samples(2, 2, 2, (0, 0), &vec![1, 1, 1, 1], &vec![0; 7]).err(),
        Some(WorldError::ConfigurationError)
    );
}

#[test]
fn generation_is_deterministic() {
    let heights: Vec<i64> = (0..16).map(|i| (i * 7 % 5) as i64 - 1).collect();
    let shades: Vec<u8> = (0..64).map(|i| (i * 37 % 256) as u8).collect();
    let a = Chunk::from_samples(4, 4, 4, (2, 3), &heights, &shades).unwrap();
    let b = Chunk::from_samples(4, 4, 4, (2, 3), &heights, &shades).unwrap();
    for y in 0..4 {
        for x in 0..4 {
            for z in 0..4 {
                assert_eq!(a.get(x, y, z), b.get(x, y, z));
            }
        }
    }
    let ma = Mesh::from_data(&a).unwrap();
    let mb = Mesh::from_data(&b).unwrap();
    assert_eq!(ma.vertices, mb.vertices);
    assert_eq!(ma.indices, mb.indices);
}

#[test]
fn adjacency_at_edge_reads_air() {
    let chunk = Chunk::from_voxels(2, 1, 1, (0, 0), vec![solid(1), solid(2)]).unwrap();
    let adjacency = VoxelAdjacency::build(&chunk, 0, 0, 0);
    assert_eq!(*adjacency.left(), Voxel::Air);
    assert_eq!(*adjacency.get(-1, 0, 0), Voxel::Air);
    assert_eq!(*adjacency.right(), solid(2));
    assert_eq!(*adjacency.center(), solid(1));
    assert_eq!(*adjacency.top(), Voxel::Air);
    assert_eq!(*adjacency.bottom(), Voxel::Air);
    assert_eq!(*adjacency.front(), Voxel::Air);
    assert_eq!(*adjacency.back(), Voxel::Air);
    for i in 0..27 {
        let expected = if i == 13 {
            solid(1)
        } else if i == 16 {
            solid(2)
        } else {
            Voxel::Air
        };
        assert_eq!(*adjacency.get_index_unsafe(i), expected);
    }
}

#[test]
fn adjacency_bottom_is_the_cell_below() {
    // 1 wide, 1 high, 2 layers: solid at y = 0, air at y = 1.
    let chunk = Chunk::from_voxels(1, 1, 2, (0, 0), vec![solid(4), Voxel::Air]).unwrap();
    let adjacency = VoxelAdjacency::build(&chunk, 0, 1, 0);
    assert_eq!(*adjacency.bottom(), solid(4));
    assert_eq!(*adjacency.center(), Voxel::Air);
    let mut slots = [Voxel::Air; 27];
    slots[13] = solid(8);
    let made = VoxelAdjacency::new(slots);
    assert_eq!(*made.center(), solid(8));
    assert_eq!(*made.face(voxel_world::VoxelFace::Top), Voxel::Air);
}

#[test]
fn default_chunk_data_is_air() {
    let data = ChunkData::default();
    assert_eq!(data.voxels.len(), CHUNK_WIDTH * CHUNK_HEIGHT * CHUNK_LAYERS);
    assert!(data.voxels.iter().all(|v| *v == Voxel::Air));
    let chunk = data.into_chunk((1, 1)).unwrap();
    assert_eq!(chunk.layers(), CHUNK_LAYERS);
    let mesh = Mesh::from_data(&chunk).unwrap();
    assert!(mesh.vertices.is_empty());
    assert!(mesh.indices.is_empty());
}

#[test]
fn chunk_data_of_wrong_size_is_configuration_error() {
    let data = ChunkData { voxels: vec![Voxel::Air; 5] };
    assert_eq!(data.into_chunk((0, 0)).err(), Some(WorldError::ConfigurationError));
}
