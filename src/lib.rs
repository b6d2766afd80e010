pub mod chunk;
pub mod error;
pub mod mesh;
pub mod voxel;

pub use chunk::{clamp_height, Chunk, ChunkData, CHUNK_HEIGHT, CHUNK_LAYERS, CHUNK_WIDTH};
pub use error::WorldError;
pub use mesh::{
    build_voxel, corner_position, face_corners, occlusion_indices, quad_triangles,
    visible_face_count, Mesh, Vertex, INDEX_LIMIT, VERTICAL_ANCHOR,
};
pub use voxel::{Voxel, VoxelAdjacency, VoxelFace};
