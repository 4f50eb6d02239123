use craftmine::atlas::{AtlasLayout, AtlasRect};
use craftmine::block::bake_block_model;
use craftmine::block_model::{
    BlockElement, BlockElementFace, BlockElementFaces, BlockElementRotation, Texture,
};
use craftmine::world::{mesh_chunk, mesh_chunks, Chunk};
use craftmine::{Axis, Vec3i};

fn one_stone_atlas() -> AtlasLayout {
    AtlasLayout {
        width: 16,
        height: 16,
        rects: vec![(String::from("block/stone"), AtlasRect { x: 0, y: 0, w: 16, h: 16 })],
    }
}

fn stone_face() -> BlockElementFace {
    BlockElementFace {
        cull: None,
        texture: Texture::Value(String::from("block/stone")),
        uv: None,
        rotation: 0,
    }
}

fn full_cube() -> BlockElement {
    BlockElement {
        min: Vec3i { x: 0, y: 0, z: 0 },
        max: Vec3i { x: 16, y: 16, z: 16 },
        rotation: None,
        faces: BlockElementFaces {
            down: Some(stone_face()),
            up: Some(stone_face()),
            north: Some(stone_face()),
            south: Some(stone_face()),
            west: Some(stone_face()),
            east: Some(stone_face()),
        },
    }
}

#[test]
fn single_stone_cell_meshes_one_cube() {
    let atlas = one_stone_atlas();
    let air = bake_block_model(&atlas, &vec![], &vec![]).unwrap();
    let stone = bake_block_model(&atlas, &vec![], &vec![full_cube()]).unwrap();
    let models = vec![(0u64, air), (1u64, stone)];

    let mut chunk = Chunk::empty();
    for cell in chunk.0.iter_mut() {
        *cell = Some(0);
    }
    chunk.0[0] = Some(1);

    let mesh = mesh_chunk(&chunk, &models);
    assert_eq!(mesh.positions.len(), 24);
    assert_eq!(mesh.normals.len(), 24);
    assert_eq!(mesh.uvs.len(), 24);
    assert_eq!(mesh.indices.len(), 36);
    assert_eq!(&mesh.indices[0..6], &[0, 1, 2, 2, 3, 0]);
    assert_eq!(&mesh.indices[6..12], &[4, 5, 6, 6, 7, 4]);
}

#[test]
fn cell_offset_translates_positions() {
    let atlas = one_stone_atlas();
    let stone = bake_block_model(&atlas, &vec![], &vec![full_cube()]).unwrap();
    let models = vec![(1u64, stone)];

    let mut chunk = Chunk::empty();
    // Cell 1 sits one block along x; cell 16 one block along y; cell 256 one
    // block along z.
    chunk.0[1] = Some(1);
    let mesh = mesh_chunk(&chunk, &models);
    // The down face's first corner of the cube is its minimum, translated by
    // sixteen model units along x.
    assert_eq!(mesh.positions[0], Vec3i { x: 16, y: 0, z: 0 });

    let mut chunk = Chunk::empty();
    chunk.0[16] = Some(1);
    let mesh = mesh_chunk(&chunk, &models);
    assert_eq!(mesh.positions[0], Vec3i { x: 0, y: 16, z: 0 });

    let mut chunk = Chunk::empty();
    chunk.0[256] = Some(1);
    let mesh = mesh_chunk(&chunk, &models);
    assert_eq!(mesh.positions[0], Vec3i { x: 0, y: 0, z: 16 });
}

#[test]
fn mesh_carries_rotations_with_translated_pivots() {
    let atlas = one_stone_atlas();
    let rotation = BlockElementRotation {
        origin: Vec3i { x: 8, y: 0, z: 8 },
        axis: Axis::Y,
        angle_decidegrees: -225,
        rescale: true,
    };
    let mut cube = full_cube();
    cube.rotation = Some(rotation);
    let fence = bake_block_model(&atlas, &vec![], &vec![cube]).unwrap();
    let models = vec![(1u64, fence)];

    let mut chunk = Chunk::empty();
    chunk.0[1] = Some(1);
    let mesh = mesh_chunk(&chunk, &models);
    // Six quads, one rotation entry each; the pivot has moved one block
    // along x with the cell, the rest of the descriptor is untouched.
    assert_eq!(mesh.rotations.len(), 6);
    assert_eq!(
        mesh.rotations[0],
        Some(BlockElementRotation {
            origin: Vec3i { x: 24, y: 0, z: 8 },
            axis: Axis::Y,
            angle_decidegrees: -225,
            rescale: true,
        })
    );
}

#[test]
fn empty_chunk_meshes_empty() {
    let chunk = Chunk::empty();
    let models = vec![];
    let mesh = mesh_chunk(&chunk, &models);
    assert_eq!(mesh.positions.len(), 0);
    assert_eq!(mesh.indices.len(), 0);
}

#[test]
fn many_chunks_mesh_independently() {
    let atlas = one_stone_atlas();
    let stone = bake_block_model(&atlas, &vec![], &vec![full_cube()]).unwrap();
    let models = vec![(1u64, stone)];
    let mut occupied = Chunk::empty();
    occupied.0[5] = Some(1);
    let chunks = vec![Chunk::empty(), occupied];
    let meshes = mesh_chunks(&chunks, &models);
    assert_eq!(meshes.len(), 2);
    assert_eq!(meshes[0].positions.len(), 0);
    assert_eq!(meshes[1].positions.len(), 24);
}
