use craftmine::atlas::{AtlasLayout, AtlasRect};
use craftmine::block::{bake_block_model, block_identity};
use craftmine::block_model::{
    BlockElement, BlockElementFace, BlockElementFaces, BlockElementRotation, FaceUv, Texture,
};
use craftmine::{Axis, Direction, ResolutionError, Vec3i};

fn stone_face(cull: Option<Direction>, uv: Option<FaceUv>) -> BlockElementFace {
    BlockElementFace {
        cull,
        texture: Texture::Value(String::from("block/stone")),
        uv,
        rotation: 0,
    }
}

fn full_cube(cull: Option<Direction>, uv: Option<FaceUv>) -> BlockElement {
    BlockElement {
        min: Vec3i { x: 0, y: 0, z: 0 },
        max: Vec3i { x: 16, y: 16, z: 16 },
        rotation: None,
        faces: BlockElementFaces {
            down: Some(stone_face(cull, uv)),
            up: Some(stone_face(cull, uv)),
            north: Some(stone_face(cull, uv)),
            south: Some(stone_face(cull, uv)),
            west: Some(stone_face(cull, uv)),
            east: Some(stone_face(cull, uv)),
        },
    }
}

fn one_stone_atlas() -> AtlasLayout {
    AtlasLayout {
        width: 16,
        height: 16,
        rects: vec![(String::from("block/stone"), AtlasRect { x: 0, y: 0, w: 16, h: 16 })],
    }
}

#[test]
fn full_cube_bakes_into_uncovered_bucket() {
    let atlas = one_stone_atlas();
    let baked = bake_block_model(&atlas, &vec![], &vec![full_cube(None, None)]).unwrap();
    for b in 0..6 {
        assert_eq!(baked.0[b].positions.len(), 0);
        assert_eq!(baked.0[b].normals.len(), 0);
        assert_eq!(baked.0[b].uvs.len(), 0);
    }
    let bucket = &baked.0[6];
    assert_eq!(bucket.positions.len(), 24);
    assert_eq!(bucket.normals.len(), 24);
    assert_eq!(bucket.uvs.len(), 24);
    let units = [
        Vec3i { x: 0, y: -1, z: 0 },
        Vec3i { x: 0, y: 1, z: 0 },
        Vec3i { x: 0, y: 0, z: -1 },
        Vec3i { x: 0, y: 0, z: 1 },
        Vec3i { x: -1, y: 0, z: 0 },
        Vec3i { x: 1, y: 0, z: 0 },
    ];
    for q in 0..6 {
        for k in 0..4 {
            assert_eq!(bucket.normals[4 * q + k], units[q]);
        }
    }
}

#[test]
fn culled_faces_land_in_their_buckets() {
    let atlas = one_stone_atlas();
    let element = BlockElement {
        min: Vec3i { x: 0, y: 0, z: 0 },
        max: Vec3i { x: 16, y: 16, z: 16 },
        rotation: None,
        faces: BlockElementFaces {
            down: Some(stone_face(Some(Direction::Down), None)),
            up: Some(stone_face(Some(Direction::Up), None)),
            north: None,
            south: None,
            west: None,
            east: None,
        },
    };
    let baked = bake_block_model(&atlas, &vec![], &vec![element]).unwrap();
    assert_eq!(baked.0[0].positions.len(), 4);
    assert_eq!(baked.0[1].positions.len(), 4);
    assert_eq!(baked.0[6].positions.len(), 0);
}

#[test]
fn down_face_winding_matches_extents() {
    let atlas = one_stone_atlas();
    let element = BlockElement {
        min: Vec3i { x: 1, y: 2, z: 3 },
        max: Vec3i { x: 4, y: 5, z: 6 },
        rotation: None,
        faces: BlockElementFaces {
            down: Some(stone_face(None, None)),
            up: None,
            north: None,
            south: None,
            west: None,
            east: None,
        },
    };
    let baked = bake_block_model(&atlas, &vec![], &vec![element]).unwrap();
    let bucket = &baked.0[6];
    assert_eq!(bucket.positions[0], Vec3i { x: 1, y: 2, z: 3 });
    assert_eq!(bucket.positions[1], Vec3i { x: 4, y: 2, z: 3 });
    assert_eq!(bucket.positions[2], Vec3i { x: 4, y: 2, z: 6 });
    assert_eq!(bucket.positions[3], Vec3i { x: 1, y: 2, z: 6 });
}

#[test]
fn explicit_uv_maps_to_atlas_rect_corners() {
    // A 64 x 64 atlas whose stone rectangle spans pixels 16..32 wide and
    // 0..16 tall: the normalized rectangle [0.25, 0.0, 0.5, 0.25]. Baked
    // coordinates are numerators over 16 * 64 = 1024.
    let atlas = AtlasLayout {
        width: 64,
        height: 64,
        rects: vec![(String::from("block/stone"), AtlasRect { x: 16, y: 0, w: 16, h: 16 })],
    };
    let uv = FaceUv { u0: 0, v0: 0, u1: 16, v1: 16 };
    let element = BlockElement {
        min: Vec3i { x: 0, y: 0, z: 0 },
        max: Vec3i { x: 16, y: 16, z: 16 },
        rotation: None,
        faces: BlockElementFaces {
            down: None,
            up: None,
            north: Some(stone_face(None, Some(uv))),
            south: None,
            west: None,
            east: None,
        },
    };
    let baked = bake_block_model(&atlas, &vec![], &vec![element]).unwrap();
    let uvs = &baked.0[6].uvs;
    // 0.25 * 1024 = 256, 0.5 * 1024 = 512.
    assert_eq!((uvs[0].u, uvs[0].v), (256, 256));
    assert_eq!((uvs[1].u, uvs[1].v), (512, 256));
    assert_eq!((uvs[2].u, uvs[2].v), (512, 0));
    assert_eq!((uvs[3].u, uvs[3].v), (256, 0));
}

#[test]
fn default_uv_projects_extents() {
    // Without an explicit window the down face projects x and z of the
    // extents; with the whole-atlas rectangle of a 16 x 16 atlas the
    // numerators equal 16 * coordinate.
    let atlas = one_stone_atlas();
    let element = BlockElement {
        min: Vec3i { x: 2, y: 0, z: 4 },
        max: Vec3i { x: 10, y: 16, z: 12 },
        rotation: None,
        faces: BlockElementFaces {
            down: Some(stone_face(None, None)),
            up: None,
            north: None,
            south: None,
            west: None,
            east: None,
        },
    };
    let baked = bake_block_model(&atlas, &vec![], &vec![element]).unwrap();
    let uvs = &baked.0[6].uvs;
    // Local window [2, 4, 10, 12] of 16 over rect 0..16: numerator 16 * t.
    assert_eq!((uvs[3].u, uvs[3].v), (32, 64));
    assert_eq!((uvs[1].u, uvs[1].v), (160, 192));
}

#[test]
fn backwards_uv_window_is_normalized() {
    // A window written backwards is put back in order component-wise, as
    // the reference renderer's rectangle type does, so it bakes the same
    // corners as the forward window.
    let atlas = one_stone_atlas();
    let forward = FaceUv { u0: 0, v0: 0, u1: 16, v1: 16 };
    let backward = FaceUv { u0: 16, v0: 16, u1: 0, v1: 0 };
    let element_with = |uv: FaceUv| BlockElement {
        min: Vec3i { x: 0, y: 0, z: 0 },
        max: Vec3i { x: 16, y: 16, z: 16 },
        rotation: None,
        faces: BlockElementFaces {
            down: None,
            up: None,
            north: Some(stone_face(None, Some(uv))),
            south: None,
            west: None,
            east: None,
        },
    };
    let a = bake_block_model(&atlas, &vec![], &vec![element_with(forward)]).unwrap();
    let b = bake_block_model(&atlas, &vec![], &vec![element_with(backward)]).unwrap();
    assert_eq!(a.0[6].uvs, b.0[6].uvs);
}

#[test]
fn faces_bake_in_direction_order() {
    // Within an element, faces are emitted down, up, north, south, west,
    // east; the first error in that order wins.
    let atlas = one_stone_atlas();
    let mut element = full_cube(None, None);
    element.faces.up = Some(BlockElementFace {
        cull: None,
        texture: Texture::Reference(String::from("loop")),
        uv: None,
        rotation: 0,
    });
    element.faces.east = Some(BlockElementFace {
        cull: None,
        texture: Texture::Reference(String::from("gone")),
        uv: None,
        rotation: 0,
    });
    let table = vec![(String::from("loop"), Texture::Reference(String::from("loop")))];
    assert_eq!(
        bake_block_model(&atlas, &table, &vec![element]).unwrap_err(),
        ResolutionError::CyclicTextureReference
    );
}

#[test]
fn dangling_face_reference_fails_bake() {
    let atlas = one_stone_atlas();
    let mut element = full_cube(None, None);
    element.faces.down = Some(BlockElementFace {
        cull: None,
        texture: Texture::Reference(String::from("missing")),
        uv: None,
        rotation: 0,
    });
    assert_eq!(
        bake_block_model(&atlas, &vec![], &vec![element]).unwrap_err(),
        ResolutionError::UnresolvedTextureReference
    );
}

#[test]
fn texture_absent_from_atlas_fails_bake() {
    let atlas = AtlasLayout { width: 16, height: 16, rects: vec![] };
    assert_eq!(
        bake_block_model(&atlas, &vec![], &vec![full_cube(None, None)]).unwrap_err(),
        ResolutionError::UnresolvedTextureReference
    );
}

#[test]
fn indirect_face_texture_resolves_through_table() {
    let atlas = one_stone_atlas();
    let table = vec![(String::from("all"), Texture::Value(String::from("block/stone")))];
    let mut element = full_cube(None, None);
    element.faces.down = Some(BlockElementFace {
        cull: None,
        texture: Texture::Reference(String::from("all")),
        uv: None,
        rotation: 0,
    });
    assert!(bake_block_model(&atlas, &table, &vec![element]).is_ok());
}

#[test]
fn empty_elements_bake_empty() {
    let atlas = one_stone_atlas();
    let baked = bake_block_model(&atlas, &vec![], &vec![]).unwrap();
    assert_eq!(baked.0.len(), 7);
    for b in 0..7 {
        assert_eq!(baked.0[b].positions.len(), 0);
    }
}

#[test]
fn rotation_rides_on_every_quad() {
    let atlas = one_stone_atlas();
    let rotation = BlockElementRotation {
        origin: Vec3i { x: 8, y: 8, z: 8 },
        axis: Axis::Y,
        angle_decidegrees: 450,
        rescale: false,
    };
    let mut rotated = full_cube(None, None);
    rotated.rotation = Some(rotation);
    let plain = full_cube(None, None);
    let baked = bake_block_model(&atlas, &vec![], &vec![rotated, plain]).unwrap();
    let bucket = &baked.0[6];
    // Twelve quads: six from the rotated element, six from the plain one,
    // one rotation entry each, in emission order.
    assert_eq!(bucket.rotations.len(), 12);
    for q in 0..6 {
        assert_eq!(bucket.rotations[q], Some(rotation));
    }
    for q in 6..12 {
        assert_eq!(bucket.rotations[q], None);
    }
    // The positions themselves stay the unrotated extents; the rotation is
    // applied about its pivot by the float-capable layer.
    assert_eq!(bucket.positions[0], Vec3i { x: 0, y: 0, z: 0 });
}

#[test]
fn block_identity_forms() {
    assert_eq!(block_identity("stone", "").0, "stone");
    assert_eq!(block_identity("oak_log", "axis=y").0, "oak_log[axis=y]");
}
