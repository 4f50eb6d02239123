use craftmine::atlas::{AtlasLayout, AtlasRect};
use craftmine::block_model::{
    BlockElement, BlockElementFace, BlockElementFaces, BlockModel, Texture,
};
use craftmine::block_model_definition::{primary, BlockModelDefinition, BlockStateModel};
use craftmine::load::load_block_model_definitions;
use craftmine::Vec3i;

fn application(model: &str) -> BlockStateModel {
    BlockStateModel { model: String::from(model), x_rot: 0, y_rot: 0, uv_lock: false }
}

fn cube_model(texture: &str) -> BlockModel {
    let face = |t: &str| BlockElementFace {
        cull: None,
        texture: Texture::Value(String::from(t)),
        uv: None,
        rotation: 0,
    };
    BlockModel {
        parent: None,
        textures: vec![],
        elements: vec![BlockElement {
            min: Vec3i { x: 0, y: 0, z: 0 },
            max: Vec3i { x: 16, y: 16, z: 16 },
            rotation: None,
            faces: BlockElementFaces {
                down: Some(face(texture)),
                up: Some(face(texture)),
                north: None,
                south: None,
                west: None,
                east: None,
            },
        }],
    }
}

fn one_stone_atlas() -> AtlasLayout {
    AtlasLayout {
        width: 16,
        height: 16,
        rects: vec![(String::from("block/stone"), AtlasRect { x: 0, y: 0, w: 16, h: 16 })],
    }
}

#[test]
fn variants_bake_under_their_identities() {
    let store = vec![(String::from("block/stone_model"), cube_model("block/stone"))];
    let atlas = one_stone_atlas();
    let definition = BlockModelDefinition::Simple(vec![
        (String::from(""), vec![application("block/stone_model")]),
        (String::from("lit=true"), vec![application("block/stone_model")]),
    ]);
    let baked = load_block_model_definitions("stone", &definition, &store, &atlas);
    assert_eq!(baked.len(), 2);
    assert_eq!(baked[0].0 .0, "stone");
    assert_eq!(baked[1].0 .0, "stone[lit=true]");
    assert_eq!(baked[0].1 .0[6].positions.len(), 8);
}

#[test]
fn failing_variant_is_skipped() {
    // The second variant's model bakes against a texture the atlas lacks;
    // the batch goes on without it.
    let store = vec![
        (String::from("block/stone_model"), cube_model("block/stone")),
        (String::from("block/gold_model"), cube_model("block/gold")),
    ];
    let atlas = one_stone_atlas();
    let definition = BlockModelDefinition::Simple(vec![
        (String::from("a"), vec![application("block/stone_model")]),
        (String::from("b"), vec![application("block/gold_model")]),
        (String::from("c"), vec![application("block/stone_model")]),
    ]);
    let baked = load_block_model_definitions("ore", &definition, &store, &atlas);
    assert_eq!(baked.len(), 2);
    assert_eq!(baked[0].0 .0, "ore[a]");
    assert_eq!(baked[1].0 .0, "ore[c]");
}

#[test]
fn multipart_definitions_bake_nothing() {
    let store = vec![(String::from("block/stone_model"), cube_model("block/stone"))];
    let atlas = one_stone_atlas();
    let definition = BlockModelDefinition::MultiPart(vec![]);
    let baked = load_block_model_definitions("fence", &definition, &store, &atlas);
    assert_eq!(baked.len(), 0);
}

#[test]
fn first_application_is_authoritative() {
    let apps = vec![application("first"), application("second")];
    assert_eq!(primary(&apps).unwrap().model, "first");
    assert!(primary(&vec![]).is_none());
}
