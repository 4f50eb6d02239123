use craftmine::block_model::{
    resolve_texture, table_get, BlockElement, BlockElementFaces, BlockModel, Texture,
};
use craftmine::resolve::resolve_block_model;
use craftmine::ResolutionError;

fn model(
    parent: Option<&str>,
    textures: Vec<(&str, Texture)>,
    elements: Vec<BlockElement>,
) -> BlockModel {
    BlockModel {
        parent: parent.map(String::from),
        textures: textures.into_iter().map(|(n, t)| (String::from(n), t)).collect(),
        elements,
    }
}

fn cube_element() -> BlockElement {
    BlockElement {
        min: craftmine::Vec3i { x: 0, y: 0, z: 0 },
        max: craftmine::Vec3i { x: 16, y: 16, z: 16 },
        rotation: None,
        faces: BlockElementFaces::empty(),
    }
}

#[test]
fn merge_priority_child_wins() {
    let store = vec![
        (
            String::from("a"),
            model(
                Some("b"),
                vec![("all", Texture::Value(String::from("block/stone")))],
                vec![],
            ),
        ),
        (
            String::from("b"),
            model(
                None,
                vec![
                    ("all", Texture::Value(String::from("block/dirt"))),
                    ("top", Texture::Value(String::from("block/grass"))),
                ],
                vec![],
            ),
        ),
    ];
    let resolved = resolve_block_model(&store, "a").unwrap();
    assert!(
        matches!(table_get(&resolved.textures, "all"), Some(Texture::Value(v)) if v == "block/stone")
    );
    assert!(
        matches!(table_get(&resolved.textures, "top"), Some(Texture::Value(v)) if v == "block/grass")
    );
    assert!(table_get(&resolved.textures, "side").is_none());
}

#[test]
fn nearest_nonempty_elements_win() {
    let store = vec![
        (String::from("child"), model(Some("mid"), vec![], vec![])),
        (String::from("mid"), model(Some("root"), vec![], vec![cube_element()])),
        (
            String::from("root"),
            model(None, vec![], vec![cube_element(), cube_element()]),
        ),
    ];
    let resolved = resolve_block_model(&store, "child").unwrap();
    assert_eq!(resolved.elements.len(), 1);
}

#[test]
fn grandparent_entries_survive_merge() {
    let store = vec![
        (
            String::from("a"),
            model(Some("b"), vec![("top", Texture::Value(String::from("block/a_top")))], vec![]),
        ),
        (
            String::from("b"),
            model(Some("c"), vec![("top", Texture::Value(String::from("block/b_top")))], vec![]),
        ),
        (
            String::from("c"),
            model(None, vec![("side", Texture::Value(String::from("block/c_side")))], vec![]),
        ),
    ];
    let resolved = resolve_block_model(&store, "a").unwrap();
    assert!(
        matches!(table_get(&resolved.textures, "top"), Some(Texture::Value(v)) if v == "block/a_top")
    );
    assert!(
        matches!(table_get(&resolved.textures, "side"), Some(Texture::Value(v)) if v == "block/c_side")
    );
}

#[test]
fn missing_model_resolves_empty() {
    let store: Vec<(String, BlockModel)> = vec![];
    let resolved = resolve_block_model(&store, "nowhere").unwrap();
    assert!(resolved.textures.is_empty());
    assert!(resolved.elements.is_empty());
}

#[test]
fn acyclic_chain_terminates() {
    let store = vec![
        (String::from("a"), model(Some("b"), vec![], vec![])),
        (String::from("b"), model(Some("c"), vec![], vec![])),
        (String::from("c"), model(None, vec![], vec![])),
    ];
    assert!(resolve_block_model(&store, "a").is_ok());
}

#[test]
fn cyclic_parent_chain_detected() {
    let store = vec![
        (String::from("a"), model(Some("b"), vec![], vec![])),
        (String::from("b"), model(Some("a"), vec![], vec![])),
    ];
    assert_eq!(
        resolve_block_model(&store, "a").unwrap_err(),
        ResolutionError::CyclicModelParent
    );
}

#[test]
fn self_parent_detected() {
    let store = vec![(String::from("a"), model(Some("a"), vec![], vec![]))];
    assert_eq!(
        resolve_block_model(&store, "a").unwrap_err(),
        ResolutionError::CyclicModelParent
    );
}

#[test]
fn indirection_resolves_to_concrete() {
    let table = vec![
        (String::from("side"), Texture::Reference(String::from("all"))),
        (String::from("all"), Texture::Value(String::from("block/stone"))),
    ];
    let r = resolve_texture(&Texture::Reference(String::from("side")), &table);
    assert_eq!(r.unwrap(), "block/stone");
}

#[test]
fn dangling_reference_reported() {
    let table = vec![(String::from("side"), Texture::Reference(String::from("all")))];
    assert_eq!(
        resolve_texture(&Texture::Reference(String::from("side")), &table).unwrap_err(),
        ResolutionError::UnresolvedTextureReference
    );
}

#[test]
fn cyclic_reference_reported() {
    let table = vec![
        (String::from("side"), Texture::Reference(String::from("all"))),
        (String::from("all"), Texture::Reference(String::from("side"))),
    ];
    assert_eq!(
        resolve_texture(&Texture::Reference(String::from("side")), &table).unwrap_err(),
        ResolutionError::CyclicTextureReference
    );
}

#[test]
fn concrete_texture_resolves_to_itself() {
    let table: Vec<(String, Texture)> = vec![];
    let r = resolve_texture(&Texture::Value(String::from("block/dirt")), &table);
    assert_eq!(r.unwrap(), "block/dirt");
}
