use craftmine::block_model::{BlockModel, Texture};
use craftmine::block_model_definition::BlockModelDefinition;
use craftmine::resource::{deserialize, serialize, Image, JsonLoader};

#[test]
fn deserialize_explicit_namespace() {
    let path = deserialize::<BlockModel>("minecraft:block/stone");
    assert_eq!(path, "minecraft/models/block/stone.json");
}

#[test]
fn deserialize_default_namespace() {
    let path = deserialize::<BlockModel>("block/stone");
    assert_eq!(path, "minecraft/models/block/stone.json");
}

#[test]
fn deserialize_custom_namespace_and_kind() {
    let path = deserialize::<BlockModelDefinition>("mymod:oak_door");
    assert_eq!(path, "mymod/blockstates/oak_door.json");
}

#[test]
fn deserialize_texture_kind() {
    let path = deserialize::<Image>("block/stone");
    assert_eq!(path, "minecraft/textures/block/stone.png");
}

#[test]
fn serialize_canonical_path() {
    let loc = serialize::<BlockModel>("minecraft/models/block/stone.json");
    assert_eq!(loc, Some(String::from("minecraft:block/stone")));
}

#[test]
fn serialize_rejects_missing_namespace() {
    assert_eq!(serialize::<BlockModel>("stone.json"), None);
}

#[test]
fn serialize_rejects_wrong_prefix() {
    assert_eq!(serialize::<BlockModel>("minecraft/textures/block/stone.json"), None);
}

#[test]
fn serialize_rejects_wrong_extension() {
    assert_eq!(serialize::<BlockModel>("minecraft/models/block/stone.png"), None);
}

#[test]
fn locator_round_trip() {
    let path = deserialize::<BlockModel>("mymod:entity/chest");
    assert_eq!(serialize::<BlockModel>(path.as_str()), Some(String::from("mymod:entity/chest")));
}

#[test]
fn locator_round_trip_canonicalizes() {
    let path = deserialize::<BlockModel>("block/stone");
    assert_eq!(serialize::<BlockModel>(path.as_str()), Some(String::from("minecraft:block/stone")));
}

#[test]
fn texture_parse_reference() {
    assert!(matches!(Texture::parse("#all"), Texture::Reference(r) if r == "all"));
}

#[test]
fn texture_parse_concrete() {
    assert!(matches!(Texture::parse("block/stone"), Texture::Value(v) if v == "block/stone"));
}

#[test]
fn texture_serialize_round_trip() {
    let t = Texture::parse("#side");
    assert_eq!(t.serialize(), "#side");
    let t = Texture::parse("block/dirt");
    assert_eq!(t.serialize(), "block/dirt");
}

#[test]
fn loader_extension_pattern() {
    let loader: JsonLoader<BlockModel> = Default::default();
    assert_eq!(loader.extension_pattern(), "models.json");
    let loader: JsonLoader<BlockModelDefinition> = Default::default();
    assert_eq!(loader.extension_pattern(), "blockstates.json");
}
