//! Block models: a texture-variable table, an optional parent, and a list of
//! cuboid elements with per-face texturing, plus resolution of texture
//! references through the table.
use vstd::prelude::*;

use crate::resource::ResourceType;
use crate::text::{str_eq, substring};
use crate::{Axis, Direction, ResolutionError, Vec3i};

verus! {

/// A face's texture: either a concrete image location, or a `#name`
/// indirection into the model's texture table.
#[derive(Debug)]
pub enum Texture {
    /// A concrete image, named by its resource location string.
    Value(String),
    /// A reference to a named entry of the texture table.
    Reference(String),
}

/// Mathematical value of a [`Texture`].
pub enum TextureKind {
    Value(Seq<char>),
    Reference(Seq<char>),
}

impl View for Texture {
    type V = TextureKind;

    open spec fn view(&self) -> TextureKind {
        match self {
            Texture::Value(s) => TextureKind::Value(s@),
            Texture::Reference(s) => TextureKind::Reference(s@),
        }
    }
}

impl Clone for Texture {
    fn clone(&self) -> (r: Self)
        ensures
            r@ == self@,
    {
        match self {
            Texture::Value(s) => Texture::Value(s.clone()),
            Texture::Reference(s) => Texture::Reference(s.clone()),
        }
    }
}

/// The texture that the serialized form `s` denotes: a leading `'#'` marks a
/// reference to a table entry, anything else a concrete image location.
pub open spec fn spec_texture_parse(s: Seq<char>) -> TextureKind {
    if s.len() > 0 && s[0] == '#' {
        TextureKind::Reference(s.subrange(1, s.len() as int))
    } else {
        TextureKind::Value(s)
    }
}

/// The serialized form of a texture: references carry a leading `'#'`.
pub open spec fn spec_texture_serialize(t: TextureKind) -> Seq<char> {
    match t {
        TextureKind::Value(s) => s,
        TextureKind::Reference(s) => seq!['#'] + s,
    }
}

impl Texture {
    /// Reads a texture from its serialized form.
    pub fn parse(s: &str) -> (t: Texture)
        ensures
            t@ == spec_texture_parse(s@),
    {
        proof {
            reveal_strlit("#");
        }
        let len = s.unicode_len();
        if len > 0 && s.get_char(0) == '#' {
            Texture::Reference(substring(s, 1, len))
        } else {
            Texture::Value(s.to_owned())
        }
    }

    /// Writes a texture back to its serialized form.
    pub fn serialize(&self) -> (s: String)
        ensures
            s@ == spec_texture_serialize(self@),
    {
        proof {
            reveal_strlit("#");
            assert("#"@ =~= seq!['#']);
        }
        match self {
            Texture::Value(v) => v.clone(),
            Texture::Reference(r) => {
                let mut s = String::new();
                s.append("#");
                s.append(r.as_str());
                s
            },
        }
    }
}

/// Parsing is the inverse of serialization: a texture written and read back
/// is the same texture. (The converse does not hold in general only because
/// a concrete location starting with `'#'` cannot be written unambiguously.)
pub proof fn lemma_texture_round_trip(t: TextureKind)
    requires
        t matches TextureKind::Value(s) ==> (s.len() == 0 || s[0] != '#'),
    ensures
        spec_texture_parse(spec_texture_serialize(t)) == t,
{
    match t {
        TextureKind::Value(s) => {},
        TextureKind::Reference(s) => {
            assert((seq!['#'] + s).subrange(1, (seq!['#'] + s).len() as int) =~= s);
        },
    }
}

/// The explicit texture window of a face, in model units `0..=16` per axis.
/// `u0, v0` map to the face's first texture corner and `u1, v1` to its
/// opposite corner; a window written backwards mirrors the image.
#[derive(Clone, Copy, PartialEq, Eq, Structural, Debug)]
pub struct FaceUv {
    pub u0: i32,
    pub v0: i32,
    pub u1: i32,
    pub v1: i32,
}

/// One textured face of an element.
#[derive(Debug)]
pub struct BlockElementFace {
    /// The direction whose opaque neighbor hides this face; `None` means the
    /// face is always rendered.
    pub cull: Option<Direction>,
    pub texture: Texture,
    /// Explicit texture window; derived from the element's extents when
    /// absent.
    pub uv: Option<FaceUv>,
    /// Quarter turns applied to the texture, carried through unevaluated.
    pub rotation: u32,
}

/// Mathematical value of a [`BlockElementFace`].
pub struct FaceData {
    pub cull: Option<Direction>,
    pub texture: TextureKind,
    pub uv: Option<FaceUv>,
    pub rotation: u32,
}

impl View for BlockElementFace {
    type V = FaceData;

    open spec fn view(&self) -> FaceData {
        FaceData { cull: self.cull, texture: self.texture@, uv: self.uv, rotation: self.rotation }
    }
}

impl Clone for BlockElementFace {
    fn clone(&self) -> (r: Self)
        ensures
            r@ == self@,
    {
        BlockElementFace {
            cull: self.cull,
            texture: self.texture.clone(),
            uv: self.uv,
            rotation: self.rotation,
        }
    }
}

/// The up-to-six faces of an element, one optional entry per direction.
#[derive(Debug)]
pub struct BlockElementFaces {
    pub down: Option<BlockElementFace>,
    pub up: Option<BlockElementFace>,
    pub north: Option<BlockElementFace>,
    pub south: Option<BlockElementFace>,
    pub west: Option<BlockElementFace>,
    pub east: Option<BlockElementFace>,
}

/// Mathematical value of a [`BlockElementFaces`].
pub struct FacesData {
    pub down: Option<FaceData>,
    pub up: Option<FaceData>,
    pub north: Option<FaceData>,
    pub south: Option<FaceData>,
    pub west: Option<FaceData>,
    pub east: Option<FaceData>,
}

/// The entry of `faces` for direction `d`.
pub open spec fn spec_face_of(faces: FacesData, d: Direction) -> Option<FaceData> {
    match d {
        Direction::Down => faces.down,
        Direction::Up => faces.up,
        Direction::North => faces.north,
        Direction::South => faces.south,
        Direction::West => faces.west,
        Direction::East => faces.east,
    }
}

impl View for BlockElementFaces {
    type V = FacesData;

    open spec fn view(&self) -> FacesData {
        FacesData {
            down: match self.down {
                Some(ref f) => Some(f@),
                None => None,
            },
            up: match self.up {
                Some(ref f) => Some(f@),
                None => None,
            },
            north: match self.north {
                Some(ref f) => Some(f@),
                None => None,
            },
            south: match self.south {
                Some(ref f) => Some(f@),
                None => None,
            },
            west: match self.west {
                Some(ref f) => Some(f@),
                None => None,
            },
            east: match self.east {
                Some(ref f) => Some(f@),
                None => None,
            },
        }
    }
}

impl BlockElementFaces {
    /// All six directions absent.
    pub fn empty() -> (r: BlockElementFaces)
        ensures
            forall|d: Direction| spec_face_of(r@, d) is None,
    {
        BlockElementFaces { down: None, up: None, north: None, south: None, west: None, east: None }
    }

    /// The face for direction `d`, if present.
    pub fn face(&self, d: Direction) -> (r: &Option<BlockElementFace>)
        ensures
            match r {
                Some(f) => spec_face_of(self@, d) == Some(f@),
                None => spec_face_of(self@, d) is None,
            },
    {
        match d {
            Direction::Down => &self.down,
            Direction::Up => &self.up,
            Direction::North => &self.north,
            Direction::South => &self.south,
            Direction::West => &self.west,
            Direction::East => &self.east,
        }
    }
}

fn clone_opt_face(f: &Option<BlockElementFace>) -> (r: Option<BlockElementFace>)
    ensures
        match r {
            Some(rf) => f matches Some(sf) && rf@ == sf@,
            None => f is None,
        },
{
    match f {
        Some(face) => Some(face.clone()),
        None => None,
    }
}

impl Clone for BlockElementFaces {
    fn clone(&self) -> (r: Self)
        ensures
            r@ == self@,
    {
        BlockElementFaces {
            down: clone_opt_face(&self.down),
            up: clone_opt_face(&self.up),
            north: clone_opt_face(&self.north),
            south: clone_opt_face(&self.south),
            west: clone_opt_face(&self.west),
            east: clone_opt_face(&self.east),
        }
    }
}

/// The single-axis rotation of an element. Its trigonometric application to
/// vertices is floating-point work and happens outside the library: baking
/// and meshing carry the descriptor on every quad the element emits, the
/// pivot kept in step with the quad's translation, and the float-capable
/// layer transforms each vertex as `pivot + rotate(vertex - pivot)`.
#[derive(Clone, Copy, PartialEq, Eq, Structural, Debug)]
pub struct BlockElementRotation {
    /// Pivot of the rotation, in model units.
    pub origin: Vec3i,
    pub axis: Axis,
    /// Signed angle in tenths of a degree.
    pub angle_decidegrees: i32,
    pub rescale: bool,
}

/// An axis-aligned cuboid within a model, in model units `0..=16` per axis.
#[derive(Debug)]
pub struct BlockElement {
    pub min: Vec3i,
    pub max: Vec3i,
    pub rotation: Option<BlockElementRotation>,
    pub faces: BlockElementFaces,
}

/// Mathematical value of a [`BlockElement`].
pub struct ElementData {
    pub min: Vec3i,
    pub max: Vec3i,
    pub rotation: Option<BlockElementRotation>,
    pub faces: FacesData,
}

impl View for BlockElement {
    type V = ElementData;

    open spec fn view(&self) -> ElementData {
        ElementData {
            min: self.min,
            max: self.max,
            rotation: self.rotation,
            faces: self.faces@,
        }
    }
}

impl Clone for BlockElement {
    fn clone(&self) -> (r: Self)
        ensures
            r@ == self@,
    {
        BlockElement {
            min: self.min,
            max: self.max,
            rotation: self.rotation,
            faces: self.faces.clone(),
        }
    }
}

/// A model-unit coordinate lies within one block.
pub open spec fn spec_coord_ok(c: i32) -> bool {
    0 <= c <= 16
}

pub open spec fn spec_vec3_ok(v: Vec3i) -> bool {
    spec_coord_ok(v.x) && spec_coord_ok(v.y) && spec_coord_ok(v.z)
}

pub open spec fn spec_face_uv_ok(uv: FaceUv) -> bool {
    spec_coord_ok(uv.u0) && spec_coord_ok(uv.v0) && spec_coord_ok(uv.u1) && spec_coord_ok(uv.v1)
}

/// Well-formedness of an element: extents, rotation pivot and texture
/// windows lie within one block, `0..=16` model units.
pub open spec fn spec_element_ok(e: ElementData) -> bool {
    &&& spec_vec3_ok(e.min)
    &&& spec_vec3_ok(e.max)
    &&& (e.rotation matches Some(r) ==> spec_vec3_ok(r.origin))
    &&& forall|d: Direction|
        #[trigger] spec_face_of(e.faces, d) matches Some(f) ==> (f.uv matches Some(uv)
            ==> spec_face_uv_ok(uv))
}

/// A block model before resolution: its parent's location, its texture
/// table, and its own elements.
#[derive(Debug)]
pub struct BlockModel {
    /// Location string of the parent model, if any.
    pub parent: Option<String>,
    /// Named texture variables, child entries listed in order.
    pub textures: Vec<(String, Texture)>,
    pub elements: Vec<BlockElement>,
}

/// Mathematical value of a [`BlockModel`].
pub struct BlockModelData {
    pub parent: Option<Seq<char>>,
    pub textures: Seq<(Seq<char>, TextureKind)>,
    pub elements: Seq<ElementData>,
}

/// The view of a texture table: names and textures by value.
pub open spec fn spec_table_view(t: Seq<(String, Texture)>) -> Seq<(Seq<char>, TextureKind)> {
    t.map_values(|p: (String, Texture)| (p.0@, p.1@))
}

/// The view of an element list.
pub open spec fn spec_elements_view(e: Seq<BlockElement>) -> Seq<ElementData> {
    e.map_values(|el: BlockElement| el@)
}

impl View for BlockModel {
    type V = BlockModelData;

    open spec fn view(&self) -> BlockModelData {
        BlockModelData {
            parent: match self.parent {
                Some(ref p) => Some(p@),
                None => None,
            },
            textures: spec_table_view(self.textures@),
            elements: spec_elements_view(self.elements@),
        }
    }
}

impl ResourceType for BlockModel {
    open spec fn spec_prefix() -> Seq<char> {
        "models"@
    }

    open spec fn spec_extension() -> Seq<char> {
        "json"@
    }

    fn prefix() -> (s: &'static str) {
        "models"
    }

    fn extension() -> (s: &'static str) {
        "json"
    }
}

/// First-match lookup in a texture table.
pub open spec fn spec_table_lookup(
    table: Seq<(Seq<char>, TextureKind)>,
    name: Seq<char>,
) -> Option<TextureKind>
    decreases table.len(),
{
    if table.len() == 0 {
        None
    } else if table[0].0 == name {
        Some(table[0].1)
    } else {
        spec_table_lookup(table.drop_first(), name)
    }
}

/// Looks `name` up in a texture table; the first match wins.
pub fn table_get<'a>(table: &'a Vec<(String, Texture)>, name: &str) -> (r: Option<&'a Texture>)
    ensures
        match r {
            Some(t) => spec_table_lookup(spec_table_view(table@), name@) == Some(t@),
            None => spec_table_lookup(spec_table_view(table@), name@) is None,
        },
{
    proof {
        assert(spec_table_view(table@).skip(0) =~= spec_table_view(table@));
    }
    let mut i: usize = 0;
    while i < table.len()
        invariant
            i <= table@.len(),
            spec_table_lookup(spec_table_view(table@), name@) == spec_table_lookup(
                spec_table_view(table@).skip(i as int),
                name@,
            ),
        decreases table@.len() - i,
    {
        proof {
            assert(spec_table_view(table@).skip(i as int)[0] == (table@[i as int].0@, table@[
                i as int].1@));
            assert(spec_table_view(table@).skip(i as int).drop_first() =~= spec_table_view(
                table@,
            ).skip(i as int + 1));
        }
        if str_eq(table[i].0.as_str(), name) {
            return Some(&table[i].1);
        }
        i += 1;
    }
    None
}

/// The result of following texture indirections from `t`, giving up with
/// `CyclicTextureReference` once `fuel + 1` lookups have succeeded. With
/// `fuel == table.len()` this is exact reference resolution: every looked-up
/// name that succeeds is a table key, so a chain of `table.len() + 1`
/// successful lookups must revisit a name.
pub open spec fn spec_resolve_texture_fuel(
    t: TextureKind,
    table: Seq<(Seq<char>, TextureKind)>,
    fuel: nat,
) -> Result<Seq<char>, ResolutionError>
    decreases fuel,
{
    match t {
        TextureKind::Value(v) => Ok(v),
        TextureKind::Reference(r) => {
            match spec_table_lookup(table, r) {
                None => Err(ResolutionError::UnresolvedTextureReference),
                Some(t2) => {
                    if fuel == 0 {
                        Err(ResolutionError::CyclicTextureReference)
                    } else {
                        spec_resolve_texture_fuel(t2, table, (fuel - 1) as nat)
                    }
                },
            }
        },
    }
}

/// Exact reference resolution: the concrete image that `t` denotes through
/// `table`, or the error naming why there is none.
pub open spec fn spec_resolve_texture(
    t: TextureKind,
    table: Seq<(Seq<char>, TextureKind)>,
) -> Result<Seq<char>, ResolutionError> {
    spec_resolve_texture_fuel(t, table, table.len())
}

/// Follows texture indirections until a concrete image is reached. Fails
/// with `UnresolvedTextureReference` when a name is absent from the table
/// and with `CyclicTextureReference` when the chain revisits a name.
pub fn resolve_texture(t: &Texture, table: &Vec<(String, Texture)>) -> (r: Result<
    String,
    ResolutionError,
>)
    ensures
        match r {
            Ok(s) => spec_resolve_texture(t@, spec_table_view(table@)) == Ok::<_, ResolutionError>(
                s@,
            ),
            Err(e) => spec_resolve_texture(t@, spec_table_view(table@)) == Err::<Seq<char>, _>(e),
        },
{
    let ghost tbl = spec_table_view(table@);
    let mut fuel: usize = table.len();
    let mut cur: &Texture = t;
    loop
        invariant
            spec_resolve_texture(t@, tbl) == spec_resolve_texture_fuel(cur@, tbl, fuel as nat),
            tbl == spec_table_view(table@),
        decreases fuel,
    {
        match cur {
            Texture::Value(v) => {
                return Ok(v.clone());
            },
            Texture::Reference(name) => {
                match table_get(table, name.as_str()) {
                    None => {
                        return Err(ResolutionError::UnresolvedTextureReference);
                    },
                    Some(t2) => {
                        if fuel == 0 {
                            return Err(ResolutionError::CyclicTextureReference);
                        }
                        cur = t2;
                        fuel -= 1;
                    },
                }
            },
        }
    }
}

} // verus!
