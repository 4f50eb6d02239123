//! Baking: turning a resolved element list, a merged texture table and an
//! atlas layout into flat per-bucket vertex data, ready to concatenate into
//! chunk meshes.
//!
//! Every element face becomes one quad of four vertices, emitted in a fixed
//! winding per direction so the face's outward normal matches its direction,
//! with texture corners in a fixed per-direction order. A quad lands in the
//! bucket of its cull direction, or in the seventh, always-rendered bucket
//! when it has none. An element's rotation, whose trigonometry is float
//! work outside the library, rides along on each quad it emits.
use vstd::prelude::*;

use crate::atlas::{spec_layout_lookup, spec_layout_ok, AtlasLayout, AtlasRect, MAX_ATLAS_DIM};
use crate::block_model::{
    spec_element_ok, spec_face_of, spec_face_uv_ok, spec_resolve_texture, spec_table_view,
    spec_vec3_ok, spec_elements_view, BlockElement, BlockElementFace, BlockElementRotation,
    ElementData, FaceData, FaceUv, Texture, resolve_texture,
};
use crate::text::str_eq;
use crate::{Direction, ResolutionError, Vec2u, Vec3i};

verus! {

/// A block identity: `"<name>"` or `"<name>[<state>]"`, the unique key of
/// one baked variant.
#[derive(Eq, Hash, Debug)]
pub struct Block(pub String);

impl View for Block {
    type V = Seq<char>;

    open spec fn view(&self) -> Seq<char> {
        self.0@
    }
}

impl Clone for Block {
    fn clone(&self) -> (r: Self)
        ensures
            r@ == self@,
    {
        Block(self.0.clone())
    }
}

impl PartialEq for Block {
    fn eq(&self, other: &Block) -> (r: bool)
        ensures
            r == (self@ == other@),
    {
        str_eq(self.0.as_str(), other.0.as_str())
    }
}

impl vstd::std_specs::cmp::PartialEqSpecImpl for Block {
    open spec fn obeys_eq_spec() -> bool {
        true
    }

    open spec fn eq_spec(&self, other: &Block) -> bool {
        self@ == other@
    }
}

/// The identity of one block variant: the bare name for the empty state
/// string, `"<name>[<state>]"` otherwise.
pub open spec fn spec_block_identity(name: Seq<char>, state: Seq<char>) -> Seq<char> {
    if state.len() == 0 {
        name
    } else {
        name + seq!['['] + state + seq![']']
    }
}

/// Forms the identity of one block variant.
pub fn block_identity(name: &str, state: &str) -> (r: Block)
    ensures
        r@ == spec_block_identity(name@, state@),
{
    proof {
        reveal_strlit("[");
        reveal_strlit("]");
        assert("["@ =~= seq!['[']);
        assert("]"@ =~= seq![']']);
    }
    if state.unicode_len() == 0 {
        Block(name.to_owned())
    } else {
        let mut s = String::new();
        s.append(name);
        s.append("[");
        s.append(state);
        s.append("]");
        Block(s)
    }
}

/// One bucket of baked geometry: parallel positions, normals and texture
/// coordinates, four entries per quad, and one rotation entry per quad.
#[derive(Debug)]
pub struct BlockModelFace {
    /// Vertex positions in model units, sixteen to a block.
    pub positions: Vec<Vec3i>,
    /// Unit axis normals, one per vertex, constant across a quad.
    pub normals: Vec<Vec3i>,
    /// Texture coordinates as numerators over `16 * atlas size`.
    pub uvs: Vec<Vec2u>,
    /// The emitting element's rotation, one entry per quad of four
    /// vertices; the float-capable layer applies it about its pivot.
    pub rotations: Vec<Option<BlockElementRotation>>,
}

/// Mathematical value of a [`BlockModelFace`].
pub struct BucketData {
    pub positions: Seq<Vec3i>,
    pub normals: Seq<Vec3i>,
    pub uvs: Seq<Vec2u>,
    pub rotations: Seq<Option<BlockElementRotation>>,
}

impl View for BlockModelFace {
    type V = BucketData;

    open spec fn view(&self) -> BucketData {
        BucketData {
            positions: self.positions@,
            normals: self.normals@,
            uvs: self.uvs@,
            rotations: self.rotations@,
        }
    }
}

/// A baked block model: seven buckets, one per cull direction in
/// [`Direction`] order, and a seventh for always-rendered faces.
#[derive(Debug)]
pub struct BlockModel(pub Vec<BlockModelFace>);

impl View for BlockModel {
    type V = Seq<BucketData>;

    open spec fn view(&self) -> Seq<BucketData> {
        self.0@.map_values(|f: BlockModelFace| f@)
    }
}

/// One baked quad: its bucket choice, four corner positions in winding
/// order, the face normal, four texture corners in matching order, and the
/// emitting element's rotation, still to be applied about its pivot.
#[derive(Clone, Copy, PartialEq, Eq, Structural, Debug)]
pub struct BakedQuad {
    pub cull: Option<Direction>,
    pub p0: Vec3i,
    pub p1: Vec3i,
    pub p2: Vec3i,
    pub p3: Vec3i,
    pub normal: Vec3i,
    pub uv0: Vec2u,
    pub uv1: Vec2u,
    pub uv2: Vec2u,
    pub uv3: Vec2u,
    pub rotation: Option<BlockElementRotation>,
}

/// The bucket a quad lands in: its cull direction's index, or six for none.
pub open spec fn spec_bucket_of(cull: Option<Direction>) -> int {
    match cull {
        Some(d) => d.as_index(),
        None => 6,
    }
}

/// Executable form of [`spec_bucket_of`].
pub fn bucket_of(cull: Option<Direction>) -> (b: usize)
    ensures
        b == spec_bucket_of(cull),
        b < 7,
{
    match cull {
        Some(d) => d.index(),
        None => 6,
    }
}

/// The constant outward normal of each face direction: the direction the
/// winding of [`spec_face_corners`] traces.
pub open spec fn spec_dir_normal(d: Direction) -> Vec3i {
    match d {
        Direction::Down => Vec3i { x: 0, y: -1i32, z: 0 },
        Direction::Up => Vec3i { x: 0, y: 1, z: 0 },
        Direction::North => Vec3i { x: 0, y: 0, z: -1i32 },
        Direction::South => Vec3i { x: 0, y: 0, z: 1 },
        Direction::West => Vec3i { x: -1i32, y: 0, z: 0 },
        Direction::East => Vec3i { x: 1, y: 0, z: 0 },
    }
}

/// The texture window a face uses when it gives none: the element's extents
/// projected onto the face's plane. Down and up project x and z, north and
/// south x and y, west and east z and y.
pub open spec fn spec_default_uv(d: Direction, min: Vec3i, max: Vec3i) -> FaceUv {
    match d {
        Direction::Down => FaceUv { u0: min.x, v0: min.z, u1: max.x, v1: max.z },
        Direction::Up => FaceUv { u0: min.x, v0: min.z, u1: max.x, v1: max.z },
        Direction::North => FaceUv { u0: min.x, v0: min.y, u1: max.x, v1: max.y },
        Direction::South => FaceUv { u0: min.x, v0: min.y, u1: max.x, v1: max.y },
        Direction::West => FaceUv { u0: min.z, v0: min.y, u1: max.z, v1: max.y },
        Direction::East => FaceUv { u0: min.z, v0: min.y, u1: max.z, v1: max.y },
    }
}

/// Linear interpolation of the atlas rectangle's horizontal span at local
/// coordinate `t` of 16: exact, as a numerator over `16 * atlas_width`.
pub open spec fn spec_lerp_u(rect: AtlasRect, t: int) -> int {
    16 * rect.x + rect.w * t
}

/// As [`spec_lerp_u`], vertically, over `16 * atlas_height`.
pub open spec fn spec_lerp_v(rect: AtlasRect, t: int) -> int {
    16 * rect.y + rect.h * t
}

/// The four corner positions of a face, in the fixed winding of its
/// direction.
pub open spec fn spec_face_corners(d: Direction, min: Vec3i, max: Vec3i) -> Seq<Vec3i> {
    match d {
        Direction::Down => seq![
            Vec3i { x: min.x, y: min.y, z: min.z },
            Vec3i { x: max.x, y: min.y, z: min.z },
            Vec3i { x: max.x, y: min.y, z: max.z },
            Vec3i { x: min.x, y: min.y, z: max.z },
        ],
        Direction::Up => seq![
            Vec3i { x: min.x, y: max.y, z: max.z },
            Vec3i { x: max.x, y: max.y, z: max.z },
            Vec3i { x: max.x, y: max.y, z: min.z },
            Vec3i { x: min.x, y: max.y, z: min.z },
        ],
        Direction::North => seq![
            Vec3i { x: max.x, y: min.y, z: min.z },
            Vec3i { x: min.x, y: min.y, z: min.z },
            Vec3i { x: min.x, y: max.y, z: min.z },
            Vec3i { x: max.x, y: max.y, z: min.z },
        ],
        Direction::South => seq![
            Vec3i { x: min.x, y: min.y, z: max.z },
            Vec3i { x: max.x, y: min.y, z: max.z },
            Vec3i { x: max.x, y: max.y, z: max.z },
            Vec3i { x: min.x, y: max.y, z: max.z },
        ],
        Direction::West => seq![
            Vec3i { x: min.x, y: min.y, z: min.z },
            Vec3i { x: min.x, y: min.y, z: max.z },
            Vec3i { x: min.x, y: max.y, z: max.z },
            Vec3i { x: min.x, y: max.y, z: min.z },
        ],
        Direction::East => seq![
            Vec3i { x: max.x, y: min.y, z: max.z },
            Vec3i { x: max.x, y: min.y, z: min.z },
            Vec3i { x: max.x, y: max.y, z: min.z },
            Vec3i { x: max.x, y: max.y, z: max.z },
        ],
    }
}

/// The four texture corners of a face, over the baked window's low and high
/// corners, in the fixed per-direction order that matches
/// [`spec_face_corners`].
pub open spec fn spec_uv_corners(d: Direction, lo: Vec2u, hi: Vec2u) -> Seq<Vec2u> {
    match d {
        Direction::Down => seq![
            Vec2u { u: hi.u, v: lo.v },
            Vec2u { u: hi.u, v: hi.v },
            Vec2u { u: lo.u, v: hi.v },
            Vec2u { u: lo.u, v: lo.v },
        ],
        Direction::West => seq![
            Vec2u { u: hi.u, v: hi.v },
            Vec2u { u: lo.u, v: hi.v },
            Vec2u { u: lo.u, v: lo.v },
            Vec2u { u: hi.u, v: lo.v },
        ],
        _ => seq![
            Vec2u { u: lo.u, v: hi.v },
            Vec2u { u: hi.u, v: hi.v },
            Vec2u { u: hi.u, v: lo.v },
            Vec2u { u: lo.u, v: lo.v },
        ],
    }
}

/// The quad baked for one face: corners of the element's extents in the
/// direction's winding, the direction's normal, the face's texture window
/// interpolated into the atlas rectangle — its low corner taken
/// component-wise, so a window written backwards still yields an ordered
/// rectangle, exactly as the reference renderer's rectangle type does —
/// and the element's rotation, carried for the float-capable layer to
/// apply.
pub open spec fn spec_face_quad(
    min: Vec3i,
    max: Vec3i,
    rot: Option<BlockElementRotation>,
    d: Direction,
    f: FaceData,
    rect: AtlasRect,
) -> BakedQuad {
    let luv = match f.uv {
        Some(uv) => uv,
        None => spec_default_uv(d, min, max),
    };
    let a = spec_lerp_u(rect, luv.u0 as int);
    let c = spec_lerp_u(rect, luv.u1 as int);
    let b = spec_lerp_v(rect, luv.v0 as int);
    let e = spec_lerp_v(rect, luv.v1 as int);
    let lo = Vec2u {
        u: (if a <= c {
            a
        } else {
            c
        }) as u32,
        v: (if b <= e {
            b
        } else {
            e
        }) as u32,
    };
    let hi = Vec2u {
        u: (if a <= c {
            c
        } else {
            a
        }) as u32,
        v: (if b <= e {
            e
        } else {
            b
        }) as u32,
    };
    let ps = spec_face_corners(d, min, max);
    let uvs = spec_uv_corners(d, lo, hi);
    BakedQuad {
        cull: f.cull,
        p0: ps[0],
        p1: ps[1],
        p2: ps[2],
        p3: ps[3],
        normal: spec_dir_normal(d),
        uv0: uvs[0],
        uv1: uvs[1],
        uv2: uvs[2],
        uv3: uvs[3],
        rotation: rot,
    }
}

/// A quad's corner positions, and its rotation pivot if it has one, lie
/// within one block.
pub open spec fn spec_quad_ok(q: BakedQuad) -> bool {
    &&& spec_vec3_ok(q.p0)
    &&& spec_vec3_ok(q.p1)
    &&& spec_vec3_ok(q.p2)
    &&& spec_vec3_ok(q.p3)
    &&& (q.rotation matches Some(r) ==> spec_vec3_ok(r.origin))
}

/// Bakes one face into its quad.
fn make_quad(
    min: Vec3i,
    max: Vec3i,
    rot: Option<BlockElementRotation>,
    d: Direction,
    f: &BlockElementFace,
    rect: AtlasRect,
) -> (q: BakedQuad)
    requires
        spec_vec3_ok(min),
        spec_vec3_ok(max),
        rot matches Some(r) ==> spec_vec3_ok(r.origin),
        f@.uv matches Some(uv) ==> spec_face_uv_ok(uv),
        rect.x + rect.w <= MAX_ATLAS_DIM,
        rect.y + rect.h <= MAX_ATLAS_DIM,
    ensures
        q == spec_face_quad(min, max, rot, d, f@, rect),
        spec_quad_ok(q),
{
    let luv: FaceUv = match f.uv {
        Some(uv) => uv,
        None => match d {
            Direction::Down => FaceUv { u0: min.x, v0: min.z, u1: max.x, v1: max.z },
            Direction::Up => FaceUv { u0: min.x, v0: min.z, u1: max.x, v1: max.z },
            Direction::North => FaceUv { u0: min.x, v0: min.y, u1: max.x, v1: max.y },
            Direction::South => FaceUv { u0: min.x, v0: min.y, u1: max.x, v1: max.y },
            Direction::West => FaceUv { u0: min.z, v0: min.y, u1: max.z, v1: max.y },
            Direction::East => FaceUv { u0: min.z, v0: min.y, u1: max.z, v1: max.y },
        },
    };
    proof {
        assert(spec_face_uv_ok(luv));
    }
    let a: u32 = lerp_u(rect, luv.u0);
    let c: u32 = lerp_u(rect, luv.u1);
    let b: u32 = lerp_v(rect, luv.v0);
    let e: u32 = lerp_v(rect, luv.v1);
    let lo = Vec2u {
        u: if a <= c {
            a
        } else {
            c
        },
        v: if b <= e {
            b
        } else {
            e
        },
    };
    let hi = Vec2u {
        u: if a <= c {
            c
        } else {
            a
        },
        v: if b <= e {
            e
        } else {
            b
        },
    };
    let (p0, p1, p2, p3) = match d {
        Direction::Down => (
            Vec3i { x: min.x, y: min.y, z: min.z },
            Vec3i { x: max.x, y: min.y, z: min.z },
            Vec3i { x: max.x, y: min.y, z: max.z },
            Vec3i { x: min.x, y: min.y, z: max.z },
        ),
        Direction::Up => (
            Vec3i { x: min.x, y: max.y, z: max.z },
            Vec3i { x: max.x, y: max.y, z: max.z },
            Vec3i { x: max.x, y: max.y, z: min.z },
            Vec3i { x: min.x, y: max.y, z: min.z },
        ),
        Direction::North => (
            Vec3i { x: max.x, y: min.y, z: min.z },
            Vec3i { x: min.x, y: min.y, z: min.z },
            Vec3i { x: min.x, y: max.y, z: min.z },
            Vec3i { x: max.x, y: max.y, z: min.z },
        ),
        Direction::South => (
            Vec3i { x: min.x, y: min.y, z: max.z },
            Vec3i { x: max.x, y: min.y, z: max.z },
            Vec3i { x: max.x, y: max.y, z: max.z },
            Vec3i { x: min.x, y: max.y, z: max.z },
        ),
        Direction::West => (
            Vec3i { x: min.x, y: min.y, z: min.z },
            Vec3i { x: min.x, y: min.y, z: max.z },
            Vec3i { x: min.x, y: max.y, z: max.z },
            Vec3i { x: min.x, y: max.y, z: min.z },
        ),
        Direction::East => (
            Vec3i { x: max.x, y: min.y, z: max.z },
            Vec3i { x: max.x, y: min.y, z: min.z },
            Vec3i { x: max.x, y: max.y, z: min.z },
            Vec3i { x: max.x, y: max.y, z: max.z },
        ),
    };
    let (uv0, uv1, uv2, uv3) = match d {
        Direction::Down => (
            Vec2u { u: hi.u, v: lo.v },
            Vec2u { u: hi.u, v: hi.v },
            Vec2u { u: lo.u, v: hi.v },
            Vec2u { u: lo.u, v: lo.v },
        ),
        Direction::West => (
            Vec2u { u: hi.u, v: hi.v },
            Vec2u { u: lo.u, v: hi.v },
            Vec2u { u: lo.u, v: lo.v },
            Vec2u { u: hi.u, v: lo.v },
        ),
        _ => (
            Vec2u { u: lo.u, v: hi.v },
            Vec2u { u: hi.u, v: hi.v },
            Vec2u { u: hi.u, v: lo.v },
            Vec2u { u: lo.u, v: lo.v },
        ),
    };
    BakedQuad {
        cull: f.cull,
        p0,
        p1,
        p2,
        p3,
        normal: dir_normal(d),
        uv0,
        uv1,
        uv2,
        uv3,
        rotation: rot,
    }
}

/// Joins two baking steps: the first error wins, otherwise the quads
/// concatenate in order.
pub open spec fn spec_join(
    a: Result<Seq<BakedQuad>, ResolutionError>,
    b: Result<Seq<BakedQuad>, ResolutionError>,
) -> Result<Seq<BakedQuad>, ResolutionError> {
    match a {
        Err(e) => Err(e),
        Ok(qa) => match b {
            Err(e) => Err(e),
            Ok(qb) => Ok(qa + qb),
        },
    }
}

/// The quads baked for one optional face: none when the face is absent, one
/// quad when its texture resolves to an image the atlas holds, and the
/// resolution error otherwise. An image absent from the atlas counts as
/// unresolved.
pub open spec fn spec_bake_face(
    table: Seq<(Seq<char>, crate::block_model::TextureKind)>,
    atlas: crate::atlas::AtlasLayoutData,
    min: Vec3i,
    max: Vec3i,
    rot: Option<BlockElementRotation>,
    d: Direction,
    fo: Option<FaceData>,
) -> Result<Seq<BakedQuad>, ResolutionError> {
    match fo {
        None => Ok(Seq::empty()),
        Some(f) => match spec_resolve_texture(f.texture, table) {
            Err(e) => Err(e),
            Ok(tex) => match spec_layout_lookup(atlas.rects, tex) {
                None => Err(ResolutionError::UnresolvedTextureReference),
                Some(rect) => Ok(seq![spec_face_quad(min, max, rot, d, f, rect)]),
            },
        },
    }
}

/// The quads baked for the faces of one element from direction index `di`
/// on, in the fixed direction order.
pub open spec fn spec_elem_quads_from(
    table: Seq<(Seq<char>, crate::block_model::TextureKind)>,
    atlas: crate::atlas::AtlasLayoutData,
    e: ElementData,
    di: int,
) -> Result<Seq<BakedQuad>, ResolutionError>
    decreases 6 - di,
{
    if di < 0 || di >= 6 {
        Ok(Seq::empty())
    } else {
        let d = Direction::spec_from_index(di);
        spec_join(
            spec_bake_face(table, atlas, e.min, e.max, e.rotation, d, spec_face_of(e.faces, d)),
            spec_elem_quads_from(table, atlas, e, di + 1),
        )
    }
}

/// The quads baked for the elements from index `i` on, in order.
pub open spec fn spec_bake_from(
    table: Seq<(Seq<char>, crate::block_model::TextureKind)>,
    atlas: crate::atlas::AtlasLayoutData,
    elems: Seq<ElementData>,
    i: int,
) -> Result<Seq<BakedQuad>, ResolutionError>
    decreases elems.len() - i,
{
    if i < 0 || i >= elems.len() {
        Ok(Seq::empty())
    } else {
        spec_join(
            spec_elem_quads_from(table, atlas, elems[i], 0),
            spec_bake_from(table, atlas, elems, i + 1),
        )
    }
}

/// Exact baking: the quads of the whole element list, or the first
/// resolution error hit, faces within an element in direction order and
/// elements in list order.
pub open spec fn spec_bake_quads(
    table: Seq<(Seq<char>, crate::block_model::TextureKind)>,
    atlas: crate::atlas::AtlasLayoutData,
    elems: Seq<ElementData>,
) -> Result<Seq<BakedQuad>, ResolutionError> {
    spec_bake_from(table, atlas, elems, 0)
}

/// The positions of bucket `b`: four corners per quad of that bucket, in
/// emission order.
pub open spec fn spec_bucket_positions(qs: Seq<BakedQuad>, b: int) -> Seq<Vec3i>
    decreases qs.len(),
{
    if qs.len() == 0 {
        Seq::empty()
    } else {
        let prev = spec_bucket_positions(qs.drop_last(), b);
        let q = qs.last();
        if spec_bucket_of(q.cull) == b {
            prev + seq![q.p0, q.p1, q.p2, q.p3]
        } else {
            prev
        }
    }
}

/// The normals of bucket `b`: the quad's normal four times per quad.
pub open spec fn spec_bucket_normals(qs: Seq<BakedQuad>, b: int) -> Seq<Vec3i>
    decreases qs.len(),
{
    if qs.len() == 0 {
        Seq::empty()
    } else {
        let prev = spec_bucket_normals(qs.drop_last(), b);
        let q = qs.last();
        if spec_bucket_of(q.cull) == b {
            prev + seq![q.normal, q.normal, q.normal, q.normal]
        } else {
            prev
        }
    }
}

/// The texture corners of bucket `b`, in the order of its positions.
pub open spec fn spec_bucket_uvs(qs: Seq<BakedQuad>, b: int) -> Seq<Vec2u>
    decreases qs.len(),
{
    if qs.len() == 0 {
        Seq::empty()
    } else {
        let prev = spec_bucket_uvs(qs.drop_last(), b);
        let q = qs.last();
        if spec_bucket_of(q.cull) == b {
            prev + seq![q.uv0, q.uv1, q.uv2, q.uv3]
        } else {
            prev
        }
    }
}

/// The rotations of bucket `b`: one entry per quad, in emission order.
pub open spec fn spec_bucket_rotations(qs: Seq<BakedQuad>, b: int) -> Seq<
    Option<BlockElementRotation>,
>
    decreases qs.len(),
{
    if qs.len() == 0 {
        Seq::empty()
    } else {
        let prev = spec_bucket_rotations(qs.drop_last(), b);
        let q = qs.last();
        if spec_bucket_of(q.cull) == b {
            prev + seq![q.rotation]
        } else {
            prev
        }
    }
}

/// Well-formedness of one bucket: the vertex streams run in parallel, four
/// entries per quad, one rotation entry per quad, every position lies
/// within one block, and so does every rotation pivot.
pub open spec fn spec_bucket_ok(bk: BucketData) -> bool {
    &&& bk.positions.len() == bk.normals.len()
    &&& bk.positions.len() == bk.uvs.len()
    &&& bk.positions.len() % 4 == 0
    &&& bk.positions.len() == 4 * bk.rotations.len()
    &&& forall|i: int| 0 <= i < bk.positions.len() ==> spec_vec3_ok(#[trigger] bk.positions[i])
    &&& forall|i: int|
        0 <= i < bk.rotations.len() ==> (#[trigger] bk.rotations[i] matches Some(r)
            ==> spec_vec3_ok(r.origin))
}

/// Well-formedness of a baked model: exactly seven well-formed buckets.
pub open spec fn spec_baked_ok(m: Seq<BucketData>) -> bool {
    &&& m.len() == 7
    &&& forall|b: int| 0 <= b < 7 ==> spec_bucket_ok(#[trigger] m[b])
}

/// The buckets that a quad list fills.
pub open spec fn spec_buckets_of_quads(qs: Seq<BakedQuad>) -> Seq<BucketData> {
    Seq::new(
        7,
        |b: int| BucketData {
            positions: spec_bucket_positions(qs, b),
            normals: spec_bucket_normals(qs, b),
            uvs: spec_bucket_uvs(qs, b),
            rotations: spec_bucket_rotations(qs, b),
        },
    )
}

/// A looked-up rectangle is one of the layout's rectangles.
proof fn lemma_layout_lookup_member(rects: Seq<(Seq<char>, AtlasRect)>, id: Seq<char>)
    requires
        spec_layout_lookup(rects, id) is Some,
    ensures
        exists|k: int|
            0 <= k < rects.len() && (#[trigger] rects[k]).1 == spec_layout_lookup(rects, id)->Some_0,
    decreases rects.len(),
{
    if rects.len() > 0 && rects[0].0 != id {
        lemma_layout_lookup_member(rects.drop_first(), id);
        let k = choose|k: int|
            0 <= k < rects.drop_first().len() && (#[trigger] rects.drop_first()[k]).1
                == spec_layout_lookup(rects.drop_first(), id)->Some_0;
        assert(rects[k + 1] == rects.drop_first()[k]);
    }
}

/// Bakes a resolved model: every present face of every element becomes one
/// quad, its texture resolved through `textures` and located in `atlas`.
/// Fails with the first face's resolution error, faces taken in direction
/// order within an element and elements in order. On success the seven
/// buckets hold exactly the quads of their cull direction, the seventh those
/// with none.
pub fn bake_block_model(
    atlas: &AtlasLayout,
    textures: &Vec<(String, Texture)>,
    elements: &Vec<BlockElement>,
) -> (r: Result<BlockModel, ResolutionError>)
    requires
        spec_layout_ok(atlas@),
        forall|k: int|
            0 <= k < elements@.len() ==> spec_element_ok(
                #[trigger] spec_elements_view(elements@)[k],
            ),
    ensures
        match r {
            Ok(m) => {
                &&& spec_bake_quads(spec_table_view(textures@), atlas@, spec_elements_view(
                    elements@,
                )) is Ok
                &&& m@ == spec_buckets_of_quads(
                    spec_bake_quads(
                        spec_table_view(textures@),
                        atlas@,
                        spec_elements_view(elements@),
                    )->Ok_0,
                )
                &&& spec_baked_ok(m@)
            },
            Err(e) => spec_bake_quads(spec_table_view(textures@), atlas@, spec_elements_view(
                elements@,
            )) == Err::<Seq<BakedQuad>, _>(e),
        },
{
    let ghost tv = spec_table_view(textures@);
    let ghost av = atlas@;
    let ghost ev = spec_elements_view(elements@);
    let mut quads: Vec<BakedQuad> = Vec::new();
    let mut ei: usize = 0;
    proof {
        assert(Seq::<BakedQuad>::empty() + spec_bake_from(tv, av, ev, 0)->Ok_0 =~= spec_bake_from(
            tv,
            av,
            ev,
            0,
        )->Ok_0);
    }
    while ei < elements.len()
        invariant
            ei <= elements@.len(),
            tv == spec_table_view(textures@),
            av == atlas@,
            ev == spec_elements_view(elements@),
            ev.len() == elements@.len(),
            spec_layout_ok(av),
            forall|k: int| 0 <= k < ev.len() ==> spec_element_ok(#[trigger] ev[k]),
            forall|k: int| 0 <= k < quads@.len() ==> spec_quad_ok(#[trigger] quads@[k]),
            spec_bake_quads(tv, av, ev) == (match spec_bake_from(tv, av, ev, ei as int) {
                Err(e) => Err::<Seq<BakedQuad>, ResolutionError>(e),
                Ok(rest) => Ok(quads@ + rest),
            }),
        decreases elements@.len() - ei,
    {
        let elem = &elements[ei];
        proof {
            assert(ev[ei as int] == elem@);
        }
        let mut di: usize = 0;
        while di < 6
            invariant
                di <= 6,
                ei < elements@.len(),
                tv == spec_table_view(textures@),
                av == atlas@,
                ev == spec_elements_view(elements@),
                ev.len() == elements@.len(),
                ev[ei as int] == elem@,
                elem == &elements[ei as int],
                spec_layout_ok(av),
                spec_element_ok(elem@),
                forall|k: int| 0 <= k < quads@.len() ==> spec_quad_ok(#[trigger] quads@[k]),
                spec_bake_quads(tv, av, ev) == (match spec_join(
                    spec_elem_quads_from(tv, av, elem@, di as int),
                    spec_bake_from(tv, av, ev, ei as int + 1),
                ) {
                    Err(e) => Err::<Seq<BakedQuad>, ResolutionError>(e),
                    Ok(rest) => Ok(quads@ + rest),
                }),
            decreases 6 - di,
        {
            let d = Direction::from_index(di);
            let ghost fo = spec_face_of(elem@.faces, d);
            match elem.faces.face(d) {
                None => {
                    proof {
                        assert(spec_bake_face(tv, av, elem@.min, elem@.max, elem@.rotation, d, fo) == Ok::<
                            Seq<BakedQuad>,
                            ResolutionError,
                        >(Seq::empty()));
                        let tail = spec_elem_quads_from(tv, av, elem@, di as int + 1);
                        if tail is Ok {
                            assert(Seq::<BakedQuad>::empty() + tail->Ok_0 =~= tail->Ok_0);
                        }
                    }
                },
                Some(face) => {
                    let tex = match resolve_texture(&face.texture, textures) {
                        Ok(t) => t,
                        Err(e) => {
                            return Err(e);
                        },
                    };
                    let rect = match atlas.uv_rect(tex.as_str()) {
                        Some(rc) => rc,
                        None => {
                            return Err(ResolutionError::UnresolvedTextureReference);
                        },
                    };
                    proof {
                        lemma_layout_lookup_member(av.rects, tex@);
                    }
                    let q = make_quad(elem.min, elem.max, elem.rotation, d, face, rect);
                    let ghost old_quads = quads@;
                    quads.push(q);
                    proof {
                        let tail = spec_elem_quads_from(tv, av, elem@, di as int + 1);
                        let joined = spec_join(
                            spec_bake_face(tv, av, elem@.min, elem@.max, elem@.rotation, d, fo),
                            tail,
                        );
                        assert(elem@.min == elem.min && elem@.max == elem.max && elem@.rotation
                            == elem.rotation);
                        assert(spec_bake_face(tv, av, elem@.min, elem@.max, elem@.rotation, d, fo) == Ok::<
                            Seq<BakedQuad>,
                            ResolutionError,
                        >(seq![q]));
                        if spec_bake_from(tv, av, ev, ei as int + 1) is Ok && tail is Ok {
                            let rest_o = spec_bake_from(tv, av, ev, ei as int + 1)->Ok_0;
                            assert(old_quads + (seq![q] + tail->Ok_0 + rest_o) =~= quads@ + (
                            tail->Ok_0 + rest_o));
                        }
                    }
                },
            }
            di += 1;
        }
        proof {
            let tail = spec_bake_from(tv, av, ev, ei as int + 1);
            assert(spec_elem_quads_from(tv, av, elem@, 6) == Ok::<Seq<BakedQuad>, ResolutionError>(
                Seq::empty(),
            ));
            if tail is Ok {
                assert(Seq::<BakedQuad>::empty() + tail->Ok_0 =~= tail->Ok_0);
            }
        }
        ei += 1;
    }
    proof {
        assert(quads@ + Seq::<BakedQuad>::empty() =~= quads@);
    }
    let m = bucketize(&quads);
    Ok(m)
}

/// Distributes quads into the seven buckets, preserving emission order
/// within each bucket.
fn bucketize(quads: &Vec<BakedQuad>) -> (m: BlockModel)
    requires
        forall|k: int| 0 <= k < quads@.len() ==> spec_quad_ok(#[trigger] quads@[k]),
    ensures
        m@ == spec_buckets_of_quads(quads@),
        spec_baked_ok(m@),
{
    let mut buckets: Vec<BlockModelFace> = Vec::new();
    let mut b: usize = 0;
    while b < 7
        invariant
            b <= 7,
            buckets@.len() == b,
            forall|k: int| 0 <= k < quads@.len() ==> spec_quad_ok(#[trigger] quads@[k]),
            forall|k: int|
                0 <= k < b ==> (#[trigger] buckets@[k])@ == spec_buckets_of_quads(quads@)[k],
            forall|k: int| 0 <= k < b ==> spec_bucket_ok(#[trigger] buckets@[k]@),
        decreases 7 - b,
    {
        let bucket = fill_bucket(quads, b);
        buckets.push(bucket);
        b += 1;
    }
    let m = BlockModel(buckets);
    proof {
        assert(m@ =~= spec_buckets_of_quads(quads@));
    }
    m
}

/// Collects the quads of one bucket into its parallel streams.
fn fill_bucket(quads: &Vec<BakedQuad>, b: usize) -> (bk: BlockModelFace)
    requires
        b < 7,
        forall|k: int| 0 <= k < quads@.len() ==> spec_quad_ok(#[trigger] quads@[k]),
    ensures
        bk@.positions == spec_bucket_positions(quads@, b as int),
        bk@.normals == spec_bucket_normals(quads@, b as int),
        bk@.uvs == spec_bucket_uvs(quads@, b as int),
        bk@.rotations == spec_bucket_rotations(quads@, b as int),
        spec_bucket_ok(bk@),
{
    let mut positions: Vec<Vec3i> = Vec::new();
    let mut normals: Vec<Vec3i> = Vec::new();
    let mut uvs: Vec<Vec2u> = Vec::new();
    let mut rotations: Vec<Option<BlockElementRotation>> = Vec::new();
    let mut j: usize = 0;
    proof {
        assert(quads@.take(0) =~= Seq::<BakedQuad>::empty());
    }
    while j < quads.len()
        invariant
            j <= quads@.len(),
            b < 7,
            forall|k: int| 0 <= k < quads@.len() ==> spec_quad_ok(#[trigger] quads@[k]),
            positions@ == spec_bucket_positions(quads@.take(j as int), b as int),
            normals@ == spec_bucket_normals(quads@.take(j as int), b as int),
            uvs@ == spec_bucket_uvs(quads@.take(j as int), b as int),
            rotations@ == spec_bucket_rotations(quads@.take(j as int), b as int),
            positions@.len() == normals@.len(),
            positions@.len() == uvs@.len(),
            positions@.len() % 4 == 0,
            positions@.len() == 4 * rotations@.len(),
            forall|i: int| 0 <= i < positions@.len() ==> spec_vec3_ok(#[trigger] positions@[i]),
            forall|i: int|
                0 <= i < rotations@.len() ==> (#[trigger] rotations@[i] matches Some(r)
                    ==> spec_vec3_ok(r.origin)),
        decreases quads@.len() - j,
    {
        proof {
            assert(quads@.take(j as int + 1).drop_last() =~= quads@.take(j as int));
            assert(quads@.take(j as int + 1).last() == quads@[j as int]);
        }
        let q = quads[j];
        if bucket_of(q.cull) == b {
            let ghost old_p = positions@;
            positions.push(q.p0);
            positions.push(q.p1);
            positions.push(q.p2);
            positions.push(q.p3);
            normals.push(q.normal);
            normals.push(q.normal);
            normals.push(q.normal);
            normals.push(q.normal);
            uvs.push(q.uv0);
            uvs.push(q.uv1);
            uvs.push(q.uv2);
            uvs.push(q.uv3);
            rotations.push(q.rotation);
            proof {
                assert(positions@ =~= old_p + seq![q.p0, q.p1, q.p2, q.p3]);
                assert(normals@ =~= spec_bucket_normals(quads@.take(j as int), b as int) + seq![
                    q.normal,
                    q.normal,
                    q.normal,
                    q.normal,
                ]);
                assert(uvs@ =~= spec_bucket_uvs(quads@.take(j as int), b as int) + seq![
                    q.uv0,
                    q.uv1,
                    q.uv2,
                    q.uv3,
                ]);
                assert(rotations@ =~= spec_bucket_rotations(quads@.take(j as int), b as int)
                    + seq![q.rotation]);
            }
        }
        j += 1;
    }
    proof {
        assert(quads@.take(quads@.len() as int) =~= quads@);
    }
    BlockModelFace { positions, normals, uvs, rotations }
}

/// Executable form of [`spec_lerp_u`].
fn lerp_u(rect: AtlasRect, t: i32) -> (r: u32)
    requires
        0 <= t <= 16,
        rect.x + rect.w <= MAX_ATLAS_DIM,
    ensures
        r == spec_lerp_u(rect, t as int),
{
    proof {
        assert((rect.w as int) * (t as int) <= (MAX_ATLAS_DIM as int) * 16) by (nonlinear_arith)
            requires
                rect.w <= MAX_ATLAS_DIM,
                0 <= t <= 16,
        ;
    }
    16 * rect.x + rect.w * (t as u32)
}

/// Executable form of [`spec_lerp_v`].
fn lerp_v(rect: AtlasRect, t: i32) -> (r: u32)
    requires
        0 <= t <= 16,
        rect.y + rect.h <= MAX_ATLAS_DIM,
    ensures
        r == spec_lerp_v(rect, t as int),
{
    proof {
        assert((rect.h as int) * (t as int) <= (MAX_ATLAS_DIM as int) * 16) by (nonlinear_arith)
            requires
                rect.h <= MAX_ATLAS_DIM,
                0 <= t <= 16,
        ;
    }
    16 * rect.y + rect.h * (t as u32)
}

/// Executable form of [`spec_dir_normal`].
fn dir_normal(d: Direction) -> (n: Vec3i)
    ensures
        n == spec_dir_normal(d),
{
    match d {
        Direction::Down => Vec3i { x: 0, y: -1i32, z: 0 },
        Direction::Up => Vec3i { x: 0, y: 1, z: 0 },
        Direction::North => Vec3i { x: 0, y: 0, z: -1i32 },
        Direction::South => Vec3i { x: 0, y: 0, z: 1 },
        Direction::West => Vec3i { x: -1i32, y: 0, z: 0 },
        Direction::East => Vec3i { x: 1, y: 0, z: 0 },
    }
}

} // verus!
