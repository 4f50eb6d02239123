//! Chunk meshing: concatenating the baked geometry of every cell of a fixed
//! 16 x 16 x 16 chunk into one drawable mesh, and triangulating its quads
//! into an index buffer.
use vstd::prelude::*;

use crate::block::{spec_baked_ok, spec_bucket_ok, BlockModel, BlockModelFace, BucketData};
use crate::block_model::BlockElementRotation;
use crate::index::RecordId;
use crate::{Vec2u, Vec3i};

verus! {

/// The number of cells of one chunk.
pub const CHUNK_CELLS: usize = 4096;

/// One chunk: 4096 cells in x, then y, then z order, each holding the
/// record of the block placed there, or nothing.
#[derive(Debug)]
pub struct Chunk(pub Vec<Option<RecordId>>);

impl Chunk {
    /// A chunk is a full 16 x 16 x 16 grid.
    pub open spec fn wf(&self) -> bool {
        self.0@.len() == 4096
    }

    /// A chunk with every cell empty.
    pub fn empty() -> (c: Chunk)
        ensures
            c.wf(),
            forall|i: int| 0 <= i < 4096 ==> c.0@[i] is None,
    {
        let mut cells: Vec<Option<RecordId>> = Vec::new();
        let mut i: usize = 0;
        while i < CHUNK_CELLS
            invariant
                i <= 4096,
                cells@.len() == i,
                forall|j: int| 0 <= j < i ==> cells@[j] is None,
            decreases 4096 - i,
        {
            cells.push(None);
            i += 1;
        }
        Chunk(cells)
    }
}

/// One chunk's worth of drawable geometry: parallel vertex streams, the
/// triangle list over them, and one rotation entry per quad, still to be
/// applied by the float-capable layer.
#[derive(Debug)]
pub struct ChunkMesh {
    /// Vertex positions in model units; one block is sixteen units.
    pub positions: Vec<Vec3i>,
    pub normals: Vec<Vec3i>,
    pub uvs: Vec<Vec2u>,
    /// Triangle corners: two triangles per quad of four vertices.
    pub indices: Vec<u32>,
    /// The emitting element's rotation per quad, its pivot translated to
    /// the quad's cell, so applying it after meshing transforms each of the
    /// quad's vertices as `pivot + rotate(vertex - pivot)`.
    pub rotations: Vec<Option<BlockElementRotation>>,
}

/// The view of a baked-model lookup table.
pub open spec fn spec_models_view(s: Seq<(RecordId, BlockModel)>) -> Seq<(RecordId, Seq<BucketData>)> {
    s.map_values(|p: (RecordId, BlockModel)| (p.0, p.1@))
}

/// First-match lookup of a baked model by record.
pub open spec fn spec_models_lookup(
    models: Seq<(RecordId, Seq<BucketData>)>,
    id: RecordId,
) -> Option<Seq<BucketData>>
    decreases models.len(),
{
    if models.len() == 0 {
        None
    } else if models[0].0 == id {
        Some(models[0].1)
    } else {
        spec_models_lookup(models.drop_first(), id)
    }
}

/// Looks a baked model up by record; the first match wins.
pub fn models_get<'a>(models: &'a Vec<(RecordId, BlockModel)>, id: RecordId) -> (r: Option<
    &'a BlockModel,
>)
    ensures
        match r {
            Some(m) => spec_models_lookup(spec_models_view(models@), id) == Some(m@),
            None => spec_models_lookup(spec_models_view(models@), id) is None,
        },
{
    proof {
        assert(spec_models_view(models@).skip(0) =~= spec_models_view(models@));
    }
    let mut i: usize = 0;
    while i < models.len()
        invariant
            i <= models@.len(),
            spec_models_lookup(spec_models_view(models@), id) == spec_models_lookup(
                spec_models_view(models@).skip(i as int),
                id,
            ),
        decreases models@.len() - i,
    {
        proof {
            assert(spec_models_view(models@).skip(i as int)[0] == (models@[i as int].0, models@[
                i as int].1@));
            assert(spec_models_view(models@).skip(i as int).drop_first() =~= spec_models_view(
                models@,
            ).skip(i as int + 1));
        }
        if models[i].0 == id {
            return Some(&models[i].1);
        }
        i += 1;
    }
    None
}

/// The model-unit offset of cell `i`: sixteen units per block along each
/// axis, cells ordered x first, then y, then z.
pub open spec fn spec_cell_offset(i: int) -> Vec3i {
    Vec3i { x: (16 * (i % 16)) as i32, y: (16 * ((i / 16) % 16)) as i32, z: (16 * ((i / 256)
        % 16)) as i32 }
}

/// A position translated by a cell offset.
pub open spec fn spec_translate(p: Vec3i, off: Vec3i) -> Vec3i {
    Vec3i { x: (p.x + off.x) as i32, y: (p.y + off.y) as i32, z: (p.z + off.z) as i32 }
}

/// A quad rotation carried into the mesh: the pivot moves with the quad's
/// translation, the axis, angle and rescale flag are unchanged.
pub open spec fn spec_translate_rotation(
    ro: Option<BlockElementRotation>,
    off: Vec3i,
) -> Option<BlockElementRotation> {
    match ro {
        None => None,
        Some(r) => Some(
            BlockElementRotation {
                origin: spec_translate(r.origin, off),
                axis: r.axis,
                angle_decidegrees: r.angle_decidegrees,
                rescale: r.rescale,
            },
        ),
    }
}

/// The translated positions of a model's first `b` buckets, concatenated.
pub open spec fn spec_model_positions_upto(m: Seq<BucketData>, b: int, off: Vec3i) -> Seq<Vec3i>
    decreases b,
{
    if b <= 0 {
        Seq::empty()
    } else {
        spec_model_positions_upto(m, b - 1, off) + m[b - 1].positions.map_values(
            |p: Vec3i| spec_translate(p, off),
        )
    }
}

/// The normals of a model's first `b` buckets, concatenated, unchanged.
pub open spec fn spec_model_normals_upto(m: Seq<BucketData>, b: int) -> Seq<Vec3i>
    decreases b,
{
    if b <= 0 {
        Seq::empty()
    } else {
        spec_model_normals_upto(m, b - 1) + m[b - 1].normals
    }
}

/// The texture coordinates of a model's first `b` buckets, concatenated,
/// unchanged.
pub open spec fn spec_model_uvs_upto(m: Seq<BucketData>, b: int) -> Seq<Vec2u>
    decreases b,
{
    if b <= 0 {
        Seq::empty()
    } else {
        spec_model_uvs_upto(m, b - 1) + m[b - 1].uvs
    }
}

/// The per-quad rotations of a model's first `b` buckets, concatenated,
/// pivots translated.
pub open spec fn spec_model_rotations_upto(m: Seq<BucketData>, b: int, off: Vec3i) -> Seq<
    Option<BlockElementRotation>,
>
    decreases b,
{
    if b <= 0 {
        Seq::empty()
    } else {
        spec_model_rotations_upto(m, b - 1, off) + m[b - 1].rotations.map_values(
            |ro: Option<BlockElementRotation>| spec_translate_rotation(ro, off),
        )
    }
}

/// The positions one cell contributes: its model's geometry translated to
/// the cell, or nothing for an empty cell.
pub open spec fn spec_cell_positions(
    cell: Option<RecordId>,
    models: Seq<(RecordId, Seq<BucketData>)>,
    i: int,
) -> Seq<Vec3i> {
    match cell {
        None => Seq::empty(),
        Some(id) => match spec_models_lookup(models, id) {
            None => Seq::empty(),
            Some(m) => spec_model_positions_upto(m, 7, spec_cell_offset(i)),
        },
    }
}

/// As [`spec_cell_positions`], for normals.
pub open spec fn spec_cell_normals(
    cell: Option<RecordId>,
    models: Seq<(RecordId, Seq<BucketData>)>,
) -> Seq<Vec3i> {
    match cell {
        None => Seq::empty(),
        Some(id) => match spec_models_lookup(models, id) {
            None => Seq::empty(),
            Some(m) => spec_model_normals_upto(m, 7),
        },
    }
}

/// As [`spec_cell_positions`], for texture coordinates.
pub open spec fn spec_cell_uvs(
    cell: Option<RecordId>,
    models: Seq<(RecordId, Seq<BucketData>)>,
) -> Seq<Vec2u> {
    match cell {
        None => Seq::empty(),
        Some(id) => match spec_models_lookup(models, id) {
            None => Seq::empty(),
            Some(m) => spec_model_uvs_upto(m, 7),
        },
    }
}

/// As [`spec_cell_positions`], for per-quad rotations; the pivots move with
/// the cell.
pub open spec fn spec_cell_rotations(
    cell: Option<RecordId>,
    models: Seq<(RecordId, Seq<BucketData>)>,
    i: int,
) -> Seq<Option<BlockElementRotation>> {
    match cell {
        None => Seq::empty(),
        Some(id) => match spec_models_lookup(models, id) {
            None => Seq::empty(),
            Some(m) => spec_model_rotations_upto(m, 7, spec_cell_offset(i)),
        },
    }
}

/// The mesh positions of the first `i` cells, in cell order.
pub open spec fn spec_chunk_positions_upto(
    chunk: Seq<Option<RecordId>>,
    models: Seq<(RecordId, Seq<BucketData>)>,
    i: int,
) -> Seq<Vec3i>
    decreases i,
{
    if i <= 0 {
        Seq::empty()
    } else {
        spec_chunk_positions_upto(chunk, models, i - 1) + spec_cell_positions(
            chunk[i - 1],
            models,
            i - 1,
        )
    }
}

/// The mesh normals of the first `i` cells, in cell order.
pub open spec fn spec_chunk_normals_upto(
    chunk: Seq<Option<RecordId>>,
    models: Seq<(RecordId, Seq<BucketData>)>,
    i: int,
) -> Seq<Vec3i>
    decreases i,
{
    if i <= 0 {
        Seq::empty()
    } else {
        spec_chunk_normals_upto(chunk, models, i - 1) + spec_cell_normals(chunk[i - 1], models)
    }
}

/// The mesh texture coordinates of the first `i` cells, in cell order.
pub open spec fn spec_chunk_uvs_upto(
    chunk: Seq<Option<RecordId>>,
    models: Seq<(RecordId, Seq<BucketData>)>,
    i: int,
) -> Seq<Vec2u>
    decreases i,
{
    if i <= 0 {
        Seq::empty()
    } else {
        spec_chunk_uvs_upto(chunk, models, i - 1) + spec_cell_uvs(chunk[i - 1], models)
    }
}

/// The per-quad rotations of the first `i` cells, in cell order.
pub open spec fn spec_chunk_rotations_upto(
    chunk: Seq<Option<RecordId>>,
    models: Seq<(RecordId, Seq<BucketData>)>,
    i: int,
) -> Seq<Option<BlockElementRotation>>
    decreases i,
{
    if i <= 0 {
        Seq::empty()
    } else {
        spec_chunk_rotations_upto(chunk, models, i - 1) + spec_cell_rotations(
            chunk[i - 1],
            models,
            i - 1,
        )
    }
}

/// The whole chunk's mesh positions.
pub open spec fn spec_chunk_positions(
    chunk: Seq<Option<RecordId>>,
    models: Seq<(RecordId, Seq<BucketData>)>,
) -> Seq<Vec3i> {
    spec_chunk_positions_upto(chunk, models, chunk.len() as int)
}

/// The triangle list over `n` quads: quad `q` spans vertices `4q..4q+4` and
/// triangulates as `(4q, 4q+1, 4q+2)` and `(4q+2, 4q+3, 4q)`.
pub open spec fn spec_quad_indices(n: int) -> Seq<u32>
    decreases n,
{
    if n <= 0 {
        Seq::empty()
    } else {
        spec_quad_indices(n - 1) + seq![
            (4 * (n - 1)) as u32,
            (4 * (n - 1) + 1) as u32,
            (4 * (n - 1) + 2) as u32,
            (4 * (n - 1) + 2) as u32,
            (4 * (n - 1) + 3) as u32,
            (4 * (n - 1)) as u32,
        ]
    }
}

/// A cell either is empty or names a record whose well-formed baked model
/// the lookup table holds.
pub open spec fn spec_cells_resolvable(
    chunk: Seq<Option<RecordId>>,
    models: Seq<(RecordId, Seq<BucketData>)>,
) -> bool {
    forall|i: int|
        0 <= i < chunk.len() ==> match #[trigger] chunk[i] {
            None => true,
            Some(id) => match spec_models_lookup(models, id) {
                None => false,
                Some(m) => spec_baked_ok(m),
            },
        }
}

/// Appends one bucket's geometry, positions and rotation pivots translated
/// by `off`.
fn append_bucket(
    positions: &mut Vec<Vec3i>,
    normals: &mut Vec<Vec3i>,
    uvs: &mut Vec<Vec2u>,
    rotations: &mut Vec<Option<BlockElementRotation>>,
    bucket: &BlockModelFace,
    off: Vec3i,
)
    requires
        spec_bucket_ok(bucket@),
        0 <= off.x <= 240,
        0 <= off.y <= 240,
        0 <= off.z <= 240,
    ensures
        final(positions)@ == old(positions)@ + bucket@.positions.map_values(
            |p: Vec3i| spec_translate(p, off),
        ),
        final(normals)@ == old(normals)@ + bucket@.normals,
        final(uvs)@ == old(uvs)@ + bucket@.uvs,
        final(rotations)@ == old(rotations)@ + bucket@.rotations.map_values(
            |ro: Option<BlockElementRotation>| spec_translate_rotation(ro, off),
        ),
{
    let ghost p0 = positions@;
    let ghost n0 = normals@;
    let ghost u0 = uvs@;
    let n = bucket.positions.len();
    let mut k: usize = 0;
    while k < n
        invariant
            k <= n,
            n == bucket@.positions.len(),
            spec_bucket_ok(bucket@),
            0 <= off.x <= 240,
            0 <= off.y <= 240,
            0 <= off.z <= 240,
            positions@.len() == p0.len() + k,
            normals@.len() == n0.len() + k,
            uvs@.len() == u0.len() + k,
            forall|j: int| 0 <= j < p0.len() ==> positions@[j] == p0[j],
            forall|j: int| 0 <= j < n0.len() ==> normals@[j] == n0[j],
            forall|j: int| 0 <= j < u0.len() ==> uvs@[j] == u0[j],
            forall|j: int|
                0 <= j < k ==> positions@[p0.len() + j] == spec_translate(
                    #[trigger] bucket@.positions[j],
                    off,
                ),
            forall|j: int| 0 <= j < k ==> normals@[n0.len() + j] == bucket@.normals[j],
            forall|j: int| 0 <= j < k ==> uvs@[u0.len() + j] == bucket@.uvs[j],
        decreases n - k,
    {
        let p = bucket.positions[k];
        proof {
            assert(spec_vec3_ok_for_bucket(bucket@, k as int));
        }
        positions.push(Vec3i { x: p.x + off.x, y: p.y + off.y, z: p.z + off.z });
        normals.push(bucket.normals[k]);
        uvs.push(bucket.uvs[k]);
        k += 1;
    }
    let ghost r0 = rotations@;
    let nr = bucket.rotations.len();
    let mut k: usize = 0;
    while k < nr
        invariant
            k <= nr,
            nr == bucket@.rotations.len(),
            spec_bucket_ok(bucket@),
            0 <= off.x <= 240,
            0 <= off.y <= 240,
            0 <= off.z <= 240,
            rotations@.len() == r0.len() + k,
            forall|j: int| 0 <= j < r0.len() ==> rotations@[j] == r0[j],
            forall|j: int|
                0 <= j < k ==> rotations@[r0.len() + j] == spec_translate_rotation(
                    #[trigger] bucket@.rotations[j],
                    off,
                ),
        decreases nr - k,
    {
        match bucket.rotations[k] {
            None => {
                rotations.push(None);
            },
            Some(r) => {
                proof {
                    assert(bucket@.rotations[k as int] matches Some(rr) ==> crate::block_model::spec_vec3_ok(
                        rr.origin,
                    ));
                }
                rotations.push(
                    Some(
                        BlockElementRotation {
                            origin: Vec3i {
                                x: r.origin.x + off.x,
                                y: r.origin.y + off.y,
                                z: r.origin.z + off.z,
                            },
                            axis: r.axis,
                            angle_decidegrees: r.angle_decidegrees,
                            rescale: r.rescale,
                        },
                    ),
                );
            },
        }
        k += 1;
    }
    proof {
        assert(positions@ =~= p0 + bucket@.positions.map_values(
            |p: Vec3i| spec_translate(p, off),
        ));
        assert(normals@ =~= n0 + bucket@.normals);
        assert(uvs@ =~= u0 + bucket@.uvs);
        assert(rotations@ =~= r0 + bucket@.rotations.map_values(
            |ro: Option<BlockElementRotation>| spec_translate_rotation(ro, off),
        ));
    }
}

/// Position `k` of a well-formed bucket lies within one block.
spec fn spec_vec3_ok_for_bucket(bk: BucketData, k: int) -> bool {
    0 <= k < bk.positions.len() ==> crate::block_model::spec_vec3_ok(bk.positions[k])
}

/// Appends a whole model's geometry, translated to one cell.
fn append_model(
    positions: &mut Vec<Vec3i>,
    normals: &mut Vec<Vec3i>,
    uvs: &mut Vec<Vec2u>,
    rotations: &mut Vec<Option<BlockElementRotation>>,
    model: &BlockModel,
    off: Vec3i,
)
    requires
        spec_baked_ok(model@),
        0 <= off.x <= 240,
        0 <= off.y <= 240,
        0 <= off.z <= 240,
    ensures
        final(positions)@ == old(positions)@ + spec_model_positions_upto(model@, 7, off),
        final(normals)@ == old(normals)@ + spec_model_normals_upto(model@, 7),
        final(uvs)@ == old(uvs)@ + spec_model_uvs_upto(model@, 7),
        final(rotations)@ == old(rotations)@ + spec_model_rotations_upto(model@, 7, off),
{
    let ghost p0 = positions@;
    let ghost n0 = normals@;
    let ghost u0 = uvs@;
    let ghost r0 = rotations@;
    let mut b: usize = 0;
    proof {
        assert(p0 + Seq::<Vec3i>::empty() =~= p0);
        assert(n0 + Seq::<Vec3i>::empty() =~= n0);
        assert(u0 + Seq::<Vec2u>::empty() =~= u0);
        assert(r0 + Seq::<Option<BlockElementRotation>>::empty() =~= r0);
    }
    while b < 7
        invariant
            b <= 7,
            spec_baked_ok(model@),
            0 <= off.x <= 240,
            0 <= off.y <= 240,
            0 <= off.z <= 240,
            positions@ == p0 + spec_model_positions_upto(model@, b as int, off),
            normals@ == n0 + spec_model_normals_upto(model@, b as int),
            uvs@ == u0 + spec_model_uvs_upto(model@, b as int),
            rotations@ == r0 + spec_model_rotations_upto(model@, b as int, off),
        decreases 7 - b,
    {
        proof {
            assert(model@[b as int] == model.0@[b as int]@);
        }
        append_bucket(positions, normals, uvs, rotations, &model.0[b], off);
        proof {
            let tb = model@[b as int].positions.map_values(|p: Vec3i| spec_translate(p, off));
            let tr = model@[b as int].rotations.map_values(
                |ro: Option<BlockElementRotation>| spec_translate_rotation(ro, off),
            );
            assert(positions@ =~= p0 + (spec_model_positions_upto(model@, b as int, off) + tb));
            assert(normals@ =~= n0 + (spec_model_normals_upto(model@, b as int) + model@[
                b as int].normals));
            assert(uvs@ =~= u0 + (spec_model_uvs_upto(model@, b as int) + model@[b as int].uvs));
            assert(rotations@ =~= r0 + (spec_model_rotations_upto(model@, b as int, off) + tr));
        }
        b += 1;
    }
}

/// Meshes one chunk: appends every cell's baked geometry translated to its
/// cell, in cell order and bucket order, then triangulates the quads. The
/// vertex total must fit the 32-bit index type.
pub fn mesh_chunk(chunk: &Chunk, models: &Vec<(RecordId, BlockModel)>) -> (r: ChunkMesh)
    requires
        chunk.wf(),
        spec_cells_resolvable(chunk.0@, spec_models_view(models@)),
        spec_chunk_positions(chunk.0@, spec_models_view(models@)).len() <= u32::MAX,
    ensures
        r.positions@ == spec_chunk_positions(chunk.0@, spec_models_view(models@)),
        r.normals@ == spec_chunk_normals_upto(chunk.0@, spec_models_view(models@), 4096),
        r.uvs@ == spec_chunk_uvs_upto(chunk.0@, spec_models_view(models@), 4096),
        r.rotations@ == spec_chunk_rotations_upto(chunk.0@, spec_models_view(models@), 4096),
        r.positions@.len() == r.normals@.len(),
        r.positions@.len() == r.uvs@.len(),
        r.positions@.len() % 4 == 0,
        r.positions@.len() == 4 * r.rotations@.len(),
        r.indices@ == spec_quad_indices(r.positions@.len() as int / 4),
        r.indices@.len() == 6 * (r.positions@.len() / 4),
{
    let ghost mv = spec_models_view(models@);
    let mut positions: Vec<Vec3i> = Vec::new();
    let mut normals: Vec<Vec3i> = Vec::new();
    let mut uvs: Vec<Vec2u> = Vec::new();
    let mut rotations: Vec<Option<BlockElementRotation>> = Vec::new();
    let mut i: usize = 0;
    while i < CHUNK_CELLS
        invariant
            i <= 4096,
            chunk.wf(),
            mv == spec_models_view(models@),
            spec_cells_resolvable(chunk.0@, mv),
            positions@ == spec_chunk_positions_upto(chunk.0@, mv, i as int),
            normals@ == spec_chunk_normals_upto(chunk.0@, mv, i as int),
            uvs@ == spec_chunk_uvs_upto(chunk.0@, mv, i as int),
            rotations@ == spec_chunk_rotations_upto(chunk.0@, mv, i as int),
            positions@.len() == normals@.len(),
            positions@.len() == uvs@.len(),
            positions@.len() % 4 == 0,
            positions@.len() == 4 * rotations@.len(),
        decreases 4096 - i,
    {
        let ghost pp = positions@;
        let cell = chunk.0[i];
        match cell {
            None => {
                proof {
                    assert(positions@ =~= pp + spec_cell_positions(chunk.0@[i as int], mv, i as int));
                    assert(normals@ =~= spec_chunk_normals_upto(chunk.0@, mv, i as int)
                        + spec_cell_normals(chunk.0@[i as int], mv));
                    assert(uvs@ =~= spec_chunk_uvs_upto(chunk.0@, mv, i as int) + spec_cell_uvs(
                        chunk.0@[i as int],
                        mv,
                    ));
                    assert(rotations@ =~= spec_chunk_rotations_upto(chunk.0@, mv, i as int)
                        + spec_cell_rotations(chunk.0@[i as int], mv, i as int));
                }
            },
            Some(id) => {
                let m = match models_get(models, id) {
                    Some(m) => m,
                    None => {
                        proof {
                            assert(false);
                        }
                        vstd::pervasive::unreached()
                    },
                };
                let off = cell_offset(i);
                append_model(&mut positions, &mut normals, &mut uvs, &mut rotations, m, off);
                proof {
                    lemma_model_streams_parallel(m@, 7, off);
                    assert(spec_cell_positions(chunk.0@[i as int], mv, i as int)
                        == spec_model_positions_upto(m@, 7, off));
                    assert(spec_cell_normals(chunk.0@[i as int], mv) == spec_model_normals_upto(
                        m@,
                        7,
                    ));
                    assert(spec_cell_uvs(chunk.0@[i as int], mv) == spec_model_uvs_upto(m@, 7));
                    assert(spec_cell_rotations(chunk.0@[i as int], mv, i as int)
                        == spec_model_rotations_upto(m@, 7, off));
                }
            },
        }
        i += 1;
    }
    proof {
        lemma_chunk_positions_monotonic(chunk.0@, mv, i as int, 4096);
    }
    let total = positions.len();
    let nquads = total / 4;
    let mut indices: Vec<u32> = Vec::new();
    let mut q: usize = 0;
    while q < nquads
        invariant
            q <= nquads,
            nquads == positions@.len() / 4,
            positions@.len() % 4 == 0,
            positions@.len() <= u32::MAX,
            indices@ == spec_quad_indices(q as int),
            indices@.len() == 6 * q,
        decreases nquads - q,
    {
        let base = 4 * q;
        indices.push(base as u32);
        indices.push((base + 1) as u32);
        indices.push((base + 2) as u32);
        indices.push((base + 2) as u32);
        indices.push((base + 3) as u32);
        indices.push(base as u32);
        proof {
            assert(indices@ =~= spec_quad_indices(q as int) + seq![
                (4 * q) as u32,
                (4 * q + 1) as u32,
                (4 * q + 2) as u32,
                (4 * q + 2) as u32,
                (4 * q + 3) as u32,
                (4 * q) as u32,
            ]);
        }
        q += 1;
    }
    ChunkMesh { positions, normals, uvs, indices, rotations }
}

/// A well-formed model's vertex streams run in parallel, four entries and
/// one rotation per quad, through any bucket prefix.
proof fn lemma_model_streams_parallel(m: Seq<BucketData>, b: int, off: Vec3i)
    requires
        spec_baked_ok(m),
        0 <= b <= 7,
    ensures
        spec_model_positions_upto(m, b, off).len() == spec_model_normals_upto(m, b).len(),
        spec_model_positions_upto(m, b, off).len() == spec_model_uvs_upto(m, b).len(),
        spec_model_positions_upto(m, b, off).len() % 4 == 0,
        spec_model_positions_upto(m, b, off).len() == 4 * spec_model_rotations_upto(
            m,
            b,
            off,
        ).len(),
    decreases b,
{
    if b > 0 {
        lemma_model_streams_parallel(m, b - 1, off);
    }
}

/// Position prefixes only grow with the cell count.
proof fn lemma_chunk_positions_monotonic(
    chunk: Seq<Option<RecordId>>,
    models: Seq<(RecordId, Seq<BucketData>)>,
    i: int,
    n: int,
)
    requires
        0 <= i <= n,
    ensures
        spec_chunk_positions_upto(chunk, models, i).len() <= spec_chunk_positions_upto(
            chunk,
            models,
            n,
        ).len(),
    decreases n - i,
{
    if i < n {
        lemma_chunk_positions_monotonic(chunk, models, i + 1, n);
    }
}

/// Executable form of [`spec_cell_offset`].
fn cell_offset(i: usize) -> (off: Vec3i)
    requires
        i < 4096,
    ensures
        off == spec_cell_offset(i as int),
        0 <= off.x <= 240,
        0 <= off.y <= 240,
        0 <= off.z <= 240,
{
    let x = (i % 16) * 16;
    let y = ((i / 16) % 16) * 16;
    let z = ((i / 256) % 16) * 16;
    Vec3i { x: x as i32, y: y as i32, z: z as i32 }
}

/// The mesh is exactly the chunk's: the vertex streams and per-quad
/// rotations as specified, parallel and four entries per quad, and the
/// triangle list over them.
pub open spec fn spec_mesh_of_chunk(
    m: ChunkMesh,
    chunk: Seq<Option<RecordId>>,
    models: Seq<(RecordId, Seq<BucketData>)>,
) -> bool {
    &&& m.positions@ == spec_chunk_positions(chunk, models)
    &&& m.normals@ == spec_chunk_normals_upto(chunk, models, chunk.len() as int)
    &&& m.uvs@ == spec_chunk_uvs_upto(chunk, models, chunk.len() as int)
    &&& m.rotations@ == spec_chunk_rotations_upto(chunk, models, chunk.len() as int)
    &&& m.positions@.len() == m.normals@.len()
    &&& m.positions@.len() == m.uvs@.len()
    &&& m.positions@.len() % 4 == 0
    &&& m.positions@.len() == 4 * m.rotations@.len()
    &&& m.indices@ == spec_quad_indices(m.positions@.len() as int / 4)
    &&& m.indices@.len() == 6 * (m.positions@.len() / 4)
}

/// Meshes every chunk of a list, one mesh per chunk.
pub fn mesh_chunks(chunks: &Vec<Chunk>, models: &Vec<(RecordId, BlockModel)>) -> (r: Vec<ChunkMesh>)
    requires
        forall|k: int| 0 <= k < chunks@.len() ==> (#[trigger] chunks@[k]).wf(),
        forall|k: int|
            0 <= k < chunks@.len() ==> spec_cells_resolvable(
                (#[trigger] chunks@[k]).0@,
                spec_models_view(models@),
            ),
        forall|k: int|
            0 <= k < chunks@.len() ==> spec_chunk_positions(
                (#[trigger] chunks@[k]).0@,
                spec_models_view(models@),
            ).len() <= u32::MAX,
    ensures
        r@.len() == chunks@.len(),
        forall|k: int|
            0 <= k < chunks@.len() ==> spec_mesh_of_chunk(
                #[trigger] r@[k],
                chunks@[k].0@,
                spec_models_view(models@),
            ),
{
    let mut out: Vec<ChunkMesh> = Vec::new();
    let mut k: usize = 0;
    while k < chunks.len()
        invariant
            k <= chunks@.len(),
            out@.len() == k,
            forall|j: int| 0 <= j < chunks@.len() ==> (#[trigger] chunks@[j]).wf(),
            forall|j: int|
                0 <= j < chunks@.len() ==> spec_cells_resolvable(
                    (#[trigger] chunks@[j]).0@,
                    spec_models_view(models@),
                ),
            forall|j: int|
                0 <= j < chunks@.len() ==> spec_chunk_positions(
                    (#[trigger] chunks@[j]).0@,
                    spec_models_view(models@),
                ).len() <= u32::MAX,
            forall|j: int|
                0 <= j < k ==> spec_mesh_of_chunk(
                    #[trigger] out@[j],
                    chunks@[j].0@,
                    spec_models_view(models@),
                ),
        decreases chunks@.len() - k,
    {
        let mesh = mesh_chunk(&chunks[k], models);
        out.push(mesh);
        k += 1;
    }
    out
}

} // verus!
