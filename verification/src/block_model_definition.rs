//! Block-state definitions: the mapping from a block's state string to the
//! model applications that render it.
use vstd::prelude::*;

use crate::resource::ResourceType;

verus! {

/// How one block is rendered: either a table from variant state string to
/// its model applications, or a list of multi-part selectors.
#[derive(Debug)]
pub enum BlockModelDefinition {
    /// Keyed by variant state string. The first application of each list is
    /// authoritative; the rest are weighted alternates.
    Simple(Vec<(String, Vec<BlockStateModel>)>),
    /// Conditional parts. The conditions are carried but not evaluated here.
    MultiPart(Vec<MultiPartSelector>),
}

impl ResourceType for BlockModelDefinition {
    open spec fn spec_prefix() -> Seq<char> {
        "blockstates"@
    }

    open spec fn spec_extension() -> Seq<char> {
        "json"@
    }

    fn prefix() -> (s: &'static str) {
        "blockstates"
    }

    fn extension() -> (s: &'static str) {
        "json"
    }
}

/// One conditional part of a multi-part definition.
#[derive(Debug)]
pub struct MultiPartSelector {
    pub condition: MultiPartCondition,
    pub model: Vec<BlockStateModel>,
}

/// The predicate of a multi-part selector. Its language is not defined
/// here; the value is carried through unevaluated.
#[derive(Clone, Copy, PartialEq, Eq, Structural, Debug)]
pub struct MultiPartCondition;

/// One application of a model to a block state: the model's location and
/// the quarter-turn rotations and UV lock to apply.
#[derive(Debug)]
pub struct BlockStateModel {
    /// Location string of the model to apply.
    pub model: String,
    /// Rotation about the x axis, in degrees, a multiple of 90.
    pub x_rot: u32,
    /// Rotation about the y axis, in degrees, a multiple of 90.
    pub y_rot: u32,
    pub uv_lock: bool,
}

/// Mathematical value of a [`BlockStateModel`].
pub struct BlockStateModelData {
    pub model: Seq<char>,
    pub x_rot: u32,
    pub y_rot: u32,
    pub uv_lock: bool,
}

impl View for BlockStateModel {
    type V = BlockStateModelData;

    open spec fn view(&self) -> BlockStateModelData {
        BlockStateModelData {
            model: self.model@,
            x_rot: self.x_rot,
            y_rot: self.y_rot,
            uv_lock: self.uv_lock,
        }
    }
}

/// The view of one variant table.
pub open spec fn spec_variants_view(v: Seq<(String, Vec<BlockStateModel>)>) -> Seq<
    (Seq<char>, Seq<BlockStateModelData>),
> {
    v.map_values(
        |p: (String, Vec<BlockStateModel>)|
            (p.0@, p.1@.map_values(|m: BlockStateModel| m@)),
    )
}

/// The authoritative application of a variant: the first of its list.
pub fn primary(models: &Vec<BlockStateModel>) -> (r: Option<&BlockStateModel>)
    ensures
        match r {
            Some(m) => models@.len() > 0 && *m == models@[0],
            None => models@.len() == 0,
        },
{
    if models.len() > 0 {
        Some(&models[0])
    } else {
        None
    }
}

} // verus!
