//! Cuboid block models: inheritance resolution, texture indirection, atlas
//! packing, geometry baking, a value-to-record secondary index, and per-chunk
//! mesh assembly.
//!
//! All geometry is exact integer arithmetic. Positions are kept in model
//! units, sixteen units to one block, so a full cube spans `0..=16`. Texture
//! coordinates are kept as exact numerators over a fixed denominator: a baked
//! coordinate `n` on the horizontal axis denotes `n / (16 * atlas_width)`,
//! and likewise vertically, so atlas interpolation loses nothing.
use vstd::prelude::*;

pub mod atlas;
pub mod block;
pub mod block_model;
pub mod block_model_definition;
pub mod index;
pub mod load;
pub mod resolve;
pub mod resource;
pub mod text;
pub mod version;
pub mod world;

verus! {

/// The six axis-aligned face directions of a cuboid element.
#[derive(Clone, Copy, PartialEq, Eq, Structural, Debug, Hash)]
pub enum Direction {
    Down,
    Up,
    North,
    South,
    West,
    East,
}

impl Direction {
    /// The fixed order in which faces are stored and iterated:
    /// down, up, north, south, west, east.
    pub open spec fn as_index(self) -> int {
        match self {
            Direction::Down => 0,
            Direction::Up => 1,
            Direction::North => 2,
            Direction::South => 3,
            Direction::West => 4,
            Direction::East => 5,
        }
    }

    /// Executable form of [`Direction::as_index`].
    pub fn index(self) -> (i: usize)
        ensures
            i == self.as_index(),
    {
        match self {
            Direction::Down => 0,
            Direction::Up => 1,
            Direction::North => 2,
            Direction::South => 3,
            Direction::West => 4,
            Direction::East => 5,
        }
    }

    /// The direction whose [`Direction::as_index`] equals `i`.
    pub open spec fn spec_from_index(i: int) -> Direction {
        if i == 0 {
            Direction::Down
        } else if i == 1 {
            Direction::Up
        } else if i == 2 {
            Direction::North
        } else if i == 3 {
            Direction::South
        } else if i == 4 {
            Direction::West
        } else {
            Direction::East
        }
    }

    /// Executable form of [`Direction::spec_from_index`].
    pub fn from_index(i: usize) -> (d: Direction)
        requires
            i < 6,
        ensures
            d == Direction::spec_from_index(i as int),
            d.as_index() == i,
    {
        if i == 0 {
            Direction::Down
        } else if i == 1 {
            Direction::Up
        } else if i == 2 {
            Direction::North
        } else if i == 3 {
            Direction::South
        } else if i == 4 {
            Direction::West
        } else {
            Direction::East
        }
    }
}

/// The axis of an element rotation.
#[derive(Clone, Copy, PartialEq, Eq, Structural, Debug)]
pub enum Axis {
    X,
    Y,
    Z,
}

/// An integer point or vector in model space, sixteen units to one block.
#[derive(Clone, Copy, PartialEq, Eq, Structural, Debug)]
pub struct Vec3i {
    pub x: i32,
    pub y: i32,
    pub z: i32,
}

/// An exact texture coordinate: numerators over `16 * atlas_width` and
/// `16 * atlas_height`.
#[derive(Clone, Copy, PartialEq, Eq, Structural, Debug)]
pub struct Vec2u {
    pub u: u32,
    pub v: u32,
}

/// Failures of model and texture reference resolution. Each affects one
/// block variant; callers skip that variant and continue.
#[derive(Clone, Copy, PartialEq, Eq, Structural, Debug)]
pub enum ResolutionError {
    /// A texture name was looked up and is absent from the table, or a
    /// resolved image is absent from the atlas.
    UnresolvedTextureReference,
    /// Following texture indirections revisited a name.
    CyclicTextureReference,
    /// A model is reachable as its own ancestor.
    CyclicModelParent,
}

/// Failures of atlas packing. Fatal to the whole texture-load cycle.
#[derive(Clone, Copy, PartialEq, Eq, Structural, Debug)]
pub enum AtlasError {
    /// The images do not fit within the given atlas bounds.
    AtlasOverflow,
}

} // verus!
