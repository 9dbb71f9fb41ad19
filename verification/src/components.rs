//! The built-in components games attach to their entities. Only
//! their data lives here; storage and iteration belong to the
//! external entity store.

use vstd::prelude::*;

verus! {

/// The layer an entity is drawn on.
pub type ZLevelID = &'static str;

/// The sprite an entity is drawn with.
pub type SpriteID = u64;

/// An entity that is drawn.
#[derive(Clone, Copy, Debug)]
pub struct Visible {
    pub sprite: SpriteID,
}

/// A position on the tile grid.
#[derive(Clone, Copy, Debug)]
pub struct PositionTiled {
    pub x: u32,
    pub y: u32,
    pub z_level: ZLevelID,
}

/// A viewport over the world, centred with an offset.
#[derive(Clone, Copy, Debug)]
pub struct Camera {
    pub view_range: u16,
    pub offset: (u32, u32),
}

} // verus!
