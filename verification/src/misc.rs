//! Small engine-wide types: frame-rate limits, index formats, rectangles and plugin names.
use vstd::prelude::*;

verus! {

/// How often frames are rendered: at the monitor's refresh rate, or at a fixed rate.
#[derive(Clone, Copy, Debug, PartialEq, Eq)]
pub enum FramerateLimit {
    Auto,
    Fixed(u64),
}

/// The format of index data.
#[derive(Copy, Clone, Debug, PartialEq, Eq)]
pub enum IndexFormat {
    Uint16,
    Uint32,
}

/// An axis-aligned rectangle given by its four edges.
#[derive(Copy, Clone, Debug)]
pub struct Rect<T> {
    pub top: T,
    pub left: T,
    pub bottom: T,
    pub right: T,
}

/// Names the engine's core plugin; what it registers is the application's to do.
pub struct CorePlugin;

/// Names the 2D plugin; what it registers is the application's to do.
pub struct Nova2DPlugin;

/// Names the default group of plugins (the core plugin, then the 2D plugin).
pub struct DefaultPlugins;

} // verus!
