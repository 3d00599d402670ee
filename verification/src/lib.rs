//! Picture-cache tile invalidation.
//!
//! A scene is cut into tiles whose rasterised pixels are cached. Each frame
//! the engine decides, per tile, whether the cached pixels are still valid,
//! which part has to be drawn again, and why.
//!
//! All coordinates are integers. Picture-space coordinates live on whatever
//! grid the caller chooses, as long as the embedding is monotone; raster-space
//! coordinates are measured in quarter pixels.
//!
//! Beside the invalidation the crate holds a few small things of the same
//! code base: the inputs of patterns and the layout of gradient stops, the
//! generic values of animation properties and of query conditions, the
//! normalization forms, the lines of a manifest of invalidation tests, and
//! the messages of the crash helper with the layout of the Mach messages that
//! carry them.

pub mod animation;
pub mod condition;
pub mod gradient;
pub mod ids;
pub mod invalidation;
pub mod mach;
pub mod manifest;
pub mod messages;
pub mod normalizer;
pub mod pattern;
pub mod units;
pub mod wire;
