//! A scene/batch accumulation and double-buffering engine for a renderer.
//!
//! Many independent producers submit drawable geometry and per-instance data
//! asynchronously, tagged with a logical frame number. The engine organizes
//! the submissions into named draw batches and guarantees that a consumer
//! always sees one complete, stable frame's worth of instances, even while
//! producers are still mid-submission for the next frame. A small identity
//! registry maps process-wide type identities to short ids for the message
//! dispatch layer that routes submissions here.

pub mod batch;
pub mod geometry;
pub mod model;
pub mod renderer;
pub mod scene;
pub mod type_registry;
