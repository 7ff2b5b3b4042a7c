//! Handle registries and statement routing for driving an embedded or remote
//! libSQL database from a caller that can only pass plain values across a
//! synchronous call boundary.
//!
//! - `classify`: the leading-keyword tag of a statement, and whether it must
//!   run on the row-returning path.
//! - `handle`: fresh textual handles.
//! - `registry`: a map from handles to entries.
//! - `store`: the four registries and the per-call rules of the dispatcher.
pub mod classify;
pub mod handle;
pub mod registry;
pub mod store;
