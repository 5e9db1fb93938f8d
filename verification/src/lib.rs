//! Cuts a raster image into a grid of fixed-size square emoji tiles and keeps
//! a remote emoji pack in step with the freshly computed tile set.
//!
//! The crate holds the verified core: the tile grid arithmetic, the tiling
//! engine with its blank-row trimming policy, the dialogue state machine that
//! collects the user's inputs step by step, and the reconciler that turns an
//! existing remote pack plus a new tile sequence into an ordered operation
//! plan. Transport to the messaging service lives outside the crate; the
//! image codec is reached through a few trusted wrappers.

pub mod bot_ext;
pub mod codec;
pub mod dialogue;
pub mod grid;
pub mod raster;
pub mod reconcile;
pub mod tiling;
