//! The state and logic of an overlay compositor: windows holding sprites at
//! integer positions and depths, changed by commands from a controller process
//! and composited, deepest last, into frames.
//!
//! - `protocol`: the commands, the notifications and the errors.
//! - `framing`: splitting the byte stream from the controller into frames.
//! - `compositor`: the compositor's state, how each command changes it, and
//!   the redraw pass; `guarantees` proves what holds across commands.
//! - `sprite`, `window`, `depth`, `raster`: sprites and their drawing order,
//!   windows, images and compositing.
//! - `client`: the controller's handles, each call giving one command.

use vstd::prelude::*;

pub mod client;
pub mod compositor;
pub mod depth;
pub mod framing;
pub mod guarantees;
pub mod keyed;
pub mod protocol;
pub mod raster;
pub mod sprite;
pub mod window;

verus! {

/// `indexmap::IndexMap`, held as an opaque value: what a map holds is read
/// through the wrappers of `sprite` and `window`.
#[verifier::external_type_specification]
#[verifier::external_body]
#[verifier::reject_recursive_types(K)]
#[verifier::reject_recursive_types(V)]
#[verifier::reject_recursive_types(S)]
pub struct ExIndexMap<K, V, S>(indexmap::IndexMap<K, V, S>);

} // verus!
