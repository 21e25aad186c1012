//! The bridge to the external script-driven audio engine: block-size
//! adaptation and parameter injection. The engine itself is a collaborator
//! outside this crate; only its call contract is relied on.

pub mod buffer_bridge;
pub mod param_injector;
pub mod ring;

use vstd::prelude::*;

verus! {

/// The external engine's fixed block size, in samples.
pub const GLICOL_BLOCK_SIZE: usize = 128;

} // verus!
