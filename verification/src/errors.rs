//! The engine's failure taxonomy.
//!
//! Every operation that can fail reports one of these causes. Reading and
//! writing the files themselves happens outside the library, so I/O
//! failures are reported by the embedding application; the causes here are
//! the ones the engine itself decides.

use vstd::prelude::*;

verus! {

/// Why an engine operation refused to produce a result.
#[derive(Clone, Copy, PartialEq, Eq, Structural, Debug)]
pub enum EngineError {
    /// The named profile, server or installed template does not exist.
    NotFound,
    /// A document is not a JSON object where one is required, a required
    /// part of a payload is missing, or a skill file path tries to escape
    /// its target directory.
    MalformedInput,
    /// An install target already exists; nothing is overwritten.
    AlreadyExists,
    /// The process environment refused a step, such as reading the clock.
    Environment,
}

} // verus!
