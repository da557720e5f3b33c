//! Structural composition metrics over the aggregate types of a Rust source tree.
//!
//! The library works on a plain model of parsed source files (see [`model`]).
//! It builds a symbol table of structs, type aliases and imports
//! ([`extract`]), resolves each field type to a module-qualified name
//! ([`resolve`]), and computes how deeply structs are nested in one another
//! through their fields ([`depth`], [`analysis`]).
//!
//! Beside it stand the depth of trait hierarchies read from source text
//! ([`traits`], on [`text`]), the nesting depth of macro calls ([`macros`]),
//! the state record and instruction checks of a small on-chain program
//! ([`state`], [`program`]), and the choice between a local and a remote
//! source tree ([`source`]).

pub mod model;
pub mod names;
pub mod extract;
pub mod resolve;
pub mod analysis;
pub mod text;
pub mod traits;
pub mod state;
pub mod source;
pub mod macros;
pub mod program;
pub mod depth;
