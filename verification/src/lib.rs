//! gear_mesh: a verified Rust-to-TypeScript type declaration generator.
//!
//! The crate lowers a language-neutral intermediate representation of data
//! types (structs, tagged unions, newtypes, containers) into TypeScript
//! declarations, JSDoc comments, runtime guards and Zod schemas.

pub mod branded;
pub mod config;
pub mod docs;
pub mod files;
pub mod registry;
pub mod settings;
pub mod text;
pub mod type_deps;
pub mod types;
pub mod typescript;
pub mod utils;
pub mod validation;
pub mod validation_gen;

use vstd::prelude::*;

verus! {

/// Types that can describe themselves as an IR node for TypeScript export.
///
/// Implementations are normally produced by an external derive step; the
/// library only consumes the resulting IR values.
pub trait GearMeshExport {
    /// The intermediate representation of this type.
    fn gear_mesh_type() -> crate::types::GearMeshType;

    /// The declared name of this type.
    fn declared_name() -> &'static str;
}

} // verus!
