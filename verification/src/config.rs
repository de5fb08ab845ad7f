//! The configuration record a generation run is driven by.

use vstd::prelude::*;

verus! {

/// Switches and formatting for one generation run.
#[derive(Debug)]
pub struct GeneratorConfig {
    /// Represent wide integers as `bigint`.
    pub use_bigint: bool,
    /// Emit the branded-type helper for branded newtypes.
    pub generate_branded: bool,
    /// Emit imperative validation guards.
    pub generate_validation: bool,
    /// Emit Zod schemas.
    pub generate_zod: bool,
    /// Emit JSDoc comments.
    pub generate_jsdoc: bool,
    /// The indentation unit for struct members.
    pub indent: String,
}

impl Clone for GeneratorConfig {
    /// An exact copy.
    fn clone(&self) -> (r: Self)
        ensures
            r == *self,
    {
        Self {
            use_bigint: self.use_bigint,
            generate_branded: self.generate_branded,
            generate_validation: self.generate_validation,
            generate_zod: self.generate_zod,
            generate_jsdoc: self.generate_jsdoc,
            indent: self.indent.clone(),
        }
    }
}

impl Default for GeneratorConfig {
    /// Every switch off and an empty indent unit.
    fn default() -> (r: Self)
        ensures
            !r.use_bigint,
            !r.generate_branded,
            !r.generate_validation,
            !r.generate_zod,
            !r.generate_jsdoc,
            r.indent@.len() == 0,
    {
        Self {
            use_bigint: false,
            generate_branded: false,
            generate_validation: false,
            generate_zod: false,
            generate_jsdoc: false,
            indent: String::new(),
        }
    }
}

impl GeneratorConfig {
    /// The standard configuration: bigint, branding and JSDoc on,
    /// validation and Zod off, four-space indent.
    pub fn new() -> (r: Self)
        ensures
            r.use_bigint,
            r.generate_branded,
            !r.generate_validation,
            !r.generate_zod,
            r.generate_jsdoc,
            r.indent@ == "    "@,
    {
        Self {
            use_bigint: true,
            generate_branded: true,
            generate_validation: false,
            generate_zod: false,
            generate_jsdoc: true,
            indent: String::from_str("    "),
        }
    }

    /// The same configuration with `use_bigint` set to `use_bigint`.
    pub fn with_bigint(self, use_bigint: bool) -> (r: Self)
        ensures
            r == (Self { use_bigint, ..self }),
    {
        Self { use_bigint, ..self }
    }

    /// The same configuration with `generate_branded` set to `generate`.
    pub fn with_branded(self, generate: bool) -> (r: Self)
        ensures
            r == (Self { generate_branded: generate, ..self }),
    {
        Self { generate_branded: generate, ..self }
    }

    /// The same configuration with `generate_validation` set to `generate`.
    pub fn with_validation(self, generate: bool) -> (r: Self)
        ensures
            r == (Self { generate_validation: generate, ..self }),
    {
        Self { generate_validation: generate, ..self }
    }

    /// The same configuration with `generate_zod` set to `generate`.
    pub fn with_zod(self, generate: bool) -> (r: Self)
        ensures
            r == (Self { generate_zod: generate, ..self }),
    {
        Self { generate_zod: generate, ..self }
    }

    /// The same configuration with `generate_jsdoc` set to `generate`.
    pub fn with_jsdoc(self, generate: bool) -> (r: Self)
        ensures
            r == (Self { generate_jsdoc: generate, ..self }),
    {
        Self { generate_jsdoc: generate, ..self }
    }
}

} // verus!
