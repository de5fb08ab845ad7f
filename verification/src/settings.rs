//! The tool-level configuration record, as read from a configuration file,
//! and its projection to a generator configuration.

use vstd::prelude::*;

use crate::config::GeneratorConfig;

verus! {

/// The tool's settings: where to read, where to write, and which generator
/// switches to enable.
#[derive(Debug)]
pub struct Config {
    /// The input directory.
    pub input: String,
    /// The output directory.
    pub output: String,
    /// Represent wide integers as `bigint`.
    pub use_bigint: bool,
    /// Emit branded types for branded newtypes.
    pub generate_branded: bool,
    /// Emit validation guards.
    pub generate_validation: bool,
    /// Emit Zod schemas.
    pub generate_zod: bool,
    /// Emit JSDoc comments.
    pub generate_jsdoc: bool,
    /// The output file name in single-file mode.
    pub output_file: String,
}

impl Default for Config {
    /// Reads from `src`, writes `bindings/types.ts`, with bigint, branding
    /// and JSDoc on and validation and Zod off.
    fn default() -> (r: Self)
        ensures
            r.input@ == "src"@,
            r.output@ == "bindings"@,
            r.use_bigint,
            r.generate_branded,
            !r.generate_validation,
            !r.generate_zod,
            r.generate_jsdoc,
            r.output_file@ == "types.ts"@,
    {
        Self {
            input: String::from_str("src"),
            output: String::from_str("bindings"),
            use_bigint: true,
            generate_branded: true,
            generate_validation: false,
            generate_zod: false,
            generate_jsdoc: true,
            output_file: String::from_str("types.ts"),
        }
    }
}

impl Config {
    /// The generator configuration these settings call for: every switch
    /// carried over, with the standard four-space indent.
    pub fn to_generator_config(&self) -> (r: GeneratorConfig)
        ensures
            r.use_bigint == self.use_bigint,
            r.generate_branded == self.generate_branded,
            r.generate_validation == self.generate_validation,
            r.generate_zod == self.generate_zod,
            r.generate_jsdoc == self.generate_jsdoc,
            r.indent@ == "    "@,
    {
        GeneratorConfig::new().with_bigint(self.use_bigint).with_branded(
            self.generate_branded,
        ).with_validation(self.generate_validation).with_zod(self.generate_zod).with_jsdoc(
            self.generate_jsdoc,
        )
    }
}

} // verus!
