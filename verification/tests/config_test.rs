//! Tests for the tool-level settings record.

use gear_mesh::settings::Config;

#[test]
fn test_config_default() {
    let config = Config::default();
    assert_eq!(config.input, "src");
    assert_eq!(config.output, "bindings");
    assert!(config.use_bigint);
    assert!(config.generate_branded);
    assert!(!config.generate_validation);
    assert!(!config.generate_zod);
    assert!(config.generate_jsdoc);
    assert_eq!(config.output_file, "types.ts");
}

#[test]
fn test_config_to_generator_config() {
    let config = Config {
        input: "src".to_string(),
        output: "bindings".to_string(),
        use_bigint: true,
        generate_branded: true,
        generate_validation: true,
        generate_zod: false,
        generate_jsdoc: true,
        output_file: "types.ts".to_string(),
    };

    let gen_config = config.to_generator_config();
    assert!(gen_config.use_bigint);
    assert!(gen_config.generate_branded);
    assert!(gen_config.generate_validation);
    assert!(!gen_config.generate_zod);
    assert!(gen_config.generate_jsdoc);
    assert_eq!(gen_config.indent, "    ");
}
