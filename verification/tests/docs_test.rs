//! Tests for documentation parsing and JSDoc rendering.

use gear_mesh::docs::{DocComment, DocSection};

#[test]
fn test_parse_simple() {
    let doc = "This is a simple description.";
    let parsed = DocComment::parse(doc);
    assert_eq!(parsed.summary, "This is a simple description.");
}

#[test]
fn test_parse_with_example() {
    let doc = r#"User information struct

# Examples

```
let user = User::new("Alice");
```
"#;
    let parsed = DocComment::parse(doc);
    assert_eq!(parsed.summary, "User information struct");
    assert_eq!(parsed.examples.len(), 1);
}

#[test]
fn test_to_jsdoc() {
    let doc = DocComment {
        summary: "A user object".to_string(),
        description: None,
        examples: vec!["const user = new User();".to_string()],
        sections: vec![],
    };
    let jsdoc = doc.to_jsdoc();
    assert!(jsdoc.contains("A user object"));
    assert!(jsdoc.contains("@example"));
}

#[test]
fn test_parse_multiline_description() {
    let doc = r#"This is a summary.

This is a detailed description
that spans multiple lines.
"#;
    let parsed = DocComment::parse(doc);
    assert_eq!(parsed.summary, "This is a summary.");
    assert!(parsed.description.is_some());
    assert!(parsed
        .description
        .as_ref()
        .unwrap()
        .contains("detailed description"));
}

#[test]
fn test_parse_multiple_examples() {
    let doc = r#"Summary

# Examples

```
let x = 1;
```

# Examples

```
let y = 2;
```
"#;
    let parsed = DocComment::parse(doc);
    assert_eq!(parsed.examples.len(), 2);
}

#[test]
fn test_parse_custom_sections() {
    let doc = r#"Summary

# Arguments

* `x` - The x coordinate

# Returns

The result value
"#;
    let parsed = DocComment::parse(doc);
    assert_eq!(parsed.sections.len(), 2);
    assert_eq!(parsed.sections[0].name, "Arguments");
    assert_eq!(parsed.sections[1].name, "Returns");
}

#[test]
fn test_to_jsdoc_with_sections() {
    let doc = DocComment {
        summary: "Calculate sum".to_string(),
        description: Some("This function adds two numbers".to_string()),
        examples: vec!["const result = add(1, 2);".to_string()],
        sections: vec![DocSection {
            name: "Returns".to_string(),
            content: "The sum of the two numbers".to_string(),
        }],
    };

    let jsdoc = doc.to_jsdoc();
    assert!(jsdoc.contains("Calculate sum"));
    assert!(jsdoc.contains("This function adds two numbers"));
    assert!(jsdoc.contains("@example"));
    assert!(jsdoc.contains("@returns"));
}

#[test]
fn test_inline_jsdoc_empty() {
    let doc = DocComment::empty();
    let inline = doc.to_inline_jsdoc();
    assert_eq!(inline, "");
}

#[test]
fn test_inline_jsdoc_with_content() {
    let doc = DocComment::summary("A user ID");
    let inline = doc.to_inline_jsdoc();
    assert_eq!(inline, "/** A user ID */");
}

#[test]
fn test_parse_inline_roundtrip() {
    // a summary-only string rendered inline yields the wrapped literal form
    let parsed = DocComment::parse("A user ID");
    assert_eq!(parsed.to_inline_jsdoc(), "/** A user ID */");
}

#[test]
fn test_parse_fence_under_other_section() {
    // a fenced block under a non-example heading joins that section's text
    let doc = r#"Summary

# Usage

Call it like this:

```
run();
```
"#;
    let parsed = DocComment::parse(doc);
    assert_eq!(parsed.examples.len(), 0);
    assert_eq!(parsed.sections.len(), 1);
    assert_eq!(parsed.sections[0].name, "Usage");
    assert!(parsed.sections[0].content.contains("run();"));
}

#[test]
fn test_parse_unterminated_fence() {
    // an unterminated fenced block is treated as closed at end of input
    let doc = "Summary\n\n# Examples\n\n```\nlet x = 1;";
    let parsed = DocComment::parse(doc);
    assert_eq!(parsed.examples.len(), 1);
    assert_eq!(parsed.examples[0], "let x = 1;");
}

#[test]
fn test_parse_blank_line_inside_fence_kept() {
    let doc = "Summary\n\n# Examples\n\n```\nlet x = 1;\n\nlet y = 2;\n```\n";
    let parsed = DocComment::parse(doc);
    assert_eq!(parsed.examples.len(), 1);
    assert_eq!(parsed.examples[0], "let x = 1;\n\nlet y = 2;");
}

#[test]
fn test_to_jsdoc_exact() {
    let doc = DocComment {
        summary: "A point".to_string(),
        description: None,
        examples: vec![],
        sections: vec![],
    };
    assert_eq!(doc.to_jsdoc(), "/**\n * A point\n */");
}
