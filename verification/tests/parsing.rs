use nu_plugin_kdl::{KDL, Mode};

#[test]
fn test_parse_simple_kdl() {
    let input = r#"node1 "value1"
node2 123"#;
    let result = KDL.from(input, Mode::StrictV2);
    assert!(result.is_ok(), "Failed to parse simple KDL: {:?}", result.err().map(|e| e.message()));
}

#[test]
fn test_parse_kdl_with_children() {
    let input = r#"parent {
    child "value"
}"#;
    let result = KDL.from(input, Mode::StrictV2);
    assert!(
        result.is_ok(),
        "Failed to parse KDL with children: {:?}",
        result.err().map(|e| e.message())
    );
}

#[test]
fn test_parse_kdl_v1_properties() {
    // KDL v1 uses key=value syntax
    let input = r#"pane size=1 borderless=true"#;
    let result = KDL.from(input, Mode::StrictV1);
    if let Err(e) = &result {
        println!("Error parsing v1 properties: {}", e.message());
    }
    assert!(
        result.is_ok(),
        "Failed to parse KDL v1 with properties: {:?}",
        result.err().map(|e| e.message())
    );
}

#[test]
fn test_parse_kdl_bare_word() {
    let input = r#"children"#;
    let result = KDL.from(input, Mode::StrictV2);
    if let Err(e) = &result {
        println!("Error parsing bare word: {}", e.message());
    }
    assert!(result.is_ok(), "Failed to parse bare word: {:?}", result.err().map(|e| e.message()));
}

#[test]
fn test_parse_v1_explicit() {
    // KDL v1 syntax with key=value properties
    let input = r#"pane size=1 borderless=true"#;
    let result = KDL.from(input, Mode::StrictV1);
    assert!(result.is_ok(), "Failed to parse KDL v1: {:?}", result.err().map(|e| e.message()));
}

#[test]
fn test_parse_v2_syntax() {
    // KDL v2 syntax - simpler node with arguments
    let input = r#"node "arg1" "arg2""#;
    // Default parse is v2
    let result = KDL.from(input, Mode::StrictV2);
    assert!(result.is_ok(), "Failed to parse KDL v2: {:?}", result.err().map(|e| e.message()));
}

#[test]
fn test_v1_fallback_behavior() {
    // KDL v1 syntax with properties
    let kdl_v1_input = r#"node size=1"#;

    // Test v1 parsing explicitly
    let v1_result = KDL.from(kdl_v1_input, Mode::StrictV1);
    assert!(
        v1_result.is_ok(),
        "V1 parsing should work: {:?}",
        v1_result.err().map(|e| e.message())
    );

    // Try v2 first, fall back to v1
    let fallback_result = KDL.from(kdl_v1_input, Mode::V1Fallback);
    assert!(
        fallback_result.is_ok(),
        "Fallback should work: {:?}",
        fallback_result.err().map(|e| e.message())
    );
}

#[test]
fn test_different_kdl_versions() {
    // Both versions should handle basic nodes fine
    let simple = r#"node "value""#;

    let v1_result = KDL.from(simple, Mode::StrictV1);
    let v2_result = KDL.from(simple, Mode::StrictV2);

    assert!(v1_result.is_ok(), "V1 should parse simple node");
    assert!(v2_result.is_ok(), "V2 should parse simple node");
}
