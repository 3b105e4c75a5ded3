use kanbus::content_validation::{extract_code_blocks, validate_code_blocks};

#[test]
fn test_extract_empty_text() {
    let blocks = extract_code_blocks("");
    assert!(blocks.is_empty());
}

#[test]
fn test_extract_no_code_blocks() {
    let blocks = extract_code_blocks("Just some text\nwithout code blocks.");
    assert!(blocks.is_empty());
}

#[test]
fn test_extract_single_json_block() {
    let text = "Before\n```json\n{\"key\": \"value\"}\n```\nAfter";
    let blocks = extract_code_blocks(text);
    assert_eq!(blocks.len(), 1);
    assert_eq!(blocks[0].language, "json");
    assert_eq!(blocks[0].content, "{\"key\": \"value\"}");
    assert_eq!(blocks[0].start_line, 2);
}

#[test]
fn test_extract_multiple_blocks() {
    let text = "```json\n{}\n```\n\n```yaml\nkey: value\n```";
    let blocks = extract_code_blocks(text);
    assert_eq!(blocks.len(), 2);
    assert_eq!(blocks[0].language, "json");
    assert_eq!(blocks[1].language, "yaml");
}

#[test]
fn test_extract_block_without_language() {
    let text = "```\nplain text\n```";
    let blocks = extract_code_blocks(text);
    assert_eq!(blocks.len(), 1);
    assert_eq!(blocks[0].language, "");
}

#[test]
fn test_validate_valid_json() {
    let text = "```json\n{\"key\": \"value\"}\n```";
    assert!(validate_code_blocks(text).is_ok());
}

#[test]
fn test_validate_invalid_json() {
    let text = "```json\n{bad json\n```";
    let result = validate_code_blocks(text);
    assert!(result.is_err());
    let message = result.unwrap_err().to_string();
    assert!(message.contains("invalid json"));
    assert!(message.contains("code block"));
}

#[test]
fn test_validate_valid_yaml() {
    let text = "```yaml\nkey: value\nlist:\n  - one\n```";
    assert!(validate_code_blocks(text).is_ok());
}

#[test]
fn test_validate_invalid_yaml() {
    let text = "```yaml\nkey: value\n  bad: indentation\n```";
    let result = validate_code_blocks(text);
    assert!(result.is_err());
    let message = result.unwrap_err().to_string();
    assert!(message.contains("invalid yaml"));
    assert!(message.contains("code block"));
}

#[test]
fn test_validate_valid_gherkin() {
    let text = "```gherkin\nFeature: Test\n  Scenario: Works\n    Given something\n```";
    assert!(validate_code_blocks(text).is_ok());
}

#[test]
fn test_validate_invalid_gherkin() {
    let text = "```gherkin\nThis is not valid gherkin\n```";
    let result = validate_code_blocks(text);
    assert!(result.is_err());
    let message = result.unwrap_err().to_string();
    assert!(message.contains("invalid gherkin"));
    assert!(message.contains("code block"));
}

#[test]
fn test_unknown_language_passes() {
    let text = "```python\ndef broken(: pass\n```";
    assert!(validate_code_blocks(text).is_ok());
}

#[test]
fn test_no_language_passes() {
    let text = "```\n{{{ not valid anything\n```";
    assert!(validate_code_blocks(text).is_ok());
}

#[test]
fn block_content_keeps_inner_lines_as_they_stand() {
    let text = "  ```yaml  \r\n  a: 1\r\n\r\nb: 2  \n  ```  \ntail";
    let blocks = extract_code_blocks(text);
    assert_eq!(blocks.len(), 1);
    assert_eq!(blocks[0].language, "yaml");
    assert_eq!(blocks[0].content, "  a: 1\n\nb: 2  ");
    assert_eq!(blocks[0].start_line, 1);
}

#[test]
fn unterminated_block_is_left_out() {
    let blocks = extract_code_blocks("```json\n{}\n```\n```yaml\nkey: value");
    assert_eq!(blocks.len(), 1);
}

#[test]
fn invalid_json_message_names_the_line_and_the_reason() {
    let text = "intro\n\n```json\n{bad json\n```";
    let message = validate_code_blocks(text).unwrap_err().to_string();
    let reason = serde_json::from_str::<serde_json::Value>("{bad json").unwrap_err().to_string();
    assert_eq!(message, format!("invalid json in code block at line 3: {}", reason));
}

#[test]
fn invalid_yaml_message_names_the_line_and_the_reason() {
    let text = "```yml\nkey: value\n  bad: indentation\n```";
    let message = validate_code_blocks(text).unwrap_err().to_string();
    let reason = serde_yaml::from_str::<serde_yaml::Value>("key: value\n  bad: indentation")
        .unwrap_err()
        .to_string();
    assert_eq!(message, format!("invalid yaml in code block at line 1: {}", reason));
}

#[test]
fn gherkin_needs_feature_and_scenario() {
    let empty = validate_code_blocks("```gherkin\n   \n```").unwrap_err().to_string();
    assert_eq!(empty, "invalid gherkin in code block at line 1: empty content");
    let no_feature = validate_code_blocks("```feature\nScenario: x\n```").unwrap_err().to_string();
    assert_eq!(no_feature, "invalid gherkin in code block at line 1: expected Feature keyword");
    let no_scenario = validate_code_blocks("```gherkin\nFeature: x\n```").unwrap_err().to_string();
    assert_eq!(
        no_scenario,
        "invalid gherkin in code block at line 1: expected at least one Scenario"
    );
    assert!(validate_code_blocks("```gherkin\nFeature: x\n  Scenario Outline: y\n```").is_ok());
}

#[test]
fn first_invalid_block_is_reported() {
    let text = "```json\n{}\n```\n```json\n[\n```\n```yaml\n: : :\n  - x: [\n```";
    let message = validate_code_blocks(text).unwrap_err().to_string();
    assert!(message.starts_with("invalid json in code block at line 4: "));
}

#[test]
fn diagram_blocks_pass_here() {
    assert!(validate_code_blocks("```mermaid\nnot a diagram\n```").is_ok());
    assert!(validate_code_blocks("```plantuml\nnot a diagram\n```").is_ok());
    assert!(validate_code_blocks("```d2\nnot a diagram\n```").is_ok());
}
