use open_sonar::parser::parse_jsonl_line;

#[test]
fn empty_line_parses_to_nothing() {
    assert!(parse_jsonl_line("").is_none());
}

#[test]
fn non_json_parses_to_nothing() {
    assert!(parse_jsonl_line("not json at all").is_none());
    assert!(parse_jsonl_line("{unterminated").is_none());
}

#[test]
fn object_without_type_parses_to_nothing() {
    assert!(parse_jsonl_line("{}").is_none());
    assert!(parse_jsonl_line("{\"sessionId\":\"s1\"}").is_none());
}

#[test]
fn file_history_snapshot_is_filtered() {
    assert!(parse_jsonl_line("{\"type\":\"file-history-snapshot\",\"sessionId\":\"s1\"}").is_none());
}

#[test]
fn full_record_is_extracted() {
    let line = "{\"type\":\"assistant\",\"sessionId\":\"abc-123\",\"timestamp\":\"2024-01-02T03:04:05Z\",\"message\":{\"model\":\"opus-4\",\"usage\":{\"input_tokens\":7,\"output_tokens\":11,\"cache_read_input_tokens\":13,\"cache_creation_input_tokens\":17},\"content\":[{\"type\":\"text\",\"text\":\"hello\"},{\"type\":\"tool_use\",\"name\":\"Bash\"},{\"type\":\"text\",\"text\":\"world\"},{\"type\":\"tool_use\",\"name\":\"Edit\"}]}}";
    let p = parse_jsonl_line(line).expect("should parse");
    assert_eq!(p.message_type, "assistant");
    assert_eq!(p.session_id, "abc-123");
    assert_eq!(p.timestamp, "2024-01-02T03:04:05Z");
    assert_eq!(p.model.as_deref(), Some("opus-4"));
    let u = p.usage.expect("usage");
    assert_eq!(u.input_tokens, 7);
    assert_eq!(u.output_tokens, 11);
    assert_eq!(u.cache_read_input_tokens, 13);
    assert_eq!(u.cache_creation_input_tokens, 17);
    // The last text block wins; tool names keep input order.
    assert_eq!(p.content_text.as_deref(), Some("world"));
    assert_eq!(p.tool_calls, vec!["Bash".to_string(), "Edit".to_string()]);
}

#[test]
fn missing_fields_default() {
    let p = parse_jsonl_line("{\"type\":\"user\"}").expect("should parse");
    assert_eq!(p.message_type, "user");
    assert_eq!(p.session_id, "");
    assert_eq!(p.timestamp, "");
    assert!(p.model.is_none());
    assert!(p.usage.is_none());
    assert!(p.content_text.is_none());
    assert!(p.tool_calls.is_empty());
}

#[test]
fn ill_typed_usage_fields_count_zero() {
    let line = "{\"type\":\"assistant\",\"message\":{\"usage\":{\"input_tokens\":\"many\",\"output_tokens\":-3,\"cache_read_input_tokens\":2.5}}}";
    let p = parse_jsonl_line(line).expect("should parse");
    let u = p.usage.expect("usage object present");
    assert_eq!(u.input_tokens, 0);
    assert_eq!(u.output_tokens, 0);
    assert_eq!(u.cache_read_input_tokens, 0);
    assert_eq!(u.cache_creation_input_tokens, 0);
}

#[test]
fn string_content_becomes_text() {
    let p = parse_jsonl_line("{\"type\":\"user\",\"message\":{\"content\":\"just text\"}}")
        .expect("should parse");
    assert_eq!(p.content_text.as_deref(), Some("just text"));
    assert!(p.tool_calls.is_empty());
}

#[test]
fn usage_counts_survive_a_round_trip() {
    // Parse a usage record, write the extracted counts back out as a new
    // record, and parse again: all four counts are preserved.
    let line = "{\"type\":\"assistant\",\"sessionId\":\"s\",\"message\":{\"usage\":{\"input_tokens\":101,\"output_tokens\":202,\"cache_read_input_tokens\":303,\"cache_creation_input_tokens\":404}}}";
    let u1 = parse_jsonl_line(line).unwrap().usage.unwrap();
    let reserialized = format!(
        "{{\"type\":\"assistant\",\"sessionId\":\"s\",\"message\":{{\"usage\":{{\"input_tokens\":{},\"output_tokens\":{},\"cache_read_input_tokens\":{},\"cache_creation_input_tokens\":{}}}}}}}",
        u1.input_tokens, u1.output_tokens, u1.cache_read_input_tokens, u1.cache_creation_input_tokens
    );
    let u2 = parse_jsonl_line(&reserialized).unwrap().usage.unwrap();
    assert_eq!(u1, u2);
}

#[test]
fn tool_item_without_name_is_skipped() {
    let line = "{\"type\":\"assistant\",\"message\":{\"content\":[{\"type\":\"tool_use\"},{\"type\":\"tool_use\",\"name\":\"Read\"}]}}";
    let p = parse_jsonl_line(line).expect("should parse");
    assert_eq!(p.tool_calls, vec!["Read".to_string()]);
}
