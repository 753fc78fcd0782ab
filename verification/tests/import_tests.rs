use open_sonar::db::Database;
use open_sonar::import::{fold_session_lines, import_session_file, should_import};

fn costed_line(ts: &str, output_tokens: u64) -> String {
    format!(
        "{{\"type\":\"assistant\",\"sessionId\":\"s\",\"timestamp\":\"{}\",\"message\":{{\"model\":\"sonnet\",\"usage\":{{\"input_tokens\":0,\"output_tokens\":{},\"cache_read_input_tokens\":0,\"cache_creation_input_tokens\":0}}}}}}",
        ts, output_tokens
    )
}

#[test]
fn stems_decide_what_is_imported() {
    assert!(!should_import(""));
    assert!(!should_import("agent-tmp-123"));
    assert!(!should_import("agent-"));
    assert!(should_import("agent"));
    assert!(should_import("b2c3"));
}

#[test]
fn agent_stems_are_skipped() {
    let mut db = Database::open_in_memory().unwrap();
    let lines = vec![costed_line("2024-01-01T00:00:00Z", 100)];
    let imported = import_session_file(&mut db, "agent-tmp-123", "/p", &lines).unwrap();
    assert!(!imported);
    assert!(db.get_recent_sessions(10).unwrap().is_empty());
}

#[test]
fn existing_sessions_are_skipped() {
    let mut db = Database::open_in_memory().unwrap();
    let lines = vec![costed_line("2024-01-01T00:00:00Z", 100)];
    assert!(import_session_file(&mut db, "sess-1", "/p", &lines).unwrap());
    // A second import of the same stem is skipped and changes nothing.
    assert!(!import_session_file(&mut db, "sess-1", "/p", &lines).unwrap());
    assert_eq!(db.get_recent_sessions(10).unwrap().len(), 1);
}

#[test]
fn an_import_folds_the_whole_file() {
    let mut db = Database::open_in_memory().unwrap();
    let lines = vec![
        costed_line("2024-01-01T00:00:00Z", 100),
        "not json".to_string(),
        costed_line("2024-01-01T00:00:02.500Z", 200),
    ];
    assert!(import_session_file(&mut db, "sess-7", "/home/u/proj", &lines).unwrap());
    let rows = db.get_recent_sessions(10).unwrap();
    assert_eq!(rows.len(), 1);
    let s = &rows[0];
    assert_eq!(s.id, "sess-7");
    assert_eq!(s.agent_id, "imported");
    assert_eq!(s.project, "/home/u/proj");
    assert_eq!(s.model, "sonnet");
    assert_eq!(s.status, "completed");
    assert_eq!(s.total_tokens, 300);
    assert_eq!(s.output_tokens, 300);
    // 300 output tokens under sonnet rates: 0.0045 USD.
    assert_eq!(s.total_cost_pico, 4_500_000_000);
    assert_eq!(s.started_at, "2024-01-01T00:00:00Z");
    assert_eq!(s.ended_at.as_deref(), Some("2024-01-01T00:00:02.500Z"));
    assert_eq!(s.duration_ms, 2500);
    // One message row per costed record, in timestamp order.
    let msgs = db.get_session_messages("sess-7").unwrap();
    assert_eq!(msgs.len(), 2);
    assert_eq!(msgs[0].output_tokens, 100);
    assert_eq!(msgs[0].cost_pico, 1_500_000_000);
    assert_eq!(msgs[1].output_tokens, 200);
    assert_eq!(msgs[1].cost_pico, 3_000_000_000);
}

#[test]
fn usage_without_a_model_is_never_costed() {
    let no_model = "{\"type\":\"assistant\",\"sessionId\":\"s\",\"timestamp\":\"2024-01-01T00:00:00Z\",\"message\":{\"usage\":{\"input_tokens\":0,\"output_tokens\":100,\"cache_read_input_tokens\":0,\"cache_creation_input_tokens\":0}}}".to_string();
    let lines = vec![no_model];
    let (record, msgs) = fold_session_lines(&lines, "sess-2", "/p");
    assert_eq!(record.model, "unknown");
    assert_eq!(record.total_tokens, 100);
    assert_eq!(record.total_cost_pico, 0);
    assert!(msgs.is_empty());
}

#[test]
fn fold_tracks_tools_and_preview() {
    let line = "{\"type\":\"assistant\",\"sessionId\":\"s\",\"timestamp\":\"2024-01-01T00:00:00Z\",\"message\":{\"model\":\"sonnet\",\"usage\":{\"input_tokens\":1,\"output_tokens\":1,\"cache_read_input_tokens\":0,\"cache_creation_input_tokens\":0},\"content\":[{\"type\":\"text\",\"text\":\"hi\"},{\"type\":\"tool_use\",\"name\":\"Bash\"},{\"type\":\"tool_use\",\"name\":\"Edit\"}]}}".to_string();
    let (record, msgs) = fold_session_lines(&vec![line], "sess-3", "/p");
    assert_eq!(record.tool_calls, 2);
    assert_eq!(msgs.len(), 1);
    assert_eq!(msgs[0].tool_name.as_deref(), Some("Bash"));
    assert_eq!(msgs[0].content_preview.as_deref(), Some("hi"));
    assert_eq!(msgs[0].session_id, "sess-3");
}

#[test]
fn missing_timestamps_give_zero_duration() {
    let line = "{\"type\":\"assistant\",\"sessionId\":\"s\",\"message\":{\"model\":\"sonnet\",\"usage\":{\"input_tokens\":1,\"output_tokens\":1,\"cache_read_input_tokens\":0,\"cache_creation_input_tokens\":0}}}".to_string();
    let (record, _) = fold_session_lines(&vec![line], "sess-4", "/p");
    assert_eq!(record.duration_ms, 0);
    assert_eq!(record.started_at, "");
}

#[test]
fn reversed_timestamps_clamp_to_zero() {
    let lines = vec![
        costed_line("2024-01-01T00:00:10Z", 1),
        costed_line("2024-01-01T00:00:00Z", 1),
    ];
    let (record, _) = fold_session_lines(&lines, "sess-5", "/p");
    assert_eq!(record.duration_ms, 0);
}

#[test]
fn long_previews_are_cut_to_two_hundred_characters() {
    let text = "y".repeat(300);
    let line = format!(
        "{{\"type\":\"assistant\",\"sessionId\":\"s\",\"timestamp\":\"t\",\"message\":{{\"model\":\"sonnet\",\"usage\":{{\"input_tokens\":1,\"output_tokens\":1,\"cache_read_input_tokens\":0,\"cache_creation_input_tokens\":0}},\"content\":[{{\"type\":\"text\",\"text\":\"{}\"}}]}}}}",
        text
    );
    let (_, msgs) = fold_session_lines(&vec![line], "sess-6", "/p");
    assert_eq!(msgs[0].content_preview.as_deref(), Some(&"y".repeat(200)[..]));
}
