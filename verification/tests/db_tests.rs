use open_sonar::db::{Database, MessageRecord, SessionRecord};

fn record(id: &str, started_at: &str, model: &str, cost: u64) -> SessionRecord {
    SessionRecord {
        id: id.to_string(),
        agent_id: "agent-x".to_string(),
        project: "/home/u/proj".to_string(),
        model: model.to_string(),
        total_cost_pico: cost,
        total_tokens: 400,
        input_tokens: 100,
        output_tokens: 150,
        cache_read_tokens: 90,
        cache_creation_tokens: 60,
        duration_ms: 1234,
        status: "completed".to_string(),
        tool_calls: 5,
        started_at: started_at.to_string(),
        ended_at: Some("2024-01-02T03:10:00Z".to_string()),
    }
}

#[test]
fn written_sessions_read_back_equal() {
    let mut db = Database::open_in_memory().expect("open");
    let r = record("sess-1", "2024-01-02T03:04:05Z", "opus-4", 42);
    db.upsert_session(&r).expect("upsert");
    let rows = db.get_recent_sessions(10).expect("read");
    assert_eq!(rows.len(), 1);
    let got = &rows[0];
    assert_eq!(got.id, r.id);
    assert_eq!(got.agent_id, r.agent_id);
    assert_eq!(got.project, r.project);
    assert_eq!(got.model, r.model);
    assert_eq!(got.total_cost_pico, r.total_cost_pico);
    assert_eq!(got.total_tokens, r.total_tokens);
    assert_eq!(got.input_tokens, r.input_tokens);
    assert_eq!(got.output_tokens, r.output_tokens);
    assert_eq!(got.cache_read_tokens, r.cache_read_tokens);
    assert_eq!(got.cache_creation_tokens, r.cache_creation_tokens);
    assert_eq!(got.duration_ms, r.duration_ms);
    assert_eq!(got.status, r.status);
    assert_eq!(got.tool_calls, r.tool_calls);
    assert_eq!(got.started_at, r.started_at);
    assert_eq!(got.ended_at, r.ended_at);
}

#[test]
fn upsert_updates_every_mutable_column() {
    let mut db = Database::open_in_memory().expect("open");
    db.upsert_session(&record("sess-1", "2024-01-02T00:00:00Z", "sonnet", 1)).unwrap();
    let mut newer = record("sess-1", "2029-09-09T00:00:00Z", "opus-4", 99);
    newer.agent_id = "someone-else".to_string();
    newer.project = "/elsewhere".to_string();
    newer.status = "running".to_string();
    db.upsert_session(&newer).unwrap();
    let rows = db.get_recent_sessions(10).unwrap();
    assert_eq!(rows.len(), 1);
    let got = &rows[0];
    // Updated columns...
    assert_eq!(got.model, "opus-4");
    assert_eq!(got.total_cost_pico, 99);
    assert_eq!(got.status, "running");
    // ...while id, agent, project and start time keep their first values.
    assert_eq!(got.id, "sess-1");
    assert_eq!(got.agent_id, "agent-x");
    assert_eq!(got.project, "/home/u/proj");
    assert_eq!(got.started_at, "2024-01-02T00:00:00Z");
}

#[test]
fn recent_sessions_come_newest_first() {
    let mut db = Database::open_in_memory().expect("open");
    db.upsert_session(&record("a", "2024-01-01T00:00:00Z", "sonnet", 1)).unwrap();
    db.upsert_session(&record("b", "2024-03-01T00:00:00Z", "sonnet", 2)).unwrap();
    db.upsert_session(&record("c", "2024-02-01T00:00:00Z", "sonnet", 3)).unwrap();
    let rows = db.get_recent_sessions(10).unwrap();
    let ids: Vec<&str> = rows.iter().map(|r| r.id.as_str()).collect();
    assert_eq!(ids, vec!["b", "c", "a"]);
    let two = db.get_recent_sessions(2).unwrap();
    assert_eq!(two.len(), 2);
    assert_eq!(two[0].id, "b");
}

#[test]
fn session_existence_is_reported() {
    let mut db = Database::open_in_memory().expect("open");
    assert!(!db.session_exists("sess-1").unwrap());
    db.upsert_session(&record("sess-1", "2024-01-01T00:00:00Z", "sonnet", 0)).unwrap();
    assert!(db.session_exists("sess-1").unwrap());
    assert!(!db.session_exists("sess-2").unwrap());
}

#[test]
fn messages_come_back_in_timestamp_order() {
    let mut db = Database::open_in_memory().expect("open");
    db.upsert_session(&record("sess-1", "2024-01-01T00:00:00Z", "sonnet", 0)).unwrap();
    for (ts, mt) in [
        ("2024-01-01T00:00:02Z", "assistant"),
        ("2024-01-01T00:00:01Z", "user"),
        ("2024-01-01T00:00:03Z", "assistant"),
    ] {
        db.insert_message(&MessageRecord {
            id: 0,
            session_id: "sess-1".to_string(),
            message_type: mt.to_string(),
            timestamp: ts.to_string(),
            model: Some("sonnet".to_string()),
            input_tokens: 1,
            output_tokens: 2,
            cache_read_tokens: 3,
            cache_creation_tokens: 4,
            cost_pico: 5,
            content_preview: Some("preview".to_string()),
            tool_name: None,
        })
        .unwrap();
    }
    let msgs = db.get_session_messages("sess-1").unwrap();
    assert_eq!(msgs.len(), 3);
    let stamps: Vec<&str> = msgs.iter().map(|m| m.timestamp.as_str()).collect();
    assert_eq!(
        stamps,
        vec!["2024-01-01T00:00:01Z", "2024-01-01T00:00:02Z", "2024-01-01T00:00:03Z"]
    );
    assert!(db.get_session_messages("other").unwrap().is_empty());
}

#[test]
fn model_stats_exclude_the_unknown_model() {
    let mut db = Database::open_in_memory().expect("open");
    db.upsert_session(&record("a", "2024-01-01T00:00:00Z", "opus-4", 100)).unwrap();
    db.upsert_session(&record("b", "2024-01-02T00:00:00Z", "opus-4", 50)).unwrap();
    db.upsert_session(&record("c", "2024-01-03T00:00:00Z", "unknown", 10)).unwrap();
    db.upsert_session(&record("d", "2024-01-04T00:00:00Z", "sonnet", 400)).unwrap();
    let stats = db.get_model_stats().unwrap();
    assert_eq!(stats.len(), 2);
    assert_eq!(stats[0].model, "sonnet");
    assert_eq!(stats[0].total_cost_pico, 400);
    assert_eq!(stats[1].model, "opus-4");
    assert_eq!(stats[1].total_cost_pico, 150);
    assert_eq!(stats[1].session_count, 2);
    assert_eq!(stats[1].avg_cost_pico_per_session, 75);
}

#[test]
fn total_cost_today_counts_fresh_sessions() {
    let mut db = Database::open_in_memory().expect("open");
    // A start time far in the future is at or past any local midnight.
    db.upsert_session(&record("future", "9999-01-01T00:00:00Z", "sonnet", 70)).unwrap();
    // One far in the past is before it.
    db.upsert_session(&record("past", "1999-01-01T00:00:00Z", "sonnet", 9)).unwrap();
    assert_eq!(db.get_total_cost_today().unwrap(), 70);
}

#[test]
fn opening_an_impossible_path_fails() {
    assert!(Database::new("/nonexistent-dir-for-sure/deeper/sessions.db").is_err());
}
