use open_sonar::watcher::SessionWatcher;

fn assistant_line(output_tokens: u64, model: &str) -> String {
    format!(
        "{{\"type\":\"assistant\",\"sessionId\":\"s1\",\"message\":{{\"model\":\"{}\",\"usage\":{{\"input_tokens\":0,\"output_tokens\":{},\"cache_read_input_tokens\":0,\"cache_creation_input_tokens\":0}}}}}}",
        model, output_tokens
    )
}

#[test]
fn attribution_decodes_the_parent_directory() {
    let mut w = SessionWatcher::new();
    w.register_agent("A", "/home/u/proj");
    let found = w.resolve_agent("/root/projects/-home-u-proj/xyz.jsonl");
    assert_eq!(found.as_deref(), Some("A"));
}

#[test]
fn attribution_matches_the_encoded_form() {
    let mut w = SessionWatcher::new();
    w.register_agent("B", "/home/u/proj-2");
    // The decoded name "/home/u/proj/2" is not a substring in either
    // direction, but the re-encoded registration "-home-u-proj-2" is.
    let found = w.resolve_agent("/root/projects/-home-u-proj-2/xyz.jsonl");
    assert_eq!(found.as_deref(), Some("B"));
}

#[test]
fn attribution_takes_the_first_matching_registration() {
    // Containment runs in both directions, so directories sharing a
    // prefix can both match; the first registration in order wins.
    let mut w = SessionWatcher::new();
    w.register_agent("B", "/home/u/proj-2");
    w.register_agent("A", "/home/u/proj");
    assert_eq!(
        w.resolve_agent("/root/projects/-home-u-proj-2/xyz.jsonl").as_deref(),
        Some("B")
    );
    // "/home/u/proj-2" contains the decoded name "/home/u/proj", so the
    // earlier registration takes this one too.
    assert_eq!(
        w.resolve_agent("/root/projects/-home-u-proj/xyz.jsonl").as_deref(),
        Some("B")
    );
    // Registered the other way round, the plain directory wins both.
    let mut w2 = SessionWatcher::new();
    w2.register_agent("A", "/home/u/proj");
    w2.register_agent("B", "/home/u/proj-2");
    assert_eq!(
        w2.resolve_agent("/root/projects/-home-u-proj/xyz.jsonl").as_deref(),
        Some("A")
    );
}

#[test]
fn single_agent_fallback_applies() {
    let mut w = SessionWatcher::new();
    w.register_agent("only", "/somewhere/else");
    let found = w.resolve_agent("/root/projects/-unrelated-place/xyz.jsonl");
    assert_eq!(found.as_deref(), Some("only"));
}

#[test]
fn unattributable_paths_are_ignored() {
    let mut w = SessionWatcher::new();
    w.register_agent("A", "/home/u/proj");
    w.register_agent("B", "/home/u/other");
    assert!(w.resolve_agent("/root/projects/-no-match-here/xyz.jsonl").is_none());
    assert!(w.resolve_agent("xyz.jsonl").is_none());
    let outcome = w.process_chunk("/root/projects/-no-match-here/xyz.jsonl", "{}");
    assert!(outcome.update.is_none());
    assert!(outcome.agent_detected.is_none());
}

#[test]
fn tail_then_append_accumulates() {
    let mut w = SessionWatcher::new();
    w.register_agent("A", "/home/u/proj");
    let path = "/root/projects/-home-u-proj/s1.jsonl";

    assert_eq!(w.read_offset(path), Some(0));

    let chunk1 = format!("{}\n", assistant_line(100, "sonnet"));
    let out1 = w.process_chunk(path, &chunk1);
    let up1 = out1.update.expect("first chunk updates");
    assert_eq!(up1.agent_id, "A");
    assert_eq!(up1.total_tokens, 100);
    // 100 output tokens under sonnet rates: 0.0015 USD.
    assert_eq!(up1.total_cost_pico, 1_500_000_000);
    assert_eq!(up1.message_count, 1);
    assert_eq!(w.read_offset(path), Some(chunk1.len() as u64));

    let chunk2 = format!("{}\n{}\n", assistant_line(100, "sonnet"), assistant_line(100, "sonnet"));
    let out2 = w.process_chunk(path, &chunk2);
    let up2 = out2.update.expect("second chunk updates");
    assert_eq!(up2.total_tokens, 300);
    assert_eq!(up2.total_cost_pico, 4_500_000_000);
    assert_eq!(up2.message_count, 3);
    // The offset advances by exactly the byte length of the new lines.
    assert_eq!(w.read_offset(path), Some((chunk1.len() + chunk2.len()) as u64));
}

#[test]
fn first_task_event_carries_the_task() {
    let mut w = SessionWatcher::new();
    w.register_agent("A", "/home/u/proj");
    let path = "/root/projects/-home-u-proj/s2.jsonl";
    let line = "{\"type\":\"user\",\"sessionId\":\"sess-9\",\"message\":{\"content\":[{\"type\":\"text\",\"text\":\"Refactor the auth module to use tokens\"}]}}";
    let out = w.process_chunk(path, line);
    let detected = out.agent_detected.expect("first user message raises the event");
    assert_eq!(detected.agent_id, "A");
    assert_eq!(detected.session_id, "sess-9");
    assert_eq!(detected.task, "Refactor the auth module to use tokens");
    // A later user message raises nothing.
    let out2 = w.process_chunk(path, line);
    assert!(out2.agent_detected.is_none());
}

#[test]
fn long_first_task_is_cut_to_eighty_characters() {
    let mut w = SessionWatcher::new();
    w.register_agent("A", "/home/u/proj");
    let path = "/root/projects/-home-u-proj/s3.jsonl";
    let long_task = "x".repeat(200);
    let line = format!(
        "{{\"type\":\"user\",\"sessionId\":\"sess-9\",\"message\":{{\"content\":[{{\"type\":\"text\",\"text\":\"{}\"}}]}}}}",
        long_task
    );
    let out = w.process_chunk(path, &line);
    let detected = out.agent_detected.expect("event");
    assert_eq!(detected.task, "x".repeat(80));
}

#[test]
fn records_without_session_id_are_not_counted() {
    let mut w = SessionWatcher::new();
    w.register_agent("A", "/home/u/proj");
    let path = "/root/projects/-home-u-proj/s4.jsonl";
    let out = w.process_chunk(path, "{\"type\":\"assistant\"}\nnot json\n");
    assert!(out.update.is_none());
    assert!(out.agent_detected.is_none());
}

#[test]
fn model_is_sticky_and_uncosted_until_known() {
    let mut w = SessionWatcher::new();
    w.register_agent("A", "/home/u/proj");
    let path = "/root/projects/-home-u-proj/s5.jsonl";
    // Usage before any model is seen adds tokens but no cost.
    let no_model = "{\"type\":\"assistant\",\"sessionId\":\"s1\",\"message\":{\"usage\":{\"input_tokens\":0,\"output_tokens\":100,\"cache_read_input_tokens\":0,\"cache_creation_input_tokens\":0}}}";
    let out1 = w.process_chunk(path, no_model);
    let up1 = out1.update.unwrap();
    assert_eq!(up1.total_tokens, 100);
    assert_eq!(up1.total_cost_pico, 0);
    assert!(up1.model.is_none());
    // Once a model appears it prices subsequent usage.
    let out2 = w.process_chunk(path, &assistant_line(100, "sonnet"));
    let up2 = out2.update.unwrap();
    assert_eq!(up2.total_tokens, 200);
    assert_eq!(up2.total_cost_pico, 1_500_000_000);
    assert_eq!(up2.model.as_deref(), Some("sonnet"));
}
