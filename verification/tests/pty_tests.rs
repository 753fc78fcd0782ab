use open_sonar::pty::{build_agent_args, DEFAULT_COLS, DEFAULT_ROWS};

#[test]
fn an_empty_task_launches_interactively() {
    assert!(build_agent_args("").is_empty());
}

#[test]
fn a_task_launches_non_interactively() {
    let args = build_agent_args("fix the tests");
    assert_eq!(
        args,
        vec![
            "--dangerously-skip-permissions".to_string(),
            "-p".to_string(),
            "fix the tests".to_string(),
        ]
    );
}

#[test]
fn default_window_size_is_forty_by_one_twenty() {
    assert_eq!(DEFAULT_ROWS, 40);
    assert_eq!(DEFAULT_COLS, 120);
}
