use openwork::supervisor::{ProcessEvent, SupervisorState, OUTPUT_LIMIT};
use openwork::text::truncate_output;

fn bot() -> SupervisorState<u32> {
    SupervisorState::new("Owpenbot", Some("WhatsApp linked"))
}

#[test]
fn stop_when_idle_is_a_no_op() {
    let mut s = bot();
    assert_eq!(s.stop_locked(), None);
    let snap = s.snapshot_locked();
    assert!(!snap.running);
    assert!(!snap.exited);
    assert_eq!(snap.last_stdout, None);
    assert_eq!(s.stop_locked(), None);
}

#[test]
fn start_twice_keeps_one_child_and_fresh_buffers() {
    let mut s = bot();
    assert_eq!(s.start_locked(1, "/w1".to_string(), None), None);
    s.apply_event(ProcessEvent::Stdout(b"hello".to_vec()));
    s.apply_event(ProcessEvent::Stderr(b"oops".to_vec()));
    let previous = s.stop_locked();
    assert_eq!(previous, Some(1));
    assert_eq!(s.start_locked(2, "/w2".to_string(), Some("http://x".to_string())), None);
    assert_eq!(s.child, Some(2));
    let snap = s.snapshot_locked();
    assert!(snap.running);
    assert_eq!(snap.last_stdout, None);
    assert_eq!(snap.last_stderr, None);
    assert_eq!(snap.workspace_path, Some("/w2".to_string()));
    assert_eq!(snap.connection_url, Some("http://x".to_string()));
}

#[test]
fn start_hands_back_a_child_still_registered() {
    let mut s = bot();
    s.start_locked(1, "/w".to_string(), None);
    assert_eq!(s.start_locked(2, "/w".to_string(), None), Some(1));
    assert_eq!(s.child, Some(2));
}

#[test]
fn output_is_appended_and_marker_links() {
    let mut s = bot();
    s.start_locked(7, "/w".to_string(), None);
    s.apply_event(ProcessEvent::Stdout(b"starting\n".to_vec()));
    assert!(!s.linked);
    s.apply_event(ProcessEvent::Stdout(b"WhatsApp linked\n".to_vec()));
    assert!(s.linked);
    assert_eq!(s.last_stdout, Some("starting\nWhatsApp linked\n".to_string()));
    s.apply_event(ProcessEvent::Other);
    assert!(s.snapshot_locked().running);
}

#[test]
fn invalid_bytes_are_replaced() {
    let mut s = bot();
    s.apply_event(ProcessEvent::Stderr(vec![b'a', 0xff, b'b']));
    assert_eq!(s.last_stderr, Some("a\u{fffd}b".to_string()));
}

#[test]
fn termination_records_exit_code() {
    let mut s = bot();
    s.start_locked(7, "/w".to_string(), None);
    s.apply_event(ProcessEvent::Stderr(b"earlier".to_vec()));
    s.apply_event(ProcessEvent::Terminated(Some(3)));
    assert!(s.child_exited);
    assert_eq!(s.last_stderr, Some("Owpenbot exited (code 3).".to_string()));
    let snap = s.snapshot_locked();
    assert!(!snap.running);
    assert!(snap.exited);
    s.apply_event(ProcessEvent::Terminated(Some(-1)));
    assert_eq!(s.last_stderr, Some("Owpenbot exited (code -1).".to_string()));
}

#[test]
fn termination_without_code_keeps_stderr() {
    let mut s = bot();
    s.apply_event(ProcessEvent::Stderr(b"kept".to_vec()));
    s.apply_event(ProcessEvent::Terminated(None));
    assert!(s.child_exited);
    assert_eq!(s.last_stderr, Some("kept".to_string()));
}

#[test]
fn transport_error_marks_exit_and_appends() {
    let mut s = bot();
    s.apply_event(ProcessEvent::Stderr(b"x".to_vec()));
    s.apply_event(ProcessEvent::Error("broken pipe".to_string()));
    assert!(s.child_exited);
    assert_eq!(s.last_stderr, Some("xbroken pipe".to_string()));
}

#[test]
fn buffers_keep_the_most_recent_output() {
    let mut s = bot();
    let first = "a".repeat(5000);
    let second = "b".repeat(5000);
    s.apply_event(ProcessEvent::Stdout(first.into_bytes()));
    s.apply_event(ProcessEvent::Stdout(second.clone().into_bytes()));
    let out = s.last_stdout.clone().unwrap();
    assert_eq!(out.chars().count(), OUTPUT_LIMIT);
    assert!(out.ends_with(&second));
    assert_eq!(out, format!("{}{}", "a".repeat(3000), second));
}

#[test]
fn truncation_counts_characters() {
    assert_eq!(truncate_output("abcdef", 3), "def");
    assert_eq!(truncate_output("ab", 3), "ab");
    assert_eq!(truncate_output("héllo", 4), "éllo");
    assert_eq!(truncate_output("abc", 0), "");
}
