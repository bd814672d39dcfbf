use fence::errors::ProcError;
use fence::output::{OutputBuffer, ReadStep};
use fence::registry::{PollStatus, PythonProcessManager, SpawnOutcome};
use fence::teardown::{
    collect_stop_failures, finish_stop, stop_all_error_message, TeardownOutcome,
};

fn spawned(pid: u64) -> SpawnOutcome {
    SpawnOutcome::Spawned {
        pid,
        stdout_captured: true,
    }
}

#[test]
fn add_two_distinct_names_both_succeed() {
    let mut m = PythonProcessManager::new();
    assert!(m.add("first", spawned(11)).is_ok());
    assert!(m.add("second", spawned(22)).is_ok());
    assert!(m.is_running("first"));
    assert!(m.is_running("second"));
}

#[test]
fn add_same_name_second_refused() {
    let mut m = PythonProcessManager::new();
    assert!(m.add("worker", spawned(1)).is_ok());
    let err = m.add("worker", spawned(2)).unwrap_err();
    assert!(matches!(err, ProcError::AlreadyExists { .. }));
    assert_eq!(
        err.message(),
        "Process with name 'worker' already exists"
    );
    assert!(m.is_running("worker"));
}

#[test]
fn add_failed_spawn_propagates_detail() {
    let mut m = PythonProcessManager::new();
    let outcome = SpawnOutcome::Failed {
        detail: "no such file".to_string(),
    };
    let err = m.add("worker", outcome).unwrap_err();
    assert!(matches!(err, ProcError::SpawnFailed { .. }));
    assert_eq!(err.message(), "Failed to start process: no such file");
    assert!(!m.is_running("worker"));
}

#[test]
fn add_without_captured_stdout_rejected() {
    let mut m = PythonProcessManager::new();
    let outcome = SpawnOutcome::Spawned {
        pid: 5,
        stdout_captured: false,
    };
    let err = m.add("worker", outcome).unwrap_err();
    assert!(matches!(err, ProcError::CaptureFailed));
    assert_eq!(err.message(), "Failed to capture stdout");
    assert!(!m.is_running("worker"));
}

#[test]
fn stop_frees_name_for_reuse() {
    let mut m = PythonProcessManager::new();
    assert!(m.add("worker", spawned(7)).is_ok());
    let entry = m.stop("worker").unwrap();
    assert_eq!(entry.pid, 7);

    let err = m.read("worker").unwrap_err();
    assert!(matches!(err, ProcError::NotFound { .. }));
    assert_eq!(err.message(), "Process with name 'worker' not found");

    assert!(m.is_exited("worker", PollStatus::Running));
    assert!(m.add("worker", spawned(8)).is_ok());
}

#[test]
fn stop_unknown_name_not_found() {
    let mut m = PythonProcessManager::new();
    let err = m.stop("ghost").unwrap_err();
    assert!(matches!(err, ProcError::NotFound { .. }));
    assert_eq!(err.message(), "Process with name 'ghost' not found");
}

#[test]
fn single_line_then_end_of_stream() {
    let mut m = PythonProcessManager::new();
    assert!(m.add("echo", spawned(1)).is_ok());
    m.feed_output("echo", "hello\n").unwrap();
    m.close_output("echo").unwrap();

    match m.read("echo").unwrap() {
        ReadStep::Line(l) => assert_eq!(l, "hello\n"),
        other => panic!("expected a line, got {:?}", other),
    }
    assert!(matches!(m.read("echo").unwrap(), ReadStep::EndOfStream));
}

#[test]
fn read_all_twice_returns_empty_second() {
    let mut m = PythonProcessManager::new();
    assert!(m.add("chatty", spawned(2)).is_ok());
    m.feed_output("chatty", "a\nb\n").unwrap();

    assert_eq!(m.read_all("chatty").unwrap(), Some("a\nb\n".to_string()));
    assert_eq!(m.read_all("chatty").unwrap(), None);
}

#[test]
fn read_pending_then_line_after_more_input() {
    let mut m = PythonProcessManager::new();
    assert!(m.add("slow", spawned(3)).is_ok());
    m.feed_output("slow", "par").unwrap();
    assert!(matches!(m.read("slow").unwrap(), ReadStep::Pending));

    m.feed_output("slow", "tial\n").unwrap();
    match m.read("slow").unwrap() {
        ReadStep::Line(l) => assert_eq!(l, "partial\n"),
        other => panic!("expected a line, got {:?}", other),
    }
}

#[test]
fn read_drains_lines_in_order_until_end() {
    let mut m = PythonProcessManager::new();
    assert!(m.add("echo1", spawned(4)).is_ok());
    m.feed_output("echo1", "l1\nl2\nl3").unwrap();
    m.close_output("echo1").unwrap();

    let mut collected: Vec<String> = Vec::new();
    loop {
        match m.read("echo1").unwrap() {
            ReadStep::Line(l) => collected.push(l),
            ReadStep::EndOfStream => break,
            ReadStep::Pending => panic!("closed stream must not be pending"),
        }
    }
    assert_eq!(collected, vec!["l1\n", "l2\n", "l3"]);
    assert_eq!(collected.concat(), "l1\nl2\nl3");
}

#[test]
fn feed_after_close_is_ignored() {
    let mut m = PythonProcessManager::new();
    assert!(m.add("done", spawned(5)).is_ok());
    m.feed_output("done", "x\n").unwrap();
    m.close_output("done").unwrap();
    m.feed_output("done", "y\n").unwrap();

    match m.read("done").unwrap() {
        ReadStep::Line(l) => assert_eq!(l, "x\n"),
        other => panic!("expected a line, got {:?}", other),
    }
    assert!(matches!(m.read("done").unwrap(), ReadStep::EndOfStream));
}

#[test]
fn feed_unknown_name_not_found() {
    let mut m = PythonProcessManager::new();
    let err = m.feed_output("ghost", "text").unwrap_err();
    assert!(matches!(err, ProcError::NotFound { .. }));
    let err = m.close_output("ghost").unwrap_err();
    assert!(matches!(err, ProcError::NotFound { .. }));
}

#[test]
fn is_exited_poll_cases() {
    let mut m = PythonProcessManager::new();
    assert!(m.add("alive", spawned(6)).is_ok());
    assert!(m.is_exited("alive", PollStatus::Exited));
    assert!(!m.is_exited("alive", PollStatus::Running));
    assert!(!m.is_exited("alive", PollStatus::PollError));
    assert!(m.is_exited("absent", PollStatus::Running));
    assert!(m.is_exited("absent", PollStatus::PollError));
}

#[test]
fn list_processes_snapshot() {
    let mut m = PythonProcessManager::new();
    assert!(m.add("one", spawned(1)).is_ok());
    assert!(m.add("two", spawned(2)).is_ok());
    assert_eq!(m.list_processes(), vec!["one", "two"]);
    assert!(m.is_running("one"));
    assert!(!m.is_running("three"));
}

#[test]
fn stop_all_returns_entries_and_clears() {
    let mut m = PythonProcessManager::new();
    assert!(m.add("p1", spawned(1)).is_ok());
    assert!(m.add("p2", spawned(2)).is_ok());
    assert!(m.add("p3", spawned(3)).is_ok());

    let entries = m.stop_all();
    let names: Vec<String> = entries.iter().map(|e| e.name.clone()).collect();
    assert_eq!(names, vec!["p1", "p2", "p3"]);
    assert!(m.list_processes().is_empty());
    assert!(!m.is_running("p2"));
}

#[test]
fn stop_all_with_one_failing_kill_reports_only_it() {
    let mut m = PythonProcessManager::new();
    assert!(m.add("p1", spawned(1)).is_ok());
    assert!(m.add("p2", spawned(2)).is_ok());
    assert!(m.add("p3", spawned(3)).is_ok());

    let entries = m.stop_all();
    assert_eq!(entries.len(), 3);
    assert!(m.list_processes().is_empty());

    let outcomes: Vec<TeardownOutcome> = entries
        .into_iter()
        .map(|e| TeardownOutcome {
            kill_error: if e.name == "p2" {
                Some("boom".to_string())
            } else {
                None
            },
            wait_error: None,
            name: e.name,
        })
        .collect();
    let failures = collect_stop_failures(outcomes);
    assert_eq!(failures.len(), 1);
    assert_eq!(failures[0].name, "p2");
    assert_eq!(
        failures[0].message(),
        "Failed to kill process 'p2': boom"
    );
    assert_eq!(
        stop_all_error_message(&failures),
        Some("Failed to kill process 'p2': boom".to_string())
    );
}

#[test]
fn clean_teardown_has_no_failures() {
    let outcomes = vec![
        TeardownOutcome {
            name: "a".to_string(),
            kill_error: None,
            wait_error: None,
        },
        TeardownOutcome {
            name: "b".to_string(),
            kill_error: None,
            wait_error: None,
        },
    ];
    let failures = collect_stop_failures(outcomes);
    assert!(failures.is_empty());
    assert_eq!(stop_all_error_message(&failures), None);
}

#[test]
fn stop_all_error_message_joins_with_newlines() {
    let outcomes = vec![
        TeardownOutcome {
            name: "a".to_string(),
            kill_error: Some("eperm".to_string()),
            wait_error: None,
        },
        TeardownOutcome {
            name: "b".to_string(),
            kill_error: None,
            wait_error: Some("echild".to_string()),
        },
    ];
    let failures = collect_stop_failures(outcomes);
    assert_eq!(failures.len(), 2);
    assert_eq!(
        stop_all_error_message(&failures),
        Some(
            "Failed to kill process 'a': eperm\nFailed to wait for process 'b' exit: echild"
                .to_string()
        )
    );
}

#[test]
fn finish_stop_classifies_kill_and_wait() {
    assert!(finish_stop(None, None).is_ok());

    let err = finish_stop(Some("eperm".to_string()), None).unwrap_err();
    assert!(matches!(err, ProcError::KillFailed { .. }));
    assert_eq!(err.message(), "Failed to kill process: eperm");

    let err = finish_stop(None, Some("echild".to_string())).unwrap_err();
    assert!(matches!(err, ProcError::WaitFailed { .. }));
    assert_eq!(err.message(), "Failed to wait for process exit: echild");

    let err = finish_stop(Some("eperm".to_string()), Some("echild".to_string())).unwrap_err();
    assert!(matches!(err, ProcError::KillFailed { .. }));
}

#[test]
fn read_failure_message_names_the_stream() {
    let err = ProcError::ReadFailed {
        detail: "interrupted".to_string(),
    };
    assert_eq!(err.message(), "Failed to read stdout: interrupted");
}

#[test]
fn buffer_drains_everything_once() {
    let mut b = OutputBuffer::new();
    assert!(!b.is_closed_now());
    b.push_text("one\ntwo");
    assert_eq!(b.drain(), Some("one\ntwo".to_string()));
    assert_eq!(b.drain(), None);
    b.close();
    assert!(b.is_closed_now());
    assert!(matches!(b.next_line(), ReadStep::EndOfStream));
}

#[test]
fn buffer_returns_tail_without_newline_after_close() {
    let mut b = OutputBuffer::new();
    b.push_text("tail");
    b.close();
    match b.next_line() {
        ReadStep::Line(l) => assert_eq!(l, "tail"),
        other => panic!("expected the tail, got {:?}", other),
    }
    assert!(matches!(b.next_line(), ReadStep::EndOfStream));
}
