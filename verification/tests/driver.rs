use cc::{
    Action, ActiveJobTokenServer, ErrorKind, HelperPoll, JobTokenServer, ParallelDriver,
    TaskOutcome, TaskState, TokenStep,
};

fn in_process_driver(capacity: &str, best_effort: bool) -> ParallelDriver {
    let pool = ActiveJobTokenServer::new(JobTokenServer::new(None, Some(capacity)));
    ParallelDriver::new(pool, best_effort)
}

fn queue_tasks(d: &mut ParallelDriver, n: usize) {
    for i in 0..n {
        let src = format!("f{}.c", i);
        let dst = format!("f{}.o", i);
        let cmd = vec!["cc".to_string(), "-c".to_string(), src.clone()];
        d.push_task(src, dst, cmd);
    }
}

fn running_count(d: &ParallelDriver) -> usize {
    let mut n = 0;
    for t in d.tasks.iter() {
        if t.state == TaskState::ChildSpawned {
            n += 1;
        }
    }
    n
}

fn pool_available(d: &ParallelDriver) -> u32 {
    match &d.pool.server {
        JobTokenServer::InProcess { server } => server.available(),
        JobTokenServer::Inherited { .. } => panic!("these scenarios use the in-process pool"),
    }
}

/// Drive the cooperative loop to completion. Each child "runs" for the
/// given number of polls before it exits with the given status; a failing
/// status is reported for the task at `fail_index`.
fn run_build(d: &mut ParallelDriver, polls_per_child: usize, fail_index: Option<usize>, capacity: usize) {
    let n = d.len();
    let mut remaining: Vec<usize> = vec![polls_per_child; n];
    let mut turns = 0;
    while !d.all_completed() {
        turns += 1;
        assert!(turns < 100_000, "the build must terminate");
        for i in 0..n {
            match d.next_action(i) {
                Action::PollToken => {
                    let _ = d.poll_token(i, HelperPoll::Empty);
                }
                Action::Cancel => {
                    d.cancel_task(i);
                }
                Action::Spawn => {
                    d.on_spawned(i);
                    // The concurrency budget holds at every instant a child
                    // is alive.
                    assert!(running_count(d) <= capacity);
                }
                Action::PollChild => {
                    assert!(running_count(d) <= capacity);
                    if remaining[i] > 0 {
                        remaining[i] -= 1;
                    } else if fail_index == Some(i) {
                        d.on_child_exited(i, false, "exit status: 1".to_string());
                    } else {
                        d.on_child_exited(i, true, "exit status: 0".to_string());
                    }
                }
                Action::PollDrain => {
                    let _ = d.on_drained(i);
                }
                Action::Done => {}
            }
        }
    }
}

#[test]
fn capacity_two_runs_five_tasks() {
    // Five compile tasks share two slots: never more than two children are
    // alive at any sampled instant, and all five complete.
    let mut d = in_process_driver("2", false);
    queue_tasks(&mut d, 5);
    run_build(&mut d, 3, None, 2);
    assert!(d.all_completed());
    for t in d.tasks.iter() {
        assert_eq!(t.outcome, Some(TaskOutcome::Success));
    }
    assert_eq!(d.aggregate(), Ok(()));
    // Every token went back: the pool ends at full capacity.
    assert_eq!(pool_available(&d), 2);
}

#[test]
fn one_failing_task_is_reported_and_tokens_return() {
    // One task's compiler exits with status 1: the aggregate names exactly
    // that file, the other four succeed, and the pool ends at full
    // capacity.
    let mut d = in_process_driver("2", true);
    queue_tasks(&mut d, 5);
    run_build(&mut d, 2, Some(3), 2);
    assert!(d.all_completed());
    let failed = d.aggregate().unwrap_err();
    assert_eq!(failed, vec![3]);
    match &d.tasks[3].outcome {
        Some(TaskOutcome::Failure { error }) => {
            assert_eq!(error.kind, ErrorKind::ToolExecError);
            assert!(error.message().contains("f3.c"));
            assert!(error.message().contains("exit status: 1"));
        }
        other => panic!("expected a failure outcome, got {:?}", other),
    }
    for (i, t) in d.tasks.iter().enumerate() {
        if i != 3 {
            assert_eq!(t.outcome, Some(TaskOutcome::Success));
        }
    }
    let report = String::from_utf8_lossy(&d.failure_report()).into_owned();
    assert!(report.contains("f3.c"));
    assert_eq!(pool_available(&d), 2);
}

#[test]
fn failure_stops_new_tasks_unless_best_effort() {
    // In the default mode a failure keeps unstarted tasks from running.
    let mut d = in_process_driver("1", false);
    queue_tasks(&mut d, 3);
    run_build(&mut d, 0, Some(0), 1);
    assert!(d.all_completed());
    match &d.tasks[0].outcome {
        Some(TaskOutcome::Failure { .. }) => {}
        other => panic!("expected a failure outcome, got {:?}", other),
    }
    // With one slot, the failing task finished before the others started:
    // they are recorded as never run.
    assert_eq!(d.tasks[1].outcome, Some(TaskOutcome::NotRun));
    assert_eq!(d.tasks[2].outcome, Some(TaskOutcome::NotRun));
    let failed = d.aggregate().unwrap_err();
    assert_eq!(failed, vec![0]);
    assert_eq!(pool_available(&d), 1);
}

#[test]
fn large_diagnostics_are_kept_whole() {
    // A child writes more diagnostic text than a typical pipe buffer: the
    // run completes and the full text is present in the task's result.
    let mut d = in_process_driver("1", false);
    queue_tasks(&mut d, 1);
    // Walk the task to the running state.
    loop {
        match d.next_action(0) {
            Action::PollToken => {
                let _ = d.poll_token(0, HelperPoll::Empty);
            }
            Action::Spawn => {
                d.on_spawned(0);
                break;
            }
            _ => unreachable!(),
        }
    }
    // The child emits two hundred kilobytes in pipe-buffer-sized pieces.
    let chunk = [b'x'; 4096];
    let mut sent = 0usize;
    while sent < 200_000 {
        let n = std::cmp::min(4096, 200_000 - sent);
        d.on_stderr_chunk(0, &chunk[..n]);
        sent += n;
    }
    d.on_child_exited(0, true, "exit status: 0".to_string());
    // A late remainder arrives while draining.
    d.on_stderr_chunk(0, b"tail");
    let _ = d.on_drained(0);
    assert!(d.all_completed());
    assert_eq!(d.tasks[0].stderr.len(), 200_004);
    assert!(d.tasks[0].stderr[..200_000].iter().all(|b| *b == b'x'));
    assert_eq!(&d.tasks[0].stderr[200_000..], b"tail");
    assert_eq!(d.tasks[0].outcome, Some(TaskOutcome::Success));
    assert_eq!(pool_available(&d), 1);
}

#[test]
fn missing_tool_is_not_an_exec_error() {
    // The executable named in a task's command does not exist: the task
    // fails as a missing tool, not as a failing one, and is not retried.
    let mut d = in_process_driver("2", false);
    queue_tasks(&mut d, 1);
    match d.poll_token(0, HelperPoll::Empty) {
        TokenStep::Started => {}
        other => panic!("a slot is free, got {:?}", other),
    }
    let _ = d.on_spawn_failed(0, true, "No such file or directory".to_string());
    assert!(d.all_completed());
    match &d.tasks[0].outcome {
        Some(TaskOutcome::Failure { error }) => {
            assert_eq!(error.kind, ErrorKind::ToolNotFound);
            assert!(error.message().contains("cc"));
        }
        other => panic!("expected a failure outcome, got {:?}", other),
    }
    assert_eq!(d.next_action(0), Action::Done);
    assert_eq!(pool_available(&d), 2);
}

#[test]
fn spawn_failure_other_than_missing_tool() {
    let mut d = in_process_driver("1", false);
    queue_tasks(&mut d, 1);
    assert_eq!(d.poll_token(0, HelperPoll::Empty), TokenStep::Started);
    let _ = d.on_spawn_failed(0, false, "permission denied".to_string());
    match &d.tasks[0].outcome {
        Some(TaskOutcome::Failure { error }) => {
            assert_eq!(error.kind, ErrorKind::ToolExecError);
            assert!(error.message().contains("permission denied"));
        }
        other => panic!("expected a failure outcome, got {:?}", other),
    }
    assert_eq!(pool_available(&d), 1);
}

#[test]
fn wait_failure_is_an_exec_error() {
    let mut d = in_process_driver("1", false);
    queue_tasks(&mut d, 1);
    assert_eq!(d.poll_token(0, HelperPoll::Empty), TokenStep::Started);
    d.on_spawned(0);
    let _ = d.on_wait_failed(0, "interrupted".to_string());
    match &d.tasks[0].outcome {
        Some(TaskOutcome::Failure { error }) => {
            assert_eq!(error.kind, ErrorKind::ToolExecError);
            assert!(error.message().contains("interrupted"));
        }
        other => panic!("expected a failure outcome, got {:?}", other),
    }
    assert_eq!(pool_available(&d), 1);
}

#[test]
fn up_to_date_task_is_skipped_without_a_token() {
    let mut d = in_process_driver("1", false);
    queue_tasks(&mut d, 2);
    d.skip_task(0);
    assert_eq!(d.tasks[0].outcome, Some(TaskOutcome::UpToDate));
    assert_eq!(pool_available(&d), 1);
    run_build(&mut d, 1, None, 1);
    assert_eq!(d.aggregate(), Ok(()));
    assert_eq!(pool_available(&d), 1);
}

#[test]
fn exec_failure_message_names_the_command() {
    let mut d = in_process_driver("1", false);
    d.push_task(
        "a.c".to_string(),
        "a.o".to_string(),
        vec!["cc".to_string(), "-c".to_string(), "a.c".to_string()],
    );
    assert_eq!(d.poll_token(0, HelperPoll::Empty), TokenStep::Started);
    d.on_spawned(0);
    d.on_child_exited(0, false, "exit status: 2".to_string());
    let _ = d.on_drained(0);
    match &d.tasks[0].outcome {
        Some(TaskOutcome::Failure { error }) => {
            assert_eq!(
                error.message(),
                "command `cc -c a.c` did not execute successfully (exit status: 2)"
            );
        }
        other => panic!("expected a failure outcome, got {:?}", other),
    }
}

#[test]
fn stream_setup_failure_is_an_io_error() {
    let mut d = in_process_driver("1", false);
    queue_tasks(&mut d, 1);
    assert_eq!(d.poll_token(0, HelperPoll::Empty), TokenStep::Started);
    let _ = d.on_setup_failed(0, "operation not permitted".to_string());
    match &d.tasks[0].outcome {
        Some(TaskOutcome::Failure { error }) => {
            assert_eq!(error.kind, ErrorKind::IOError);
            assert!(error.message().contains("operation not permitted"));
        }
        other => panic!("expected a failure outcome, got {:?}", other),
    }
    assert_eq!(pool_available(&d), 1);
}

#[test]
fn drain_failure_is_an_io_error() {
    // Reading the child's error stream fails mid-drain: the task fails with
    // an input/output error and its token returns.
    let mut d = in_process_driver("1", false);
    queue_tasks(&mut d, 1);
    assert_eq!(d.poll_token(0, HelperPoll::Empty), TokenStep::Started);
    d.on_spawned(0);
    d.on_stderr_chunk(0, b"partial");
    let _ = d.on_drain_failed(0, "bad file descriptor".to_string());
    assert!(d.all_completed());
    match &d.tasks[0].outcome {
        Some(TaskOutcome::Failure { error }) => {
            assert_eq!(error.kind, ErrorKind::IOError);
            assert!(error.message().contains("bad file descriptor"));
        }
        other => panic!("expected a failure outcome, got {:?}", other),
    }
    // What was captured before the failure is kept.
    assert_eq!(&d.tasks[0].stderr, b"partial");
    assert_eq!(pool_available(&d), 1);
}

#[test]
fn spawn_failure_with_an_empty_command() {
    // A task with no command at all still completes as failed.
    let mut d = in_process_driver("1", false);
    d.push_task("a.c".to_string(), "a.o".to_string(), Vec::new());
    assert_eq!(d.poll_token(0, HelperPoll::Empty), TokenStep::Started);
    let _ = d.on_spawn_failed(0, false, "empty command".to_string());
    assert!(d.all_completed());
    match &d.tasks[0].outcome {
        Some(TaskOutcome::Failure { error }) => {
            assert_eq!(error.kind, ErrorKind::ToolExecError);
        }
        other => panic!("expected a failure outcome, got {:?}", other),
    }
    assert_eq!(pool_available(&d), 1);
}

#[test]
fn failure_report_carries_the_captured_diagnostics() {
    // The aggregate failure lists the failed file with its command line and
    // the full diagnostic text the child wrote.
    let mut d = in_process_driver("1", false);
    queue_tasks(&mut d, 1);
    assert_eq!(d.poll_token(0, HelperPoll::Empty), TokenStep::Started);
    d.on_spawned(0);
    d.on_stderr_chunk(0, b"f0.c:3: error: expected a semicolon\n");
    d.on_child_exited(0, false, "exit status: 1".to_string());
    let _ = d.on_drained(0);
    assert!(d.all_completed());
    let report = String::from_utf8_lossy(&d.failure_report()).into_owned();
    assert!(report.contains("f0.c: "));
    assert!(report.contains("command `cc -c f0.c` did not execute successfully (exit status: 1)"));
    assert!(report.contains("error: expected a semicolon"));
    // Successful tasks contribute nothing.
    let mut ok = in_process_driver("1", false);
    queue_tasks(&mut ok, 1);
    run_build(&mut ok, 0, None, 1);
    assert!(ok.failure_report().is_empty());
}
