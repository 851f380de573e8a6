use cc::{
    AcquireStep, ActiveJobTokenServer, ErrorKind, HelperPoll, InProcessJobServer,
    InheritedJobServer, JobTokenServer, JobserverAuth, ReleaseDisposition, TokenReturn, TryAcquire,
    parallelism_from_hint, parse_jobserver_auth, parse_u32,
};

#[test]
fn default_capacity_is_four() {
    // No inherited handle, no parallelism hint: the in-process pool with
    // four slots.
    let pool = JobTokenServer::new(None, None);
    match pool {
        JobTokenServer::InProcess { server } => {
            assert_eq!(server.available(), 4);
            assert_eq!(server.capacity(), 4);
        }
        JobTokenServer::Inherited { .. } => panic!("expected the in-process pool"),
    }
}

#[test]
fn hint_sets_capacity() {
    let pool = JobTokenServer::new(None, Some("7"));
    match pool {
        JobTokenServer::InProcess { server } => {
            assert_eq!(server.capacity(), 7);
        }
        JobTokenServer::Inherited { .. } => panic!("expected the in-process pool"),
    }
}

#[test]
fn bad_hint_falls_back_to_four() {
    assert_eq!(parallelism_from_hint(Some("not-a-number")), 4);
    assert_eq!(parallelism_from_hint(Some("")), 4);
    assert_eq!(parallelism_from_hint(Some("-3")), 4);
    assert_eq!(parallelism_from_hint(Some("99999999999999999")), 4);
    assert_eq!(parallelism_from_hint(Some("12")), 12);
    assert_eq!(parallelism_from_hint(Some("+12")), 12);
    assert_eq!(parallelism_from_hint(None), 4);
}

#[test]
fn parse_u32_accepts_exactly_numerals() {
    assert_eq!(parse_u32("0"), Some(0));
    assert_eq!(parse_u32("123"), Some(123));
    assert_eq!(parse_u32("+7"), Some(7));
    assert_eq!(parse_u32("4294967295"), Some(4294967295));
    assert_eq!(parse_u32("4294967296"), None);
    assert_eq!(parse_u32(""), None);
    assert_eq!(parse_u32("+"), None);
    assert_eq!(parse_u32("12a"), None);
    assert_eq!(parse_u32(" 12"), None);
}

#[test]
fn acquire_release_cycles_restore_capacity() {
    // N acquire/release cycles sequentially: the pool ends at its starting
    // capacity, and never climbs above it.
    let mut pool = InProcessJobServer::new(3);
    for _ in 0..10 {
        let token = pool.try_acquire().expect("a slot is free");
        assert_eq!(pool.available(), 2);
        pool.release(token);
        assert_eq!(pool.available(), 3);
        assert!(pool.available() <= pool.capacity());
    }
    assert_eq!(pool.available(), 3);
}

#[test]
fn pool_exhausts_and_refills() {
    let mut pool = InProcessJobServer::new(2);
    let t1 = pool.try_acquire().unwrap();
    let t2 = pool.try_acquire().unwrap();
    assert!(pool.try_acquire().is_none());
    assert_eq!(pool.available(), 0);
    pool.release(t1);
    assert_eq!(pool.available(), 1);
    pool.release(t2);
    assert_eq!(pool.available(), 2);
    assert_eq!(pool.capacity(), 2);
}

#[test]
fn implicit_token_is_consumed_first_and_restored_first() {
    let mut server = InheritedJobServer::new();
    // The first acquisition takes the implicit token without touching the
    // shared primitive.
    let t = server.take_implicit().expect("the implicit token is in hand");
    // A second acquisition has to probe the primitive.
    assert!(server.take_implicit().is_none());
    // The first release restores the flag instead of crediting the
    // primitive.
    assert_eq!(server.release(t), ReleaseDisposition::RestoredImplicit);
    // With the flag set, a further token goes back to the primitive.
    let t2 = server.token_from_primitive();
    assert_eq!(server.release(t2), ReleaseDisposition::ReturnToPrimitive);
}

#[test]
fn try_acquire_dispatches_by_variant() {
    let mut pool = JobTokenServer::new(None, Some("1"));
    match pool.try_acquire() {
        TryAcquire::Ready { token } => assert!(token.is_some()),
        TryAcquire::ProbePrimitive => panic!("the in-process pool never probes"),
    }
    match pool.try_acquire() {
        TryAcquire::Ready { token } => assert!(token.is_none()),
        TryAcquire::ProbePrimitive => panic!("the in-process pool never probes"),
    }

    let mut inherited = JobTokenServer::new(Some(InheritedJobServer::new()), None);
    match inherited.try_acquire() {
        TryAcquire::Ready { token } => assert!(token.is_some()),
        TryAcquire::ProbePrimitive => panic!("the implicit token comes first"),
    }
    match inherited.try_acquire() {
        TryAcquire::Ready { .. } => panic!("the implicit token is spent"),
        TryAcquire::ProbePrimitive => {}
    }
}

#[test]
fn active_acquire_walks_the_helper_protocol() {
    let server = JobTokenServer::new(Some(InheritedJobServer::new()), None);
    let mut active = ActiveJobTokenServer::new(server);

    // Fast path: the implicit token.
    match active.acquire_poll(HelperPoll::Empty) {
        AcquireStep::Acquired { .. } => {}
        _ => panic!("the implicit token decides the first poll"),
    }
    // Implicit token spent, queue empty: exactly one request is issued.
    match active.acquire_poll(HelperPoll::Empty) {
        AcquireStep::RequestToken => {}
        _ => panic!("one blocking request must be issued"),
    }
    // A second waiter polls the same pending request instead of issuing
    // another.
    match active.acquire_poll(HelperPoll::Empty) {
        AcquireStep::Wait => {}
        _ => panic!("no second request while one is outstanding"),
    }
    // The helper delivers a token.
    match active.acquire_poll(HelperPoll::Granted) {
        AcquireStep::Acquired { .. } => {}
        _ => panic!("a queued grant decides the poll"),
    }
    // A failed wait surfaces as an error.
    match active.acquire_poll(HelperPoll::GrantFailed {
        message: "interrupted".to_string(),
    }) {
        AcquireStep::Failed { error } => {
            assert_eq!(error.kind, ErrorKind::IOError);
            assert_eq!(error.message(), "interrupted");
        }
        _ => panic!("a failed wait is an error"),
    }
    // A closed helper channel is an invariant violation.
    match active.acquire_poll(HelperPoll::Disconnected) {
        AcquireStep::Failed { error } => {
            assert_eq!(error.kind, ErrorKind::JobserverHelpThreadError);
        }
        _ => panic!("a closed channel is an error"),
    }
}

#[test]
fn active_release_routes_by_variant() {
    let mut local = ActiveJobTokenServer::new(JobTokenServer::new(None, Some("2")));
    let token = match local.acquire_poll(HelperPoll::Empty) {
        AcquireStep::Acquired { token } => token,
        _ => panic!("a slot is free"),
    };
    assert_eq!(local.release_token(token), TokenReturn::Local);

    // The implicit token and one granted by the helper are both out; the
    // first release restores the implicit flag, the second must credit the
    // shared primitive.
    let mut inherited =
        ActiveJobTokenServer::new(JobTokenServer::new(Some(InheritedJobServer::new()), None));
    let implicit = match inherited.acquire_poll(HelperPoll::Empty) {
        AcquireStep::Acquired { token } => token,
        _ => panic!("the implicit token is in hand"),
    };
    let granted = match inherited.acquire_poll(HelperPoll::Granted) {
        AcquireStep::Acquired { token } => token,
        _ => panic!("a queued grant decides the poll"),
    };
    assert_eq!(inherited.release_token(implicit), TokenReturn::RestoredImplicit);
    assert_eq!(inherited.release_token(granted), TokenReturn::CreditPrimitive);
}

#[test]
fn jobserver_auth_fd_pair() {
    match parse_jobserver_auth("--jobserver-fds ignored --jobserver-auth=3,4") {
        Some(JobserverAuth::FdPair { read, write }) => {
            assert_eq!(read, 3);
            assert_eq!(write, 4);
        }
        other => panic!("expected the descriptor pair, got {:?}", other),
    }
}

#[test]
fn jobserver_auth_semaphore_name() {
    match parse_jobserver_auth("-j4 --jobserver-auth=gmake_semaphore_1234") {
        Some(JobserverAuth::SemaphoreName { name }) => {
            assert_eq!(name, "gmake_semaphore_1234");
        }
        other => panic!("expected the semaphore name, got {:?}", other),
    }
}

#[test]
fn jobserver_auth_absent() {
    assert!(parse_jobserver_auth("").is_none());
    assert!(parse_jobserver_auth("-j8 --no-print-directory").is_none());
    // A bare marker without a payload names no handle, and the search goes
    // on past it.
    assert!(parse_jobserver_auth("--jobserver-auth=").is_none());
    match parse_jobserver_auth("--jobserver-auth= --jobserver-auth=5,6") {
        Some(JobserverAuth::FdPair { read, write }) => {
            assert_eq!(read, 5);
            assert_eq!(write, 6);
        }
        other => panic!("expected the descriptor pair, got {:?}", other),
    }
}

#[test]
fn jobserver_auth_tab_separated() {
    match parse_jobserver_auth("-j2\t--jobserver-auth=7,8") {
        Some(JobserverAuth::FdPair { read, write }) => {
            assert_eq!(read, 7);
            assert_eq!(write, 8);
        }
        other => panic!("expected the descriptor pair, got {:?}", other),
    }
}

#[test]
fn inherited_handle_wins_over_hint() {
    let pool = JobTokenServer::new(Some(InheritedJobServer::new()), Some("9"));
    match pool {
        JobTokenServer::Inherited { .. } => {}
        JobTokenServer::InProcess { .. } => panic!("the inherited pool must be kept"),
    }
}

#[test]
fn granted_unit_is_banked_when_the_implicit_token_wins() {
    // A release restores the implicit flag while a requested grant sits on
    // the helper queue. The next waiter's poll consumes the queue *and* the
    // implicit token is available: the grant must not be lost — it stays
    // banked for the waiter after that, and the request bookkeeping is
    // cleared so later requests can still be issued.
    let mut active =
        ActiveJobTokenServer::new(JobTokenServer::new(Some(InheritedJobServer::new()), None));

    // First waiter takes the implicit token.
    let first = match active.acquire_poll(HelperPoll::Empty) {
        AcquireStep::Acquired { token } => token,
        _ => panic!("the implicit token is in hand"),
    };
    // Second waiter finds nothing and issues the one blocking request.
    match active.acquire_poll(HelperPoll::Empty) {
        AcquireStep::RequestToken => {}
        _ => panic!("one blocking request must be issued"),
    }
    // The first task finishes; its release restores the implicit flag.
    assert_eq!(active.release_token(first), TokenReturn::RestoredImplicit);
    // The helper's wait succeeds; the second waiter's poll consumes the
    // grant while the implicit token is set. The implicit token answers the
    // waiter and the grant is banked, not dropped.
    match active.acquire_poll(HelperPoll::Granted) {
        AcquireStep::Acquired { token } => {
            assert_eq!(active.banked_grants, 1);
            assert!(!active.request_outstanding);
            active.release_token(token);
        }
        _ => panic!("the implicit token answers this waiter"),
    }
    // Hold the implicit token again so the next waiter must use the bank.
    let held = match active.acquire_poll(HelperPoll::Empty) {
        AcquireStep::Acquired { token } => token,
        _ => panic!("the implicit token was restored"),
    };
    // The banked grant serves the next waiter; nothing was lost.
    let banked_token = match active.acquire_poll(HelperPoll::Empty) {
        AcquireStep::Acquired { token } => {
            assert_eq!(active.banked_grants, 0);
            token
        }
        _ => panic!("the banked grant serves the next waiter"),
    };
    // And with the bank empty, requests flow again.
    match active.acquire_poll(HelperPoll::Empty) {
        AcquireStep::RequestToken => {}
        _ => panic!("a fresh request must be issued"),
    }
    // Releasing both slots: the first restores the implicit flag, the
    // second goes back to the shared primitive.
    assert_eq!(active.release_token(held), TokenReturn::RestoredImplicit);
    assert_eq!(active.release_token(banked_token), TokenReturn::CreditPrimitive);
}

#[test]
fn observed_failure_is_kept_for_the_next_waiter() {
    // A failed wait observed while the implicit token wins is not
    // swallowed: the next cold-path waiter receives it.
    let mut active =
        ActiveJobTokenServer::new(JobTokenServer::new(Some(InheritedJobServer::new()), None));
    let first = match active.acquire_poll(HelperPoll::Empty) {
        AcquireStep::Acquired { token } => token,
        _ => panic!("the implicit token is in hand"),
    };
    match active.acquire_poll(HelperPoll::Empty) {
        AcquireStep::RequestToken => {}
        _ => panic!("one blocking request must be issued"),
    }
    assert_eq!(active.release_token(first), TokenReturn::RestoredImplicit);
    // The implicit token wins this poll; the failure is kept aside.
    let held = match active.acquire_poll(HelperPoll::GrantFailed {
        message: "interrupted".to_string(),
    }) {
        AcquireStep::Acquired { token } => token,
        _ => panic!("the implicit token answers this waiter"),
    };
    // The next waiter receives the kept failure.
    match active.acquire_poll(HelperPoll::Empty) {
        AcquireStep::Failed { error } => {
            assert_eq!(error.kind, ErrorKind::IOError);
            assert_eq!(error.message(), "interrupted");
        }
        _ => panic!("the kept failure reaches a waiter"),
    }
    active.release_token(held);
}
