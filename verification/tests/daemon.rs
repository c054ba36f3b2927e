use clip_server::daemon::{
    get_daemon_status, new_supervisor, supervise, DaemonEvent, Directive, Supervisor,
    BIND_RETRY_DELAY_SECS, MAX_RESTART_RETRIES, RESTART_DELAY_SECS,
};

#[test]
fn status_names() {
    assert_eq!(get_daemon_status(0), "starting");
    assert_eq!(get_daemon_status(1), "running");
    assert_eq!(get_daemon_status(2), "port_conflict");
    assert_eq!(get_daemon_status(3), "error");
    assert_eq!(get_daemon_status(200), "error");
}

#[test]
fn third_failed_bind_is_the_last() {
    let mut supervisor = new_supervisor();
    for _ in 0..2 {
        let directive = supervise(&mut supervisor, DaemonEvent::BindFailed);
        assert!(matches!(directive, Directive::BindAfter { seconds: 2 }));
        assert_eq!(get_daemon_status(supervisor.status), "starting");
    }
    let directive = supervise(&mut supervisor, DaemonEvent::BindFailed);
    assert!(matches!(directive, Directive::Stop));
    assert_eq!(get_daemon_status(supervisor.status), "port_conflict");
    assert_eq!(BIND_RETRY_DELAY_SECS, 2);
}

#[test]
fn bound_server_starts_anew_when_it_ends() {
    let mut supervisor = new_supervisor();
    for _ in 0..30 {
        let directive = supervise(&mut supervisor, DaemonEvent::Bound);
        assert!(matches!(directive, Directive::Serve));
        assert_eq!(get_daemon_status(supervisor.status), "running");
        assert_eq!(supervisor.restart_count, 0);
        let directive = supervise(&mut supervisor, DaemonEvent::ServingEnded);
        assert!(matches!(directive, Directive::BindAfter { seconds: 5 }));
        assert_eq!(get_daemon_status(supervisor.status), "error");
        assert_eq!(supervisor.restart_count, 1);
        assert_eq!(supervisor.attempt, 1);
    }
    assert_eq!(RESTART_DELAY_SECS, 5);
}

#[test]
fn too_many_restarts_stop_the_server() {
    let mut supervisor = Supervisor {
        attempt: 1,
        restart_count: MAX_RESTART_RETRIES - 1,
        status: 3,
    };
    let directive = supervise(&mut supervisor, DaemonEvent::ServingEnded);
    assert!(matches!(directive, Directive::Stop));
    assert_eq!(supervisor.restart_count, 10);
}
