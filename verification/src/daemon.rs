//! The life of the server: binding its port, serving, and starting again.
use vstd::prelude::*;

verus! {

/// The address that the server listens on.
pub const BIND_ADDR: &'static str = "0.0.0.0";

/// The port that the server listens on.
pub const PORT: u16 = 19827;

/// How often binding the port is tried in a row.
pub const MAX_BIND_RETRIES: u32 = 3;

/// After how many restarts in a row the server is given up.
pub const MAX_RESTART_RETRIES: u32 = 10;

/// The pause between two tries to bind the port.
pub const BIND_RETRY_DELAY_SECS: u64 = 2;

/// The pause before a restart.
pub const RESTART_DELAY_SECS: u64 = 5;

pub const STATUS_STARTING: u8 = 0;

pub const STATUS_RUNNING: u8 = 1;

pub const STATUS_PORT_CONFLICT: u8 = 2;

pub const STATUS_ERROR: u8 = 3;

/// The name of a daemon status.
pub open spec fn status_name(status: u8) -> Seq<char> {
    if status == STATUS_STARTING {
        "starting"@
    } else if status == STATUS_RUNNING {
        "running"@
    } else if status == STATUS_PORT_CONFLICT {
        "port_conflict"@
    } else {
        "error"@
    }
}

/// Gives the daemon status as a text. Every code but the first three means an error.
pub fn get_daemon_status(status: u8) -> (name: &'static str)
    ensures
        name@ == status_name(status),
{
    match status {
        0 => "starting",
        1 => "running",
        2 => "port_conflict",
        _ => "error",
    }
}

/// How far the server has come.
pub struct Supervisor {
    /// The number of the next try to bind the port, from 1 on.
    pub attempt: u32,
    /// How often the server loop has ended since the port was last bound.
    pub restart_count: u32,
    pub status: u8,
}

/// What became of the last directive.
pub enum DaemonEvent {
    Bound,
    BindFailed,
    ServingEnded,
}

/// What to do next.
pub enum Directive {
    Serve,
    BindAfter { seconds: u64 },
    Stop,
}

impl Supervisor {
    /// The tries and the restarts are counted within their limits, and a server that
    /// runs has not ended since it was bound.
    pub open spec fn well_formed(self) -> bool {
        &&& 1 <= self.attempt <= MAX_BIND_RETRIES
        &&& self.restart_count <= MAX_RESTART_RETRIES
        &&& self.status == STATUS_RUNNING ==> self.restart_count == 0
    }
}

/// A supervisor that has yet to try to bind the port.
pub fn new_supervisor() -> (supervisor: Supervisor)
    ensures
        supervisor == (Supervisor { attempt: 1, restart_count: 0, status: STATUS_STARTING }),
        supervisor.well_formed(),
{
    Supervisor { attempt: 1, restart_count: 0, status: STATUS_STARTING }
}

/// The state after an event, and what to do then.
///
/// A failed bind is tried again after a pause, up to the last try: then the port counts
/// as taken and nothing more is tried. Once bound, the server runs. When its loop ends,
/// it is in error, and is started anew after a pause, unless that happened too often.
pub open spec fn supervised(before: Supervisor, event: DaemonEvent) -> (Supervisor, Directive) {
    match event {
        DaemonEvent::Bound => (
            Supervisor { restart_count: 0, status: STATUS_RUNNING, ..before },
            Directive::Serve,
        ),
        DaemonEvent::BindFailed => if before.attempt < MAX_BIND_RETRIES {
            (
                Supervisor { attempt: (before.attempt + 1) as u32, ..before },
                Directive::BindAfter { seconds: BIND_RETRY_DELAY_SECS },
            )
        } else {
            (Supervisor { status: STATUS_PORT_CONFLICT, ..before }, Directive::Stop)
        },
        DaemonEvent::ServingEnded => {
            let restarts = (before.restart_count + 1) as u32;
            if restarts >= MAX_RESTART_RETRIES {
                (
                    Supervisor { restart_count: restarts, status: STATUS_ERROR, ..before },
                    Directive::Stop,
                )
            } else {
                (
                    Supervisor { attempt: 1, restart_count: restarts, status: STATUS_ERROR },
                    Directive::BindAfter { seconds: RESTART_DELAY_SECS },
                )
            }
        },
    }
}

/// Takes note of an event and decides what to do next.
pub fn supervise(supervisor: &mut Supervisor, event: DaemonEvent) -> (directive: Directive)
    requires
        old(supervisor).well_formed(),
        event is ServingEnded ==> old(supervisor).restart_count < MAX_RESTART_RETRIES,
    ensures
        (*final(supervisor), directive) == supervised(*old(supervisor), event),
        final(supervisor).well_formed(),
{
    match event {
        DaemonEvent::Bound => {
            supervisor.status = STATUS_RUNNING;
            supervisor.restart_count = 0;
            Directive::Serve
        },
        DaemonEvent::BindFailed => {
            if supervisor.attempt < MAX_BIND_RETRIES {
                supervisor.attempt = supervisor.attempt + 1;
                Directive::BindAfter { seconds: BIND_RETRY_DELAY_SECS }
            } else {
                supervisor.status = STATUS_PORT_CONFLICT;
                Directive::Stop
            }
        },
        DaemonEvent::ServingEnded => {
            supervisor.status = STATUS_ERROR;
            supervisor.restart_count = supervisor.restart_count + 1;
            if supervisor.restart_count >= MAX_RESTART_RETRIES {
                Directive::Stop
            } else {
                supervisor.attempt = 1;
                Directive::BindAfter { seconds: RESTART_DELAY_SECS }
            }
        },
    }
}

/// The server listens where the browser extension and the desktop app look for it, and its
/// states have the names by which it is asked for them.
pub proof fn law_names_and_numbers(status: u8)
    ensures
        BIND_ADDR@ == "0.0.0.0"@,
        PORT == 19827,
        STATUS_STARTING == 0,
        STATUS_RUNNING == 1,
        STATUS_PORT_CONFLICT == 2,
        STATUS_ERROR == 3,
        status_name(0) == "starting"@,
        status_name(1) == "running"@,
        status_name(2) == "port_conflict"@,
        status > 2 ==> status_name(status) == "error"@,
{
}

/// What each event leads to. A bound server serves and runs, and its restarts are forgotten. A
/// failed bind is tried again after two seconds, and after the third the port counts as taken. A
/// server that has ended is in error, and starts anew with all its tries after five seconds,
/// unless this is the tenth time in a row.
pub proof fn law_events_of_the_server(before: Supervisor)
    requires
        before.restart_count < u32::MAX,
    ensures
        supervised(before, DaemonEvent::Bound) == (
            Supervisor { attempt: before.attempt, restart_count: 0, status: STATUS_RUNNING },
            Directive::Serve,
        ),
        before.attempt < 3 ==> supervised(before, DaemonEvent::BindFailed) == (
            Supervisor {
                attempt: (before.attempt + 1) as u32,
                restart_count: before.restart_count,
                status: before.status,
            },
            Directive::BindAfter { seconds: 2 },
        ),
        before.attempt >= 3 ==> supervised(before, DaemonEvent::BindFailed) == (
            Supervisor {
                attempt: before.attempt,
                restart_count: before.restart_count,
                status: STATUS_PORT_CONFLICT,
            },
            Directive::Stop,
        ),
        before.restart_count + 1 < 10 ==> supervised(before, DaemonEvent::ServingEnded) == (
            Supervisor {
                attempt: 1,
                restart_count: (before.restart_count + 1) as u32,
                status: STATUS_ERROR,
            },
            Directive::BindAfter { seconds: 5 },
        ),
        before.restart_count + 1 >= 10 ==> supervised(before, DaemonEvent::ServingEnded) == (
            Supervisor {
                attempt: before.attempt,
                restart_count: (before.restart_count + 1) as u32,
                status: STATUS_ERROR,
            },
            Directive::Stop,
        ),
{
}

/// The supervisor after some failed binds in a row.
pub open spec fn after_failed_binds(before: Supervisor, failures: nat) -> Supervisor
    decreases failures,
{
    if failures == 0 {
        before
    } else {
        supervised(
            after_failed_binds(before, (failures - 1) as nat),
            DaemonEvent::BindFailed,
        ).0
    }
}

/// Binding is given up, and the port counts as taken, exactly when the last of the
/// allowed tries in a row fails. Each failure before that is followed by a pause and
/// another try, and leaves the status as it was.
pub proof fn law_bind_retries(before: Supervisor, failures: nat)
    requires
        before.well_formed(),
        before.attempt == 1,
        failures < MAX_BIND_RETRIES,
    ensures
        ({
            let (after, directive) = supervised(
                after_failed_binds(before, failures),
                DaemonEvent::BindFailed,
            );
            if failures + 1 == MAX_BIND_RETRIES {
                directive == Directive::Stop && after.status == STATUS_PORT_CONFLICT
            } else {
                &&& directive == Directive::BindAfter { seconds: BIND_RETRY_DELAY_SECS }
                &&& after.status == before.status
            }
        }),
{
    lemma_failed_binds(before, failures);
}

proof fn lemma_failed_binds(before: Supervisor, failures: nat)
    requires
        before.attempt == 1,
        failures < MAX_BIND_RETRIES,
    ensures
        after_failed_binds(before, failures) == (Supervisor {
            attempt: (1 + failures) as u32,
            ..before
        }),
    decreases failures,
{
    if failures > 0 {
        lemma_failed_binds(before, (failures - 1) as nat);
    }
}

/// A server that was bound starts anew whenever its loop ends, with all tries to bind
/// before it: binding forgets the restarts there were.
pub proof fn law_bound_server_restarts(before: Supervisor)
    ensures
        ({
            let bound = supervised(before, DaemonEvent::Bound).0;
            supervised(bound, DaemonEvent::ServingEnded) == (
                Supervisor { attempt: 1, restart_count: 1, status: STATUS_ERROR },
                Directive::BindAfter { seconds: RESTART_DELAY_SECS },
            )
        }),
{
}

} // verus!
