use vstd::prelude::*;

verus! {

/// How long the worker sleeps between two accept attempts that found no client.
pub const POLL_INTERVAL_MS: u64 = 100;

/// Where a listener stands in its life.
#[derive(Debug, Clone, Copy, PartialEq, Eq)]
pub enum Phase {
    /// Created; no socket bound, no worker.
    Idle,
    /// Socket bound and worker running.
    Running,
    /// Torn down; it cannot start again.
    Stopped,
}

/// What `start` must do before the worker runs.
#[derive(Debug, Clone, Copy, PartialEq, Eq)]
pub enum StartStep {
    /// The listener was started before; starting it again is refused.
    AlreadyStarted,
    /// A file left from an earlier run sits at the path: remove it, then bind.
    RemoveStaleThenBind,
    /// Bind the socket at the path.
    Bind,
}

/// What one accept attempt on the non-blocking socket brought.
#[derive(Debug, Clone, Copy, PartialEq, Eq)]
pub enum AcceptEvent {
    Connection,
    WouldBlock,
    Failed,
}

/// What the worker does next in its accept loop.
#[derive(Debug, Clone, Copy, PartialEq, Eq)]
pub enum WorkerAction {
    /// The shutdown flag is set: leave the loop.
    Exit,
    /// Read the accepted connection line by line.
    ReadConnection,
    /// No client waits: sleep one polling interval, then try again.
    Sleep,
    /// The accept failed: log it and try again.
    LogAndRetry,
}

/// What one read on an accepted connection brought.
#[derive(Debug, Clone, Copy, PartialEq, Eq)]
pub enum LineEvent {
    Line,
    Failed,
}

/// What the worker does with it.
#[derive(Debug, Clone, Copy, PartialEq, Eq)]
pub enum LineAction {
    /// The shutdown flag is set: stop reading.
    Stop,
    /// Parse the line and forward its command.
    Handle,
    /// The read failed: log it and close this connection only.
    LogAndClose,
}

/// The steps of a teardown.
#[derive(Debug, Clone, Copy, PartialEq, Eq)]
pub struct TeardownPlan {
    /// Set the shutdown flag.
    pub signal: bool,
    /// Wait for the worker to end.
    pub join: bool,
    /// Remove the socket file.
    pub remove_file: bool,
}

pub open spec fn start_step(phase: Phase, stale_file: bool) -> StartStep {
    match phase {
        Phase::Idle => if stale_file {
            StartStep::RemoveStaleThenBind
        } else {
            StartStep::Bind
        },
        _ => StartStep::AlreadyStarted,
    }
}

pub open spec fn accept_step(shutdown: bool, ev: AcceptEvent) -> WorkerAction {
    if shutdown {
        WorkerAction::Exit
    } else {
        match ev {
            AcceptEvent::Connection => WorkerAction::ReadConnection,
            AcceptEvent::WouldBlock => WorkerAction::Sleep,
            AcceptEvent::Failed => WorkerAction::LogAndRetry,
        }
    }
}

pub open spec fn line_step(shutdown: bool, ev: LineEvent) -> LineAction {
    if shutdown {
        LineAction::Stop
    } else {
        match ev {
            LineEvent::Line => LineAction::Handle,
            LineEvent::Failed => LineAction::LogAndClose,
        }
    }
}

/// The steps of a teardown of `l`: always raise the flag, join the worker
/// if one runs, remove the socket file if it exists.
pub open spec fn teardown_plan(l: Lifecycle, socket_exists: bool) -> TeardownPlan {
    TeardownPlan { signal: true, join: l.worker, remove_file: socket_exists }
}

/// A listener after teardown: stopped, with no worker left.
pub open spec fn after_teardown(l: Lifecycle) -> Lifecycle {
    Lifecycle { phase: Phase::Stopped, worker: false }
}

/// The life of the socket listener: the decisions of `start`, of the worker's
/// loops and of teardown, apart from the socket and the thread themselves.
#[derive(Debug, Clone, Copy, PartialEq, Eq)]
pub struct Lifecycle {
    pub phase: Phase,
    /// Whether a worker thread was spawned and not yet joined.
    pub worker: bool,
}

impl Lifecycle {
    /// A worker runs exactly while the listener is running.
    pub open spec fn wf(&self) -> bool {
        self.worker <==> self.phase is Running
    }

    pub fn new() -> (r: Lifecycle)
        ensures
            r.phase is Idle,
            !r.worker,
            r.wf(),
    {
        Lifecycle { phase: Phase::Idle, worker: false }
    }

    /// Decides what `start` does, given whether a file already sits at the path.
    pub fn plan_start(&self, stale_file: bool) -> (r: StartStep)
        ensures
            r == start_step(self.phase, stale_file),
    {
        match self.phase {
            Phase::Idle => if stale_file {
                StartStep::RemoveStaleThenBind
            } else {
                StartStep::Bind
            },
            _ => StartStep::AlreadyStarted,
        }
    }

    /// Records that the socket is bound and the worker spawned.
    pub fn started(&mut self)
        requires
            old(self).phase is Idle,
        ensures
            final(self).phase is Running,
            final(self).worker,
            final(self).wf(),
    {
        self.phase = Phase::Running;
        self.worker = true;
    }

    /// Decides the steps of a teardown, given whether the socket file exists,
    /// and records it. Safe in every phase and any number of times.
    pub fn teardown(&mut self, socket_exists: bool) -> (r: TeardownPlan)
        ensures
            r == teardown_plan(*old(self), socket_exists),
            *final(self) == after_teardown(*old(self)),
            final(self).wf(),
    {
        let join = self.worker;
        self.phase = Phase::Stopped;
        self.worker = false;
        TeardownPlan { signal: true, join, remove_file: socket_exists }
    }
}

/// Decides the worker's next step after one accept attempt.
pub fn accept_action(shutdown: bool, ev: AcceptEvent) -> (r: WorkerAction)
    ensures
        r == accept_step(shutdown, ev),
{
    if shutdown {
        WorkerAction::Exit
    } else {
        match ev {
            AcceptEvent::Connection => WorkerAction::ReadConnection,
            AcceptEvent::WouldBlock => WorkerAction::Sleep,
            AcceptEvent::Failed => WorkerAction::LogAndRetry,
        }
    }
}

/// Decides what the worker does with one read on a connection.
pub fn line_action(shutdown: bool, ev: LineEvent) -> (r: LineAction)
    ensures
        r == line_step(shutdown, ev),
{
    if shutdown {
        LineAction::Stop
    } else {
        match ev {
            LineEvent::Line => LineAction::Handle,
            LineEvent::Failed => LineAction::LogAndClose,
        }
    }
}

/// A listener that was never started may be torn down, and teardown may be
/// repeated: every teardown removes an existing socket file, and only the
/// first one after a start waits for a worker.
pub proof fn lemma_teardown_idempotent(l: Lifecycle, first_exists: bool, second_exists: bool)
    ensures
        teardown_plan(l, first_exists).remove_file == first_exists,
        teardown_plan(after_teardown(l), second_exists).remove_file == second_exists,
        !teardown_plan(after_teardown(l), second_exists).join,
        l.phase is Idle && !l.worker ==> !teardown_plan(l, first_exists).join,
        after_teardown(after_teardown(l)) == after_teardown(l),
{
}

/// A fresh listener whose path holds a file left by an earlier run removes
/// that file and binds; one that has started refuses a second start.
pub proof fn lemma_start_over_stale_file(l: Lifecycle)
    ensures
        l.phase is Idle ==> start_step(l.phase, true) == StartStep::RemoveStaleThenBind,
        !(l.phase is Idle) ==> start_step(l.phase, true) == StartStep::AlreadyStarted,
        !(l.phase is Idle) ==> start_step(l.phase, false) == StartStep::AlreadyStarted,
{
}

/// Once the flag is raised the worker leaves at its next decision, whatever
/// the socket brought; while it is down, an idle socket only costs a sleep of
/// one polling interval.
pub proof fn lemma_shutdown_observed(a: AcceptEvent, e: LineEvent)
    ensures
        accept_step(true, a) == WorkerAction::Exit,
        line_step(true, e) == LineAction::Stop,
        accept_step(false, AcceptEvent::WouldBlock) == WorkerAction::Sleep,
{
}

} // verus!
