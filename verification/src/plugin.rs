//! The module's identity as OBS sees it, the frontend events it reacts to,
//! and the scheduling of the delayed Discord presence start.

use vstd::prelude::*;

verus! {

/// The module's description, NUL-terminated.
pub fn module_description() -> (r: &'static str)
    ensures
        r@ == "OBS Chzzk Extension\0"@,
{
    "OBS Chzzk Extension\0"
}

/// The module's name, NUL-terminated.
pub fn module_name() -> (r: &'static str)
    ensures
        r@ == "obs-chzzk-extension\0"@,
{
    "obs-chzzk-extension\0"
}

/// The module's author, NUL-terminated.
pub fn module_author() -> (r: &'static str)
    ensures
        r@ == "zeroday0619\0"@,
{
    "zeroday0619\0"
}

/// The libobs API version the module was built against: 32.1.1.
pub const LIBOBS_API_VER: u32 = 0x2001_0001;

/// OBS frontend event: streaming started.
pub const OBS_FRONTEND_EVENT_STREAMING_STARTED: i32 = 1;

/// OBS frontend event: streaming is stopping.
pub const OBS_FRONTEND_EVENT_STREAMING_STOPPING: i32 = 2;

/// OBS frontend event: streaming stopped.
pub const OBS_FRONTEND_EVENT_STREAMING_STOPPED: i32 = 3;

/// OBS frontend event: OBS is exiting.
pub const OBS_FRONTEND_EVENT_EXIT: i32 = 17;

/// Seconds between the start of a stream and the start of the presence.
pub const PRESENCE_START_DELAY_SECS: u64 = 20;

/// The name an event is logged under.
pub open spec fn event_name(event: i32) -> Seq<char> {
    if event == OBS_FRONTEND_EVENT_STREAMING_STARTED {
        "STREAMING_STARTED"@
    } else if event == OBS_FRONTEND_EVENT_STREAMING_STOPPING {
        "STREAMING_STOPPING"@
    } else if event == OBS_FRONTEND_EVENT_STREAMING_STOPPED {
        "STREAMING_STOPPED"@
    } else if event == OBS_FRONTEND_EVENT_EXIT {
        "EXIT"@
    } else {
        "OTHER"@
    }
}

/// The name `event` is logged under.
pub fn frontend_event_name(event: i32) -> (r: &'static str)
    ensures
        r@ == event_name(event),
{
    if event == OBS_FRONTEND_EVENT_STREAMING_STARTED {
        "STREAMING_STARTED"
    } else if event == OBS_FRONTEND_EVENT_STREAMING_STOPPING {
        "STREAMING_STOPPING"
    } else if event == OBS_FRONTEND_EVENT_STREAMING_STOPPED {
        "STREAMING_STOPPED"
    } else if event == OBS_FRONTEND_EVENT_EXIT {
        "EXIT"
    } else {
        "OTHER"
    }
}

/// What the module does on a frontend event.
#[derive(PartialEq, Eq, Structural, Clone, Copy, Debug)]
pub enum FrontendAction {
    /// Schedule the presence for the stream that started.
    StartPresence,
    /// Stop the presence.
    StopPresence,
    /// Nothing.
    Ignore,
}

/// What the module does on `event`.
pub open spec fn action_for(event: i32) -> FrontendAction {
    if event == OBS_FRONTEND_EVENT_STREAMING_STARTED {
        FrontendAction::StartPresence
    } else if event == OBS_FRONTEND_EVENT_STREAMING_STOPPING || event == OBS_FRONTEND_EVENT_STREAMING_STOPPED
        || event == OBS_FRONTEND_EVENT_EXIT {
        FrontendAction::StopPresence
    } else {
        FrontendAction::Ignore
    }
}

/// What the module does on `event`.
pub fn frontend_event_action(event: i32) -> (r: FrontendAction)
    ensures
        r == action_for(event),
{
    if event == OBS_FRONTEND_EVENT_STREAMING_STARTED {
        FrontendAction::StartPresence
    } else if event == OBS_FRONTEND_EVENT_STREAMING_STOPPING || event == OBS_FRONTEND_EVENT_STREAMING_STOPPED
        || event == OBS_FRONTEND_EVENT_EXIT {
        FrontendAction::StopPresence
    } else {
        FrontendAction::Ignore
    }
}

/// What happens when a delayed presence start wakes up.
#[derive(PartialEq, Eq, Structural, Clone, Copy, Debug)]
pub enum DelayedStart {
    /// A later start or a stop came in between: nothing happens.
    Cancelled,
    /// The presence was turned off in the meantime: nothing happens.
    Disabled,
    /// No presence could be built: nothing happens.
    NoConfig,
    /// Stop the running worker, if any, and start a new one.
    Start,
}

/// The generation counter of presence starts, and whether a presence
/// worker runs. Each start and each stop takes a new token; a delayed start
/// goes ahead only while its token is still the current one.
pub struct PresenceScheduler {
    pub token: u64,
    pub worker_running: bool,
}

/// What a delayed start with `token` decides in `s`.
pub open spec fn delayed_outcome(s: PresenceScheduler, token: u64, enabled: bool, config_built: bool) -> DelayedStart {
    if s.token != token {
        DelayedStart::Cancelled
    } else if !enabled {
        DelayedStart::Disabled
    } else if !config_built {
        DelayedStart::NoConfig
    } else {
        DelayedStart::Start
    }
}

/// The token after `t`, wrapping at the end of `u64`.
pub open spec fn next_token(t: u64) -> u64 {
    if t == u64::MAX {
        0
    } else {
        (t + 1) as u64
    }
}

/// The scheduler after a stream started, with the presence `enabled` or
/// not: a start takes a new token; a start that is turned off changes
/// nothing.
pub open spec fn started(s: PresenceScheduler, enabled: bool) -> PresenceScheduler {
    if enabled {
        PresenceScheduler { token: next_token(s.token), worker_running: s.worker_running }
    } else {
        s
    }
}

/// The scheduler after a stop: a new token, and no worker.
pub open spec fn stopped(s: PresenceScheduler) -> PresenceScheduler {
    PresenceScheduler { token: next_token(s.token), worker_running: false }
}

/// The scheduler after a delayed start with `token` woke up: the token
/// stays, and a worker runs where one ran or where this start went ahead.
pub open spec fn resumed(s: PresenceScheduler, token: u64, enabled: bool, config_built: bool) -> PresenceScheduler {
    PresenceScheduler {
        token: s.token,
        worker_running: s.worker_running || delayed_outcome(s, token, enabled, config_built)
            == DelayedStart::Start,
    }
}

/// One call on the scheduler.
#[derive(PartialEq, Eq, Structural, Clone, Copy, Debug)]
pub enum SchedulerOp {
    /// `start_presence_for_current_stream`, with the presence enabled or not.
    Start(bool),
    /// `stop_presence`.
    Stop,
    /// `resume_delayed_start` with a token, the enabled flag and whether a
    /// presence could be built.
    Resume(u64, bool, bool),
}

/// The scheduler after one call.
pub open spec fn after_op(s: PresenceScheduler, op: SchedulerOp) -> PresenceScheduler {
    match op {
        SchedulerOp::Start(enabled) => started(s, enabled),
        SchedulerOp::Stop => stopped(s),
        SchedulerOp::Resume(token, enabled, config_built) => resumed(s, token, enabled, config_built),
    }
}

/// The scheduler after the calls `ops`, in order.
pub open spec fn after_ops(s: PresenceScheduler, ops: Seq<SchedulerOp>) -> PresenceScheduler
    decreases ops.len(),
{
    if ops.len() == 0 {
        s
    } else {
        after_op(after_ops(s, ops.drop_last()), ops.last())
    }
}

/// Whether a call takes a new token: an enabled start or a stop.
pub open spec fn moves_token(op: SchedulerOp) -> bool {
    match op {
        SchedulerOp::Start(enabled) => enabled,
        SchedulerOp::Stop => true,
        SchedulerOp::Resume(..) => false,
    }
}

/// How many of `ops` take a new token.
pub open spec fn token_moves(ops: Seq<SchedulerOp>) -> nat
    decreases ops.len(),
{
    if ops.len() == 0 {
        0
    } else {
        token_moves(ops.drop_last()) + if moves_token(ops.last()) { 1nat } else { 0nat }
    }
}

/// The number of distinct tokens.
pub open spec fn token_period() -> int {
    0x1_0000_0000_0000_0000
}

impl PresenceScheduler {
    /// No start scheduled yet and no worker.
    pub fn new() -> (r: Self)
        ensures
            r.token == 0,
            !r.worker_running,
    {
        PresenceScheduler { token: 0, worker_running: false }
    }

    /// A stream started. Where the presence is enabled, a start is scheduled
    /// under a new token, which is returned: the caller waits
    /// `PRESENCE_START_DELAY_SECS` and then calls `resume_delayed_start`.
    pub fn start_presence_for_current_stream(&mut self, enabled: bool) -> (r: Option<u64>)
        ensures
            *final(self) == started(*old(self), enabled),
            r == (if enabled { Some(final(self).token) } else { None::<u64> }),
    {
        if !enabled {
            return None;
        }
        self.token = self.token.wrapping_add(1);
        Some(self.token)
    }

    /// A delayed start with `token` wakes up; `enabled` is whether the
    /// presence is still turned on, `config_built` whether a presence could
    /// be built. On `Start` the caller stops the running worker, if any, and
    /// starts a new one.
    pub fn resume_delayed_start(&mut self, token: u64, enabled: bool, config_built: bool) -> (r: DelayedStart)
        ensures
            r == delayed_outcome(*old(self), token, enabled, config_built),
            *final(self) == resumed(*old(self), token, enabled, config_built),
    {
        if self.token != token {
            DelayedStart::Cancelled
        } else if !enabled {
            DelayedStart::Disabled
        } else if !config_built {
            DelayedStart::NoConfig
        } else {
            self.worker_running = true;
            DelayedStart::Start
        }
    }

    /// Stops the presence: every pending delayed start becomes stale. Returns
    /// whether a worker ran, which the caller then stops.
    pub fn stop_presence(&mut self) -> (r: bool)
        ensures
            r == old(self).worker_running,
            *final(self) == stopped(*old(self)),
    {
        self.token = self.token.wrapping_add(1);
        let was_running = self.worker_running;
        self.worker_running = false;
        was_running
    }
}

/// A start that was scheduled and then followed by a stop never begins,
/// whatever the settings say when it wakes up.
pub proof fn lemma_stop_cancels_pending_start(s: PresenceScheduler, enabled: bool, config_built: bool)
    ensures
        delayed_outcome(
            PresenceScheduler { token: next_token(next_token(s.token)), worker_running: false },
            next_token(s.token),
            enabled,
            config_built,
        ) == DelayedStart::Cancelled,
{
}

/// Of two starts in a row, the earlier one is superseded.
pub proof fn lemma_later_start_supersedes(s: PresenceScheduler, enabled: bool, config_built: bool)
    ensures
        delayed_outcome(
            PresenceScheduler { token: next_token(next_token(s.token)), worker_running: s.worker_running },
            next_token(s.token),
            enabled,
            config_built,
        ) == DelayedStart::Cancelled,
{
}

/// The latest start, with the presence still on and built, goes ahead.
pub proof fn lemma_current_start_proceeds(s: PresenceScheduler)
    ensures
        delayed_outcome(
            PresenceScheduler { token: next_token(s.token), worker_running: s.worker_running },
            next_token(s.token),
            true,
            true,
        ) == DelayedStart::Start,
{
}

/// After any calls, the token has moved on once for each enabled start
/// and each stop, wrapping at the end of `u64`.
pub proof fn lemma_token_after_ops(s: PresenceScheduler, ops: Seq<SchedulerOp>)
    ensures
        after_ops(s, ops).token as int == (s.token + token_moves(ops)) % token_period(),
    decreases ops.len(),
{
    if ops.len() == 0 {
        assert(s.token as int % token_period() == s.token);
    } else {
        let prefix = ops.drop_last();
        lemma_token_after_ops(s, prefix);
        let k = token_moves(prefix);
        let before = after_ops(s, prefix);
        if moves_token(ops.last()) {
            vstd::arithmetic::div_mod::lemma_add_mod_noop(s.token + k, 1, token_period());
            assert(1int % token_period() == 1);
            assert(next_token(before.token) as int == (before.token + 1) % token_period());
        }
    }
}

/// A delayed start is superseded by every later start and every later stop:
/// once a stream started with the presence enabled, if any of the calls
/// that follow takes a new token, the start it scheduled is cancelled when
/// it wakes up, whatever the settings say then. (The token wraps after
/// `2^64` new tokens, which the law leaves out.)
pub proof fn lemma_later_start_or_stop_cancels(
    s: PresenceScheduler,
    ops: Seq<SchedulerOp>,
    enabled: bool,
    config_built: bool,
)
    requires
        0 < token_moves(ops) < token_period(),
    ensures
        delayed_outcome(after_ops(started(s, true), ops), started(s, true).token, enabled, config_built)
            == DelayedStart::Cancelled,
{
    let s1 = started(s, true);
    lemma_token_after_ops(s1, ops);
    let k = token_moves(ops);
    assert(s1.token + k < 2 * token_period());
    if (s1.token + k) < token_period() {
        assert((s1.token + k) % token_period() == s1.token + k);
    } else {
        assert((s1.token + k) % token_period() == s1.token + k - token_period());
    }
}

/// A delayed start that no later start or stop superseded goes ahead
/// exactly where the presence is still enabled and a presence could be
/// built; otherwise it reports why not.
pub proof fn lemma_unsuperseded_start_follows_settings(
    s: PresenceScheduler,
    ops: Seq<SchedulerOp>,
    enabled: bool,
    config_built: bool,
)
    requires
        token_moves(ops) == 0,
    ensures
        delayed_outcome(after_ops(started(s, true), ops), started(s, true).token, enabled, config_built)
            == (if !enabled {
            DelayedStart::Disabled
        } else if !config_built {
            DelayedStart::NoConfig
        } else {
            DelayedStart::Start
        }),
{
    let s1 = started(s, true);
    lemma_token_after_ops(s1, ops);
    assert(s1.token as int % token_period() == s1.token);
}

/// After a stop, no worker runs, and every start scheduled before it is
/// cancelled when it wakes up, whatever calls follow that take fewer than
/// `2^64 - 1` new tokens.
pub proof fn lemma_stop_cancels_every_earlier_start(
    s: PresenceScheduler,
    before: Seq<SchedulerOp>,
    after: Seq<SchedulerOp>,
    enabled: bool,
    config_built: bool,
)
    requires
        token_moves(before) + 1 + token_moves(after) < token_period(),
    ensures
        !stopped(after_ops(started(s, true), before)).worker_running,
        delayed_outcome(
            after_ops(started(s, true), before.push(SchedulerOp::Stop) + after),
            started(s, true).token,
            enabled,
            config_built,
        ) == DelayedStart::Cancelled,
{
    let ops = before.push(SchedulerOp::Stop) + after;
    lemma_token_moves_append(before.push(SchedulerOp::Stop), after);
    assert(before.push(SchedulerOp::Stop).drop_last() == before);
    lemma_later_start_or_stop_cancels(s, ops, enabled, config_built);
}

/// The token moves of two runs of calls add up.
pub proof fn lemma_token_moves_append(a: Seq<SchedulerOp>, b: Seq<SchedulerOp>)
    ensures
        token_moves(a + b) == token_moves(a) + token_moves(b),
    decreases b.len(),
{
    if b.len() == 0 {
        assert(a + b == a);
    } else {
        lemma_token_moves_append(a, b.drop_last());
        assert((a + b).drop_last() == a + b.drop_last());
        assert((a + b).last() == b.last());
    }
}

} // verus!
