//! Module unloading: the `delete_module(2)` flag encoding, the mapping of
//! the call's raw result, and the rate-limited retry state machine used for
//! asynchronous unloading.
//!
//! The privileged call and the periodic timer live in the surrounding
//! runtime layer. That layer drives an asynchronous unload by repeatedly
//! consulting [`UnloadTask::on_timer`] with what its timer reported and, when
//! told to attempt, feeding the raw outcome of one `delete_module` call to
//! [`UnloadTask::on_attempt`].

use vstd::prelude::*;

use crate::errors::Error;
use crate::errors::ErrorContext;

verus! {

/// Flag bit asking the kernel for a forced unload (the `O_TRUNC` bit value,
/// which is what `delete_module` checks for).
pub const DELETE_MODULE_FORCE: i32 = 0o1000;

/// Flag bit asking the kernel not to wait for the module's reference count
/// to drain (the `O_NONBLOCK` bit value).
pub const DELETE_MODULE_NONBLOCK: i32 = 0o4000;

/// The OS error code (`EWOULDBLOCK`, equal to `EAGAIN` on Linux) with which
/// a non-blocking `delete_module` reports a module that is still busy.
pub const EWOULDBLOCK_CODE: i32 = 11;

/// The `delete_module` flag word for a choice of force and blocking
/// behaviour. The kernel bit named "non-blocking" is set precisely when the
/// caller requests blocking process-level semantics; this inversion is the
/// kernel's ABI and is preserved verbatim.
pub open spec fn unload_flags(force: bool, blocking: bool) -> i32 {
    match (force, blocking) {
        (false, false) => 0,
        (true, false) => DELETE_MODULE_FORCE,
        (true, true) => DELETE_MODULE_FORCE | DELETE_MODULE_NONBLOCK,
        (false, true) => DELETE_MODULE_NONBLOCK,
    }
}

/// The four flag words, concretely: the two bits are independent and
/// additive, and the non-blocking bit is set exactly when `blocking` is
/// requested.
pub proof fn lemma_unload_flags_table()
    ensures
        unload_flags(false, false) == 0,
        unload_flags(true, false) == DELETE_MODULE_FORCE,
        unload_flags(true, true) == DELETE_MODULE_FORCE + DELETE_MODULE_NONBLOCK,
        unload_flags(false, true) == DELETE_MODULE_NONBLOCK,
{
    assert(0o1000i32 | 0o4000i32 == 0o5000i32) by (bit_vector);
}

/// Module unloader configuration.
#[derive(Clone, Debug)]
pub struct ModUnloader {
    force: bool,
}

impl ModUnloader {
    /// Whether a forced unload is to be performed.
    pub closed spec fn spec_force(&self) -> bool {
        self.force
    }

    /// Create a new default `ModUnloader`: unforced.
    pub fn new() -> (r: Self)
        ensures
            !r.spec_force(),
    {
        Self::default()
    }

    /// Set whether a forced unload should be performed.
    ///
    /// A force unload will taint the kernel and can leave the host in an
    /// unstable state, or cause data loss.
    pub fn forced(self, force_unload: bool) -> (r: Self)
        ensures
            r.spec_force() == force_unload,
    {
        Self { force: force_unload }
    }

    /// The `delete_module` flag word for one synchronous unload call with
    /// the given blocking behaviour.
    pub fn sync_flags(&self, blocking: bool) -> (f: i32)
        ensures
            f == unload_flags(self.spec_force(), blocking),
    {
        match (self.force, blocking) {
            (false, false) => 0,
            (true, false) => DELETE_MODULE_FORCE,
            (true, true) => DELETE_MODULE_FORCE | DELETE_MODULE_NONBLOCK,
            (false, true) => DELETE_MODULE_NONBLOCK,
        }
    }

    /// Prepare an asynchronous unload of the named module, retried at
    /// intervals of `pause_millis` milliseconds while the module is busy.
    /// Every attempt is made with blocking semantics requested, so the flag
    /// word is the one of [`unload_flags`] with `blocking` fixed true.
    pub fn unload_async(&self, modname: &str, pause_millis: u64) -> (t: UnloadTask)
        requires
            pause_millis > 0,
        ensures
            t.flags == unload_flags(self.spec_force(), true),
            t.modname@ == modname@,
            t.pause_millis == pause_millis,
    {
        UnloadTask {
            flags: self.sync_flags(true),
            modname: modname.to_owned(),
            pause_millis,
        }
    }
}

impl Default for ModUnloader {
    /// The default unloader: unforced.
    fn default() -> (r: Self)
        ensures
            !r.spec_force(),
    {
        Self { force: false }
    }
}

/// Interpret the raw result of one `delete_module` call: `0` is the single
/// success value; any other return yields the reported OS error code, in
/// context "unload module".
pub fn unload_result(ret: i64, err_code: i32) -> (r: Result<(), Error>)
    ensures
        ret == 0 ==> r == Ok::<(), Error>(()),
        ret != 0 ==> r == Err::<(), Error>((Error { code: err_code, context: ErrorContext::UnloadModule })),
{
    if ret == 0 {
        Ok(())
    } else {
        Err(Error { code: err_code, context: ErrorContext::UnloadModule })
    }
}

/// What the periodic timer reported when consulted at the start of one poll.
#[derive(Clone, Copy, Debug, PartialEq, Eq)]
pub enum TimerPoll {
    /// The timer has not fired yet.
    Pending,
    /// The timer fired: one attempt may be made.
    Tick,
    /// The timer itself failed.
    Failed,
}

/// What the task asks its driver to do after consulting the timer.
#[derive(Clone, Copy, Debug, PartialEq, Eq)]
pub enum TimerStep {
    /// Stay pending and ask to be polled again later; no attempt is made.
    Wait,
    /// Make one `delete_module` attempt.
    Attempt,
    /// Resolve to failure without attempting: the rate-limiting timer broke.
    GiveUp(Error),
}

/// The raw outcome of one `delete_module` attempt.
#[derive(Clone, Copy, Debug, PartialEq, Eq)]
pub enum AttemptOutcome {
    /// The call returned `0`: the module was unloaded.
    Unloaded,
    /// The call failed with this OS error code.
    Errno(i32),
}

/// The state of an asynchronous unload after one poll.
#[derive(Clone, Copy, Debug, PartialEq, Eq)]
pub enum TaskStatus {
    /// Not resolved yet; the driver should poll again later.
    Pending,
    /// The module was unloaded.
    Succeeded,
    /// The unload failed for good; no further attempt is made.
    Failed(Error),
}

/// The error an unload task resolves to when its timer fails: there is no OS
/// error code to report, only the context.
pub open spec fn timer_error() -> Error {
    Error { code: 0, context: ErrorContext::RateLimitTimer }
}

/// The decision taken on a timer report: attempt only on a tick, wait while
/// the timer is pending, give up if the timer broke.
pub open spec fn spec_timer_step(t: TimerPoll) -> TimerStep {
    match t {
        TimerPoll::Pending => TimerStep::Wait,
        TimerPoll::Tick => TimerStep::Attempt,
        TimerPoll::Failed => TimerStep::GiveUp(timer_error()),
    }
}

/// The status after one attempt: success on `0`, still pending on a busy
/// module (`EWOULDBLOCK`), terminal failure on any other error code.
pub open spec fn spec_attempt_status(a: AttemptOutcome) -> TaskStatus {
    match a {
        AttemptOutcome::Unloaded => TaskStatus::Succeeded,
        AttemptOutcome::Errno(code) => if code == EWOULDBLOCK_CODE {
            TaskStatus::Pending
        } else {
            TaskStatus::Failed(Error { code, context: ErrorContext::UnloadModule })
        },
    }
}

/// An asynchronous unload in flight: the fixed `delete_module` flag word,
/// the module name, and the retry interval of the periodic timer that rate
/// limits attempts.
#[derive(Clone, Debug)]
pub struct UnloadTask {
    /// The flag word passed to every `delete_module` attempt.
    pub flags: i32,
    /// The name of the module to unload.
    pub modname: String,
    /// The retry interval, in milliseconds; always positive.
    pub pause_millis: u64,
}

impl UnloadTask {
    /// Decide what to do after the driver consulted the periodic timer.
    pub fn on_timer(&self, t: TimerPoll) -> (r: TimerStep)
        ensures
            r == spec_timer_step(t),
    {
        match t {
            TimerPoll::Pending => TimerStep::Wait,
            TimerPoll::Tick => TimerStep::Attempt,
            TimerPoll::Failed => TimerStep::GiveUp(Error {
                code: 0,
                context: ErrorContext::RateLimitTimer,
            }),
        }
    }

    /// Decide the task's status from the raw outcome of one attempt.
    pub fn on_attempt(&self, a: AttemptOutcome) -> (r: TaskStatus)
        ensures
            r == spec_attempt_status(a),
    {
        match a {
            AttemptOutcome::Unloaded => TaskStatus::Succeeded,
            AttemptOutcome::Errno(code) => {
                if code == EWOULDBLOCK_CODE {
                    TaskStatus::Pending
                } else {
                    TaskStatus::Failed(Error { code, context: ErrorContext::UnloadModule })
                }
            },
        }
    }
}

} // verus!

verus! {

/// What one whole poll of an unload task observed: either the timer had not
/// fired (no attempt is allowed), or the timer broke, or the timer ticked
/// and one attempt was made with the given raw outcome.
#[derive(Clone, Copy, Debug, PartialEq, Eq)]
pub enum PollEvent {
    /// The timer had not fired; the poll made no attempt.
    TimerPending,
    /// The timer itself failed.
    TimerFailure,
    /// The timer ticked and one `delete_module` attempt gave this outcome.
    Attempted(AttemptOutcome),
}

/// The status one poll resolves to on its own.
pub open spec fn spec_poll_status(e: PollEvent) -> TaskStatus {
    match e {
        PollEvent::TimerPending => TaskStatus::Pending,
        PollEvent::TimerFailure => TaskStatus::Failed(timer_error()),
        PollEvent::Attempted(a) => spec_attempt_status(a),
    }
}

/// The status an unload task has after being driven through a sequence of
/// polls: the first poll that resolves it decides, later events are never
/// reached, and a task that runs out of events is still pending.
pub open spec fn run_status(events: Seq<PollEvent>) -> TaskStatus
    decreases events.len(),
{
    if events.len() == 0 {
        TaskStatus::Pending
    } else if spec_poll_status(events[0]) == TaskStatus::Pending {
        run_status(events.drop_first())
    } else {
        spec_poll_status(events[0])
    }
}

/// How many `delete_module` attempts such a run makes: one per `Attempted`
/// event reached before (or at) resolution.
pub open spec fn run_attempts(events: Seq<PollEvent>) -> nat
    decreases events.len(),
{
    if events.len() == 0 {
        0
    } else {
        let here: nat = if events[0] is Attempted {
            1
        } else {
            0
        };
        if spec_poll_status(events[0]) == TaskStatus::Pending {
            here + run_attempts(events.drop_first())
        } else {
            here
        }
    }
}

impl UnloadTask {
    /// Drive the task through a sequence of observed polls, stopping at the
    /// first one that resolves it. Returns the resulting status and the
    /// number of attempts that were made.
    #[verifier::loop_isolation(false)]
    pub fn drive(&self, events: &Vec<PollEvent>) -> (r: (TaskStatus, usize))
        ensures
            r.0 == run_status(events@),
            r.1 == run_attempts(events@),
    {
        let n = events.len();
        let mut i: usize = 0;
        let mut attempts: usize = 0;
        proof {
            assert(events@.skip(0) =~= events@);
        }
        while i < n
            invariant
                i <= n,
                attempts <= i,
                run_status(events@) == run_status(events@.skip(i as int)),
                run_attempts(events@) == attempts + run_attempts(events@.skip(i as int)),
            decreases n - i,
        {
            proof {
                assert(events@.skip(i as int)[0] == events@[i as int]);
                assert(events@.skip(i as int).drop_first() =~= events@.skip(i + 1 as int));
            }
            let status = match events[i] {
                PollEvent::TimerPending => TaskStatus::Pending,
                PollEvent::TimerFailure => {
                    match self.on_timer(TimerPoll::Failed) {
                        TimerStep::GiveUp(e) => TaskStatus::Failed(e),
                        _ => TaskStatus::Pending,
                    }
                },
                PollEvent::Attempted(a) => {
                    attempts = attempts + 1;
                    self.on_attempt(a)
                },
            };
            match status {
                TaskStatus::Pending => {
                    i = i + 1;
                },
                _ => {
                    return (status, attempts);
                },
            }
        }
        proof {
            assert(events@.skip(n as int) =~= Seq::<PollEvent>::empty());
        }
        (TaskStatus::Pending, attempts)
    }
}

/// Every poll in the sequence found the module busy or the timer not yet
/// fired: no poll resolves the task.
pub open spec fn all_busy(events: Seq<PollEvent>) -> bool {
    forall|i: int| 0 <= i < events.len() ==> #[trigger] events[i] == PollEvent::TimerPending
        || events[i] == PollEvent::Attempted(AttemptOutcome::Errno(EWOULDBLOCK_CODE))
}

/// How many of the polls made an attempt.
pub open spec fn count_attempted(events: Seq<PollEvent>) -> nat
    decreases events.len(),
{
    if events.len() == 0 {
        0
    } else {
        let here: nat = if events[0] is Attempted {
            1
        } else {
            0
        };
        here + count_attempted(events.drop_first())
    }
}

/// While every attempt finds the module busy, the task never resolves: it
/// stays pending through the whole sequence, making exactly one attempt per
/// tick. A driver that stops early — a surrounding timeout or cancellation —
/// therefore resolves to its own outcome, never to success, and no attempt
/// beyond the polled ones is in flight.
pub proof fn lemma_busy_never_resolves(events: Seq<PollEvent>)
    requires
        all_busy(events),
    ensures
        run_status(events) == TaskStatus::Pending,
        run_attempts(events) == count_attempted(events),
    decreases events.len(),
{
    if events.len() > 0 {
        assert(events[0] == PollEvent::TimerPending || events[0] == PollEvent::Attempted(
            AttemptOutcome::Errno(EWOULDBLOCK_CODE),
        ));
        assert(all_busy(events.drop_first())) by {
            assert forall|i: int| 0 <= i < events.drop_first().len() implies #[trigger] events.drop_first()[i]
                == PollEvent::TimerPending || events.drop_first()[i] == PollEvent::Attempted(
                AttemptOutcome::Errno(EWOULDBLOCK_CODE),
            ) by {
                assert(events[i + 1] == PollEvent::TimerPending || events[i + 1]
                    == PollEvent::Attempted(AttemptOutcome::Errno(EWOULDBLOCK_CODE)));
            }
        }
        lemma_busy_never_resolves(events.drop_first());
    }
}

/// A run of busy polls followed by one successful attempt resolves to
/// success, after exactly one attempt more than the busy polls made — each
/// separated from the last by a timer tick, since only `Attempted` events
/// carry an attempt.
pub proof fn lemma_busy_then_success(prefix: Seq<PollEvent>)
    requires
        all_busy(prefix),
    ensures
        run_status(prefix.push(PollEvent::Attempted(AttemptOutcome::Unloaded)))
            == TaskStatus::Succeeded,
        run_attempts(prefix.push(PollEvent::Attempted(AttemptOutcome::Unloaded)))
            == count_attempted(prefix) + 1,
    decreases prefix.len(),
{
    let events = prefix.push(PollEvent::Attempted(AttemptOutcome::Unloaded));
    if prefix.len() == 0 {
        assert(events[0] == PollEvent::Attempted(AttemptOutcome::Unloaded));
    } else {
        assert(events[0] == prefix[0]);
        assert(all_busy(prefix.drop_first())) by {
            assert forall|i: int| 0 <= i < prefix.drop_first().len() implies #[trigger] prefix.drop_first()[i]
                == PollEvent::TimerPending || prefix.drop_first()[i] == PollEvent::Attempted(
                AttemptOutcome::Errno(EWOULDBLOCK_CODE),
            ) by {
                assert(prefix[i + 1] == PollEvent::TimerPending || prefix[i + 1]
                    == PollEvent::Attempted(AttemptOutcome::Errno(EWOULDBLOCK_CODE)));
            }
        }
        lemma_busy_then_success(prefix.drop_first());
        assert(events.drop_first() =~= prefix.drop_first().push(
            PollEvent::Attempted(AttemptOutcome::Unloaded),
        ));
    }
}

/// A first attempt that fails with any error code other than the busy code
/// resolves the task to failure at once: exactly one attempt, no retry.
pub proof fn lemma_fatal_error_fails_immediately(rest: Seq<PollEvent>, code: i32)
    requires
        code != EWOULDBLOCK_CODE,
    ensures
        run_status(seq![PollEvent::Attempted(AttemptOutcome::Errno(code))] + rest)
            == TaskStatus::Failed((Error { code, context: ErrorContext::UnloadModule })),
        run_attempts(seq![PollEvent::Attempted(AttemptOutcome::Errno(code))] + rest) == 1,
{
    let events = seq![PollEvent::Attempted(AttemptOutcome::Errno(code))] + rest;
    assert(events[0] == PollEvent::Attempted(AttemptOutcome::Errno(code)));
}

} // verus!
