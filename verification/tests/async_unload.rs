use likemod::errors::Error;
use likemod::errors::ErrorContext;
use likemod::unload::AttemptOutcome;
use likemod::unload::PollEvent;
use likemod::unload::TaskStatus;
use likemod::unload::TimerPoll;
use likemod::unload::TimerStep;
use likemod::unload::EWOULDBLOCK_CODE;
use likemod::ModUnloader;

fn task() -> likemod::unload::UnloadTask {
    ModUnloader::new().unload_async("dummy", 100)
}

#[test]
fn unload_async_builds_task() {
    let t = ModUnloader::new().forced(true).unload_async("snd_dummy", 250);
    assert_eq!(t.flags, libc::O_TRUNC | libc::O_NONBLOCK);
    assert_eq!(t.modname, "snd_dummy");
    assert_eq!(t.pause_millis, 250);
    let t = ModUnloader::new().unload_async("snd_dummy", 250);
    assert_eq!(t.flags, libc::O_NONBLOCK);
}

#[test]
fn attempts_only_on_ticks() {
    let t = task();
    assert_eq!(t.on_timer(TimerPoll::Pending), TimerStep::Wait);
    assert_eq!(t.on_timer(TimerPoll::Tick), TimerStep::Attempt);
    assert_eq!(
        t.on_timer(TimerPoll::Failed),
        TimerStep::GiveUp(Error { code: 0, context: ErrorContext::RateLimitTimer })
    );
}

#[test]
fn attempt_outcomes_decide_status() {
    let t = task();
    assert_eq!(t.on_attempt(AttemptOutcome::Unloaded), TaskStatus::Succeeded);
    assert_eq!(t.on_attempt(AttemptOutcome::Errno(EWOULDBLOCK_CODE)), TaskStatus::Pending);
    assert_eq!(
        t.on_attempt(AttemptOutcome::Errno(libc::EPERM)),
        TaskStatus::Failed(Error { code: libc::EPERM, context: ErrorContext::UnloadModule })
    );
}

#[test]
fn busy_then_success_takes_exactly_one_attempt_per_tick() {
    let t = task();
    let busy = PollEvent::Attempted(AttemptOutcome::Errno(EWOULDBLOCK_CODE));
    let events = vec![
        PollEvent::TimerPending,
        busy,
        PollEvent::TimerPending,
        PollEvent::TimerPending,
        busy,
        busy,
        PollEvent::Attempted(AttemptOutcome::Unloaded),
        busy,
    ];
    let (status, attempts) = t.drive(&events);
    assert_eq!(status, TaskStatus::Succeeded);
    assert_eq!(attempts, 4);
}

#[test]
fn immediate_success_takes_one_attempt() {
    let t = task();
    let events = vec![PollEvent::Attempted(AttemptOutcome::Unloaded)];
    assert_eq!(t.drive(&events), (TaskStatus::Succeeded, 1));
}

#[test]
fn fatal_error_fails_without_retry() {
    let t = task();
    let events = vec![
        PollEvent::Attempted(AttemptOutcome::Errno(libc::ENOENT)),
        PollEvent::Attempted(AttemptOutcome::Unloaded),
    ];
    let (status, attempts) = t.drive(&events);
    assert_eq!(
        status,
        TaskStatus::Failed(Error { code: libc::ENOENT, context: ErrorContext::UnloadModule })
    );
    assert_eq!(attempts, 1);
}

#[test]
fn timer_failure_resolves_to_timer_error() {
    let t = task();
    let busy = PollEvent::Attempted(AttemptOutcome::Errno(EWOULDBLOCK_CODE));
    let events = vec![busy, PollEvent::TimerFailure, busy];
    let (status, attempts) = t.drive(&events);
    assert_eq!(
        status,
        TaskStatus::Failed(Error { code: 0, context: ErrorContext::RateLimitTimer })
    );
    assert_eq!(attempts, 1);
}

#[test]
fn busy_module_never_resolves_before_a_timeout() {
    let t = task();
    let busy = PollEvent::Attempted(AttemptOutcome::Errno(EWOULDBLOCK_CODE));
    let events = vec![busy, PollEvent::TimerPending, busy, busy, PollEvent::TimerPending];
    let (status, attempts) = t.drive(&events);
    assert_eq!(status, TaskStatus::Pending);
    assert_eq!(attempts, 3);
}
