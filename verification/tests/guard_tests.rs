use pros_core::SimScheduler;
use pros_core::suspend_all;

#[test]
fn guard_resumes_exactly_once_when_nothing_happened_in_between() {
    // Enter suspend_all, perform no suspending calls, release the guard:
    // resume is observed exactly once.
    let mut sched = SimScheduler::<fn()>::new();
    let guard = suspend_all(&mut sched);
    assert_eq!(sched.suspend_depth(), 1);
    assert_eq!(sched.resume_count(), 0);
    guard.release(&mut sched);
    assert_eq!(sched.suspend_depth(), 0);
    assert_eq!(sched.resume_count(), 1);
}

#[test]
fn guard_resumes_exactly_once_on_an_early_exit_path() {
    // Whichever exit path a scope takes, the guard it consumes triggers one
    // resume.
    fn scoped(sched: &mut SimScheduler<fn()>, take_early_exit: bool) -> u32 {
        let guard = suspend_all(sched);
        if take_early_exit {
            guard.release(sched);
            return 1;
        }
        guard.release(sched);
        2
    }
    let mut sched = SimScheduler::<fn()>::new();
    assert_eq!(scoped(&mut sched, true), 1);
    assert_eq!(sched.resume_count(), 1);
    assert_eq!(scoped(&mut sched, false), 2);
    assert_eq!(sched.resume_count(), 2);
    assert_eq!(sched.suspend_depth(), 0);
}

#[test]
fn nested_guards_resume_once_each() {
    let mut sched = SimScheduler::<fn()>::new();
    let outer = suspend_all(&mut sched);
    let inner = suspend_all(&mut sched);
    assert_eq!(sched.suspend_depth(), 2);
    inner.release(&mut sched);
    assert_eq!(sched.suspend_depth(), 1);
    outer.release(&mut sched);
    assert_eq!(sched.suspend_depth(), 0);
    assert_eq!(sched.resume_count(), 2);
}
