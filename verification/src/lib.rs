//! Cooperative async execution core: a timer-based wake registry (reactor),
//! sleep futures, a single-threaded executor with a synchronous `block_on`
//! entry point, and owned handles over units of execution managed by a
//! preemptive scheduler.
//!
//! The preemptive scheduling layer (task creation, suspension, the monotonic
//! millisecond clock) is kept behind explicit state — [`task::SimScheduler`]
//! and [`clock::SimClock`] — so the cooperative core is independent of any
//! particular host and can be driven deterministically.

pub mod clock;
pub mod executor;
pub mod future;
pub mod reactor;
pub mod sleep;
pub mod task;

pub use clock::SimClock;
pub use executor::Executor;
pub use executor::block_on;
pub use future::CoopFuture;
pub use future::ReadyFuture;
pub use reactor::Reactor;
pub use reactor::Sleeper;
pub use sleep::SleepFuture;
pub use sleep::sleep;
pub use task::Builder;
pub use task::Interval;
pub use task::SchedulerSuspendGuard;
pub use task::SimScheduler;
pub use task::SpawnError;
pub use task::TaskHandle;
pub use task::TaskPriority;
pub use task::TaskStackDepth;
pub use task::TaskState;
pub use task::current;
pub use task::delay;
pub use task::get_notification;
pub use task::spawn;
pub use task::suspend_all;
