//! Checked, never-blocking interior locks.
//!
//! [`Mutex`] is an exclusive lock and [`RwLock`] a shared/exclusive
//! lock; neither ever waits: an acquisition attempt either succeeds at
//! once or is refused at once. The locks are for callers who know, for
//! reasons of their own, that accesses will not overlap; the lock
//! state is a cheap assertion of that knowledge, not a scheduler.
//! Contention on the unconditional entry points is a programming
//! error, excluded here by precondition; the fallible entry points
//! report it with `None`.

mod mutex;
mod rwlock;

pub use mutex::Mutex;
pub use mutex::MutexGuard;
pub use rwlock::max_readers;
pub use rwlock::RwLock;
pub use rwlock::RwLockReadGuard;
pub use rwlock::RwLockWriteGuard;
pub use rwlock::ONE_READER;
pub use rwlock::WRITER_BIT;
