//! Synchronization.
pub mod condvar;
pub mod futex;
pub mod laws;
pub mod lock_laws;
pub mod rwlock;
