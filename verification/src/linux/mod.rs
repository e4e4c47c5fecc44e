//! What Linux programs ask for.
pub mod errno;
pub mod laws;
pub mod mm;
pub mod user_pointers;
