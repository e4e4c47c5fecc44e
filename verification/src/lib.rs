//! Core logic of a library operating system: file-system backends, sockets, waiting, locking and
//! memory management, with their behaviour stated and proved.
mod bits;
pub mod bytes;
pub mod event;
pub mod fs;
pub mod linux;
pub mod lvbs;
pub mod loom_model;
pub mod messages;
pub mod mm;
pub mod net;
pub mod platform;
pub mod rng;
pub mod sync;
pub mod text;
pub mod userland;
pub mod utilities;
