//! A growable array, a reference-counted shared pointer and the job queue of a
//! worker pool, each with a contract over a mathematical model.

pub mod arc;
pub mod thread_pool;
pub mod vec;
