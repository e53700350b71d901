//! Buffer pool and frame scheduling for a window that draws into a small,
//! fixed set of shared-memory buffers, optionally paced by a display barrier.
pub mod pool;
pub mod pacing;
pub mod window;
pub mod guarantees;
pub mod gradient;
