//! Motion detection core: a pixel-exact detection pipeline, a worker state
//! machine with device hot-swap and fallback recovery, and the command /
//! status plumbing around them.

pub mod channel;
pub mod clock;
pub mod frame;
pub mod messages;
pub mod pipeline;
pub mod region;
pub mod worker;

pub use frame::Frame;
