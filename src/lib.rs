//! An incremental base-64 transcoder and the self-feeding stream built on it.
pub mod alphabet;
pub mod encode;
pub mod fixpoint;
pub mod queue;
pub mod runs;

pub use fixpoint::base64_fixpoint;
