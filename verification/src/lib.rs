//! Frame-accurate reconstruction of key transitions from high-frequency
//! sampling.
//!
//! A host feeds clock readings and the set of currently active keys into an
//! [`engine::Engine`]. The engine rate-limits sampling, retains a sample only
//! when it differs from the last retained one, keeps the retained samples in
//! a bounded newest-first [`timeline::Timeline`], and lets the host derive,
//! for each pair of neighbouring entries, how long a state was held together
//! with the uncertainty of that figure.
//!
//! All times are unsigned 64-bit nanoseconds on a monotonic clock of the
//! host's choosing.
//!
//! The contracts speak of mathematical models: an [`edge::EdgeModel`] for an
//! edge, a sequence of them for a timeline, an [`engine::EngineModel`] for
//! the engine. What holds over whole sequences of ticks is proved in
//! [`runs`].

pub mod keys;
pub mod edge;
pub mod timeline;
pub mod config;
pub mod sampler;
pub mod metrics;
pub mod reconstruct;
pub mod recorder;
pub mod engine;
pub mod runs;
pub mod selection;
