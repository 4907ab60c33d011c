//! Engine of a foreground-focus time tracker.
//!
//! A fixed-interval sampler observes which window holds focus, interns the
//! owning executable and the window title into durable integer identities,
//! and grows a per-day usage counter for the focused window. The entity
//! store, the identity resolver, the usage aggregator and the per-tick
//! pipeline live here, each with a contract; the host process supplies the
//! operating-system snapshot and drives the loop.

pub mod aggregator;
pub mod clock;
pub mod paths;
pub mod resolver;
pub mod sampler;
pub mod store;
