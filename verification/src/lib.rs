//! A crowdfunding settlement engine: campaigns with goals and deadlines,
//! a donation ledger with platform fees, withdrawal and refund settlement,
//! quadratic-funding matching rounds, and donor-weighted milestone voting.
//!
//! The engine is a pure state machine. The host that embeds it supplies the
//! caller identity and the current timestamp as arguments to each entry
//! point; outgoing currency transfers and domain events are appended to logs
//! on the engine so the host can perform and publish them.

pub mod engine;
pub mod governance;
pub mod laws;
pub mod ledger;
pub mod math;
pub mod matching;
pub mod registry;
pub mod settlement;
pub mod types;

pub use math::sqrt;
