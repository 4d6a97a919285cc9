//! A terminal trivia quiz library: a question store with schema validation,
//! a round selector that composes difficulty-balanced rounds without repeats,
//! a timed answer collector, a scorer with letter-grade bands, and the
//! session state machine that ties the rounds together.

pub mod collector;
pub mod question;
pub mod selector;
pub mod scorer;
pub mod session;
pub mod store;
pub mod text;
