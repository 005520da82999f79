//! A rolling failure-rate signal over a fixed-size window of recent outcomes.
//!
//! Three layers, each verified against a mathematical model:
//!
//! * [`bitset::BitSet`] is a packed array of bits, seen as a `Seq<bool>`;
//! * [`ringbitset::RingBitSet`] is a ring of the most recent bits written,
//!   seen as the sequence of those bits from the oldest to the newest;
//! * [`circuit_breaker_metrics::CircuitBreakerMetrics`] records one outcome at
//!   a time and reports how many of the outcomes in the window failed.
//!
//! [`word`] holds the facts about single bits of a storage word, and
//! [`window`] the mathematics of a sliding window that the ring is held to.
//!
//! None of the types synchronises anything: one "record and report" call is
//! the unit that a caller sharing a value between threads has to serialise.

pub mod bitset;
pub mod circuit_breaker_metrics;
pub mod ringbitset;
pub mod window;
pub mod word;
