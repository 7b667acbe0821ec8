//! A verified core for a price-tracking wire protocol.
//!
//! Clients stream fixed 9-byte binary frames: an insert records a
//! `(timestamp, price)` observation, a query asks for the mean price over an
//! inclusive timestamp window and is answered with a 4-byte big-endian
//! integer. Each connection owns a private ledger of observations.
//!
//! `codec` decodes and encodes the wire integers, `ledger` holds the
//! observations and computes range means, `session` drives one connection's
//! frame loop, and `primes` checks primality of decimal strings for the
//! line-oriented sibling service.

pub mod codec;
pub mod ledger;
pub mod primes;
pub mod session;
