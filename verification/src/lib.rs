//! A time-weighted price oracle for an automated market-maker pool.
//!
//! The oracle is told the pool's square-root price after every swap. It
//! keeps, for a bounded number of past minutes, the running sum of the
//! natural logarithms of each minute's time-weighted average price. The
//! slope of that sum between two minutes is the logarithm of the geometric
//! mean price over the interval.
//!
//! The library is verified: every function states what it returns and what
//! it changes, over the mathematical model in [`model`], and the statements
//! are proved. Decimal arithmetic is done by the `scrypto` decimals, behind
//! the contracts in [`decimal`]. Logarithms and exponentials are not taken
//! here: the caller hands them in.

pub mod decimal;
pub mod error;
pub mod laws;
pub mod model;
pub mod numeric;
pub mod oracle;
pub mod ring;
pub mod sub_observations;
pub mod time;

pub use crate::decimal::Decimal;
pub use crate::decimal::PreciseDecimal;
pub use crate::error::OracleError;
pub use crate::numeric::MinuteLogs;
pub use crate::numeric::MinutePrices;
pub use crate::oracle::AccumulatedObservation;
pub use crate::oracle::LogInterval;
pub use crate::oracle::ObservationInterval;
pub use crate::oracle::Oracle;
pub use crate::sub_observations::SubObservations;
pub use crate::time::Instant;
