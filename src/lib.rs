//! Device-state synchronisation core: decoding of broker state files,
//! classification of watched paths, reconciliation decisions for device
//! records and construction of broker jobs.
pub mod aggregate;
pub mod classify;
pub mod codec;
pub mod job;
pub mod properties;
pub mod reconcile;
pub mod store;
