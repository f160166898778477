//! A small load-testing pipeline: a dispatcher that fans task messages out over
//! one or more execution contexts, a collector that drains them, the result set
//! a run persists, and the name of the timestamped CSV file it writes.
pub mod collector;
pub mod decimal;
pub mod dispatch;
pub mod results;
pub mod stamp;
