//! A small engine that probes which typed-transaction formats a chain's node
//! accepts: it builds each transaction variant under a fee profile, hands it to
//! a submission client, classifies the confirmation outcome, and renders a
//! per-type report.

pub mod builder;
pub mod codec;
pub mod orchestrator;
pub mod reporter;
