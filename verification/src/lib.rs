//! Reverse lookup of a VPN server's hostname from its IPv4 address.
//!
//! Candidate hostnames are synthesised from a country prefix and a numeric id,
//! each candidate is resolved by a probe that lives outside this library, and
//! the resolved addresses are classified against the wanted address. This
//! crate holds the rules of that search: the text forms, the partition of the
//! id range over workers, the classification and the final report.

pub mod decimal;
pub mod error;
pub mod ipv4;
pub mod country;
pub mod hostname;
pub mod models;
pub mod partition;
pub mod classify;
pub mod probe;
pub mod worker;
pub mod report;
pub mod system;
pub mod coordinator;
