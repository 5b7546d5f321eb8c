//! Issuance, renewal and deployment of TLS certificates for a fleet of
//! subdomains: the ACME order and DNS-01 challenge state machine, the renewal
//! scheduler's selection rules and the deployment reconciler's decisions.
pub mod acme;
pub mod error;
pub mod text;
pub mod backoff;
pub mod issuance;
pub mod dns;
pub mod certificate;
pub mod deploy;
pub mod renewal;
pub mod job;
pub mod store;
