use vstd::prelude::*;

verus! {

/// The terminal error of one certificate job.
#[derive(Debug, Clone, PartialEq, Eq)]
pub enum RenewError {
    /// A subdomain without at least two labels.
    InvalidDomain,
    /// A provider name that names no known provider.
    UnknownProvider,
    /// A pending authorization offered no DNS-01 challenge.
    UnsupportedChallenge,
    /// The order did not settle within the polling budget.
    ChallengeTimeout,
    /// The challenge record never became visible within the deadline.
    DnsPropagationTimeout,
    /// The CA declared the order invalid; the detail is the CA's.
    ChallengeRejected(String),
    /// The issued chain was empty or could not be parsed.
    CertificateParseError,
    /// The DNS provider refused to publish the challenge record.
    DnsProviderError(String),
    /// Removing the challenge record failed, with no earlier error.
    CleanupFailed(String),
    /// A non-retried exchange with the CA failed.
    ProtocolError(String),
    /// The deployment provider refused a request.
    DeploymentError { status: u16, body: String },
    /// An identical certificate exists remotely but could not be found by name.
    ConflictUnresolved(String),
    /// No endpoint serves the subdomain and creating one is not allowed.
    EndpointNotFound,
    /// Reading or writing the credential store failed.
    StoreError(String),
    /// A stored credential could not be read or used.
    CredentialError(String),
    /// An event arrived that the current step does not wait for.
    OutOfOrder,
}

} // verus!
