//! The service's error taxonomy. Every error carries the domain it is about
//! where one applies, and maps to a stable numeric discriminant so that
//! automated clients can branch on the kind rather than on message text.
use vstd::prelude::*;

verus! {

/// Errors of the administrative surface and of the provisioning workflow.
#[derive(Debug)]
pub enum PeachDynDnsError {
    /// The request could not be decoded; carries the decoder's report.
    MissingParams { e: String },
    /// The domain does not fit the parent zone's naming grammar.
    InvalidDomain { domain: String },
    /// The external daemon rejected the configuration written for a new zone.
    BindConfigurationError,
    /// The domain is already registered.
    DomainAlreadyExistsError { domain: String },
    /// The minted key material could not be parsed.
    KeyFileParseError,
    /// The key-generation collaborator failed; no registration was made.
    KeyGenerationError,
    /// The parent zone name handed to the zone authority is not a valid FQDN.
    ConfigurationError { domain: String },
    /// The update gate knows no registration for the domain.
    NotFound { domain: String },
    /// The presented secret does not equal the stored one; nothing changed.
    SecretMismatch { domain: String },
    /// The durable store failed; surfaced, never silently retried.
    StoreError { domain: String },
}

impl PeachDynDnsError {
    /// The stable numeric discriminant of this error kind.
    pub fn rpc_error_code(&self) -> (code: i64)
        ensures
            code == self.spec_rpc_error_code(),
    {
        match self {
            PeachDynDnsError::MissingParams { .. } => -32602,
            PeachDynDnsError::InvalidDomain { .. } => -32028,
            PeachDynDnsError::BindConfigurationError => -32029,
            PeachDynDnsError::DomainAlreadyExistsError { .. } => -32030,
            PeachDynDnsError::KeyFileParseError => -32031,
            PeachDynDnsError::KeyGenerationError => -32032,
            PeachDynDnsError::ConfigurationError { .. } => -32033,
            PeachDynDnsError::NotFound { .. } => -32034,
            PeachDynDnsError::SecretMismatch { .. } => -32035,
            PeachDynDnsError::StoreError { .. } => -32036,
        }
    }

    /// What `rpc_error_code` returns, by kind.
    pub open spec fn spec_rpc_error_code(&self) -> i64 {
        match self {
            PeachDynDnsError::MissingParams { .. } => -32602i64,
            PeachDynDnsError::InvalidDomain { .. } => -32028i64,
            PeachDynDnsError::BindConfigurationError => -32029i64,
            PeachDynDnsError::DomainAlreadyExistsError { .. } => -32030i64,
            PeachDynDnsError::KeyFileParseError => -32031i64,
            PeachDynDnsError::KeyGenerationError => -32032i64,
            PeachDynDnsError::ConfigurationError { .. } => -32033i64,
            PeachDynDnsError::NotFound { .. } => -32034i64,
            PeachDynDnsError::SecretMismatch { .. } => -32035i64,
            PeachDynDnsError::StoreError { .. } => -32036i64,
        }
    }

    /// The human-readable message of this error, carrying the domain
    /// or the decoder's report where one applies.
    pub fn rpc_error_message(&self) -> (msg: String)
        ensures
            msg@ == self.spec_rpc_error_message(),
    {
        match self {
            PeachDynDnsError::MissingParams { e } => String::from_str(
                "Missing expected parameters: ",
            ).concat(e.as_str()),
            PeachDynDnsError::InvalidDomain { domain } => String::from_str(
                "Domain is invalid format: ",
            ).concat(domain.as_str()),
            PeachDynDnsError::BindConfigurationError => String::from_str(
                "There was a bind configuration error",
            ),
            PeachDynDnsError::DomainAlreadyExistsError { domain } => String::from_str(
                "Can't register domain that already exists: ",
            ).concat(domain.as_str()),
            PeachDynDnsError::KeyFileParseError => String::from_str("Error parsing key file"),
            PeachDynDnsError::KeyGenerationError => String::from_str("Key generation error"),
            PeachDynDnsError::ConfigurationError { domain } => String::from_str(
                "Parent zone name is not a valid FQDN: ",
            ).concat(domain.as_str()),
            PeachDynDnsError::NotFound { domain } => String::from_str(
                "No registration found for domain: ",
            ).concat(domain.as_str()),
            PeachDynDnsError::SecretMismatch { domain } => String::from_str(
                "Secret does not match for domain: ",
            ).concat(domain.as_str()),
            PeachDynDnsError::StoreError { domain } => String::from_str(
                "Record store failure for domain: ",
            ).concat(domain.as_str()),
        }
    }

    /// What `rpc_error_message` returns, by kind.
    pub open spec fn spec_rpc_error_message(&self) -> Seq<char> {
        match self {
            PeachDynDnsError::MissingParams { e } => "Missing expected parameters: "@ + e@,
            PeachDynDnsError::InvalidDomain { domain } => "Domain is invalid format: "@ + domain@,
            PeachDynDnsError::BindConfigurationError => "There was a bind configuration error"@,
            PeachDynDnsError::DomainAlreadyExistsError { domain } => "Can't register domain that already exists: "@
                + domain@,
            PeachDynDnsError::KeyFileParseError => "Error parsing key file"@,
            PeachDynDnsError::KeyGenerationError => "Key generation error"@,
            PeachDynDnsError::ConfigurationError { domain } => "Parent zone name is not a valid FQDN: "@
                + domain@,
            PeachDynDnsError::NotFound { domain } => "No registration found for domain: "@ + domain@,
            PeachDynDnsError::SecretMismatch { domain } => "Secret does not match for domain: "@
                + domain@,
            PeachDynDnsError::StoreError { domain } => "Record store failure for domain: "@ + domain@,
        }
    }

    /// The domain the error speaks of, where one applies.
    pub fn domain(&self) -> (r: Option<&String>)
        ensures
            r == self.spec_domain(),
    {
        match self {
            PeachDynDnsError::InvalidDomain { domain } => Some(domain),
            PeachDynDnsError::DomainAlreadyExistsError { domain } => Some(domain),
            PeachDynDnsError::ConfigurationError { domain } => Some(domain),
            PeachDynDnsError::NotFound { domain } => Some(domain),
            PeachDynDnsError::SecretMismatch { domain } => Some(domain),
            PeachDynDnsError::StoreError { domain } => Some(domain),
            _ => None,
        }
    }

    /// What `domain` returns, by kind.
    pub open spec fn spec_domain(&self) -> Option<&String> {
        match self {
            PeachDynDnsError::InvalidDomain { domain } => Some(domain),
            PeachDynDnsError::DomainAlreadyExistsError { domain } => Some(domain),
            PeachDynDnsError::ConfigurationError { domain } => Some(domain),
            PeachDynDnsError::NotFound { domain } => Some(domain),
            PeachDynDnsError::SecretMismatch { domain } => Some(domain),
            PeachDynDnsError::StoreError { domain } => Some(domain),
            _ => None,
        }
    }
}

} // verus!
