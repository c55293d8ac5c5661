//! The kinds of error that the core reports.

use vstd::prelude::*;
use vstd::std_specs::convert::FromSpecImpl;

verus! {

/// An error of the core, with the text that describes it.
#[derive(Debug, PartialEq, Eq)]
pub enum SIEMError {
    /// The system clock could not be read.
    SystemTime(String),
    /// A record could not be written as JSON or read from it.
    Json(String),
    /// Reading or writing failed.
    Io(String),
    /// Subscribing to the bus failed.
    NatsSubscribe(String),
    /// Publishing on the bus failed.
    NatsPublish(String),
    /// The configuration is invalid or incomplete.
    Config(String),
    /// The event store failed.
    Database(String),
    /// Authentication or authorization failed.
    Auth(String),
    /// An input is malformed or out of range.
    Validation(String),
    /// A detector failed.
    ThreatDetection(String),
    /// The correlation of events failed.
    Correlation(String),
    /// A limit of time or resources was exceeded.
    Performance(String),
    /// An error that fits no other kind.
    Unknown(String),
    /// An error taken over from elsewhere.
    Other(String),
}

/// The result of an operation of the core.
pub type SIEMResult<T> = Result<T, SIEMError>;

impl SIEMError {
    /// What stands before the text of an error of this kind.
    pub open spec fn prefix(&self) -> Seq<char> {
        match self {
            SIEMError::SystemTime(_) => "System time error: "@,
            SIEMError::Json(_) => "JSON serialization error: "@,
            SIEMError::Io(_) => "IO error: "@,
            SIEMError::NatsSubscribe(_) => "NATS subscription error: "@,
            SIEMError::NatsPublish(_) => "NATS publish error: "@,
            SIEMError::Config(_) => "Configuration error: "@,
            SIEMError::Database(_) => "Database error: "@,
            SIEMError::Auth(_) => "Authentication error: "@,
            SIEMError::Validation(_) => "Validation error: "@,
            SIEMError::ThreatDetection(_) => "Threat detection error: "@,
            SIEMError::Correlation(_) => "Correlation error: "@,
            SIEMError::Performance(_) => "Performance error: "@,
            SIEMError::Unknown(_) => "Unknown error: "@,
            SIEMError::Other(_) => "Other error: "@,
        }
    }

    /// The text that the error carries.
    pub open spec fn detail(&self) -> Seq<char> {
        match self {
            SIEMError::SystemTime(m) => m@,
            SIEMError::Json(m) => m@,
            SIEMError::Io(m) => m@,
            SIEMError::NatsSubscribe(m) => m@,
            SIEMError::NatsPublish(m) => m@,
            SIEMError::Config(m) => m@,
            SIEMError::Database(m) => m@,
            SIEMError::Auth(m) => m@,
            SIEMError::Validation(m) => m@,
            SIEMError::ThreatDetection(m) => m@,
            SIEMError::Correlation(m) => m@,
            SIEMError::Performance(m) => m@,
            SIEMError::Unknown(m) => m@,
            SIEMError::Other(m) => m@,
        }
    }

    /// The error written out: its kind, then its text.
    pub fn message(&self) -> (r: String)
        ensures
            r@ == self.prefix() + self.detail(),
    {
        let (prefix, detail) = match self {
            SIEMError::SystemTime(m) => ("System time error: ", m),
            SIEMError::Json(m) => ("JSON serialization error: ", m),
            SIEMError::Io(m) => ("IO error: ", m),
            SIEMError::NatsSubscribe(m) => ("NATS subscription error: ", m),
            SIEMError::NatsPublish(m) => ("NATS publish error: ", m),
            SIEMError::Config(m) => ("Configuration error: ", m),
            SIEMError::Database(m) => ("Database error: ", m),
            SIEMError::Auth(m) => ("Authentication error: ", m),
            SIEMError::Validation(m) => ("Validation error: ", m),
            SIEMError::ThreatDetection(m) => ("Threat detection error: ", m),
            SIEMError::Correlation(m) => ("Correlation error: ", m),
            SIEMError::Performance(m) => ("Performance error: ", m),
            SIEMError::Unknown(m) => ("Unknown error: ", m),
            SIEMError::Other(m) => ("Other error: ", m),
        };
        let mut text = String::from_str(prefix);
        text.append(detail.as_str());
        text
    }
}

impl From<String> for SIEMError {
    fn from(e: String) -> (r: SIEMError)
        ensures
            r == SIEMError::Other(e),
    {
        SIEMError::Other(e)
    }
}

impl FromSpecImpl<String> for SIEMError {
    open spec fn obeys_from_spec() -> bool {
        true
    }

    open spec fn from_spec(e: String) -> SIEMError {
        SIEMError::Other(e)
    }
}

} // verus!
