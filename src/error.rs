use vstd::prelude::*;

verus! {

/// Why one reconciliation attempt failed. None of these is fatal to the process:
/// the caller logs it and retries after the fixed interval.
#[derive(Debug)]
pub enum Error {
    /// The desired-state document could not be encoded.
    SerializationError(String),
    /// Listing or patching the object against the cluster failed.
    KubeError(String),
    /// Publishing an operational event failed.
    EventPublishError(String),
    /// Adding or removing the finalizer marker failed.
    FinalizerError(String),
    /// A required configuration value is empty; the text names the annotation
    /// to supply and the object.
    InvalidConfigurationError(String),
}

/// The label that starts the text of each kind of error.
pub open spec fn label_of(e: Error) -> Seq<char> {
    match e {
        Error::SerializationError(_) => "SerializationError: "@,
        Error::KubeError(_) => "Kube Error: "@,
        Error::EventPublishError(_) => "Event Error: "@,
        Error::FinalizerError(_) => "Finalizer Error: "@,
        Error::InvalidConfigurationError(_) => "Invalid configuration: "@,
    }
}

/// The detail an error carries.
pub open spec fn detail_of(e: Error) -> Seq<char> {
    match e {
        Error::SerializationError(m) => m@,
        Error::KubeError(m) => m@,
        Error::EventPublishError(m) => m@,
        Error::FinalizerError(m) => m@,
        Error::InvalidConfigurationError(m) => m@,
    }
}

impl Error {
    /// The text shown to an operator: the kind of error, then its detail.
    pub fn message(&self) -> (r: String)
        ensures
            r@ == label_of(*self) + detail_of(*self),
    {
        let (label, detail) = match self {
            Error::SerializationError(m) => ("SerializationError: ", m),
            Error::KubeError(m) => ("Kube Error: ", m),
            Error::EventPublishError(m) => ("Event Error: ", m),
            Error::FinalizerError(m) => ("Finalizer Error: ", m),
            Error::InvalidConfigurationError(m) => ("Invalid configuration: ", m),
        };
        let mut r = String::from_str(label);
        r.append(detail.as_str());
        r
    }
}

} // verus!
