use vstd::prelude::*;

verus! {

/// A configuration that cannot be completed from its layers.
#[derive(Clone, Copy, Debug, PartialEq, Eq)]
pub enum ConfigError {
    /// No layer supplies a host.
    MissingHost,
    /// No layer supplies a port.
    MissingPort,
    /// The winning port value is not a decimal number within the port range.
    MalformedPort,
}

/// A condition under which the server cannot serve its primary purpose;
/// each one is fatal and surfaces to the caller of the run entry point.
#[derive(Clone, Copy, Debug, PartialEq, Eq)]
pub enum ServerError {
    /// The configuration is incomplete or malformed.
    Config,
    /// The configured host and port do not form a bindable address.
    AddressParse,
    /// The main listener could not be bound.
    Bind,
    /// The certificate chain is unreadable or unusable.
    CertLoad,
    /// The private key is unreadable or absent.
    KeyLoad,
}

impl ServerError {
    /// A fixed message for process exit reporting.
    pub fn describe(&self) -> (r: &'static str)
        ensures
            *self is Config ==> r@ == "configuration is incomplete or malformed"@,
            *self is AddressParse ==> r@ == "malformed bind address"@,
            *self is Bind ==> r@ == "failed to bind main listener"@,
            *self is CertLoad ==> r@ == "failed to load certificate chain"@,
            *self is KeyLoad ==> r@ == "failed to load private key"@,
    {
        match self {
            ServerError::Config => "configuration is incomplete or malformed",
            ServerError::AddressParse => "malformed bind address",
            ServerError::Bind => "failed to bind main listener",
            ServerError::CertLoad => "failed to load certificate chain",
            ServerError::KeyLoad => "failed to load private key",
        }
    }
}

} // verus!
