//! The errors that end a wait before it has begun.

use vstd::prelude::*;

verus! {

/// Why a wait could not begin. Each of these is final for the whole batch of
/// targets: nothing is polled once one of them has been found.
#[derive(Debug, Clone, Copy, PartialEq, Eq, Hash, Structural)]
pub enum WaitServiceError {
    /// The list of targets is empty.
    UrlsEmpty,
    /// The target is neither a URL nor a `host:port` pair, or it is a URL
    /// that names no host.
    MalformedTarget,
    /// The target is a URL without a port, and its scheme has no default port.
    UnknownScheme,
    /// The lookup of the target's host gave no address.
    HostUnresolvable,
}

impl WaitServiceError {
    /// The text that describes this error to a user.
    pub open spec fn spec_message(&self) -> Seq<char> {
        match *self {
            WaitServiceError::UrlsEmpty => "Urls are empty"@,
            WaitServiceError::MalformedTarget => "Cannot parse url"@,
            WaitServiceError::UnknownScheme => "Unknown scheme and no port"@,
            WaitServiceError::HostUnresolvable => "Host has no address"@,
        }
    }

    /// The text that describes this error to a user.
    pub fn message(&self) -> (text: &'static str)
        ensures
            text@ == self.spec_message(),
    {
        match self {
            WaitServiceError::UrlsEmpty => "Urls are empty",
            WaitServiceError::MalformedTarget => "Cannot parse url",
            WaitServiceError::UnknownScheme => "Unknown scheme and no port",
            WaitServiceError::HostUnresolvable => "Host has no address",
        }
    }

    /// Whether this error was found while resolving a target, as opposed to
    /// a fault of the configuration.
    pub open spec fn spec_is_resolution_error(&self) -> bool {
        !(*self is UrlsEmpty)
    }

    /// Whether this error was found while resolving a target, as opposed to
    /// a fault of the configuration.
    #[verifier::when_used_as_spec(spec_is_resolution_error)]
    pub fn is_resolution_error(&self) -> (b: bool)
        ensures
            b == self.spec_is_resolution_error(),
    {
        match self {
            WaitServiceError::UrlsEmpty => false,
            _ => true,
        }
    }
}

} // verus!
