//! The error taxonomy every fallible operation of the library reports.

use vstd::prelude::*;

verus! {

/// Why an operation on a workload object failed.
///
/// An absent optional field (for instance a workload that has never been
/// scaled and so carries no last-modified annotation) is not an error; it is
/// reported as a valid `None` result instead.
#[derive(Clone, Copy, Debug, PartialEq, Eq, Structural)]
pub enum Error {
    /// A network, authentication or API-server-reported failure.
    TransportError,
    /// A required field (declared replica count, pod-template labels) is
    /// absent on the remote object.
    SpecFieldMissing,
    /// The last-modified annotation is present but is not a valid RFC 3339
    /// timestamp.
    AnnotationMalformed,
    /// The outgoing patch body could not be encoded.
    SerializationError,
}

impl Error {
    /// A short human-readable description of the failure.
    pub fn message(&self) -> (r: &'static str)
        ensures
            (*self == Error::TransportError ==> r@ == "transport failure"@),
            (*self == Error::SpecFieldMissing ==> r@ == "required spec field is missing"@),
            (*self == Error::AnnotationMalformed ==> r@ == "last-modified annotation is malformed"@),
            (*self == Error::SerializationError ==> r@ == "patch body could not be encoded"@),
    {
        match self {
            Error::TransportError => "transport failure",
            Error::SpecFieldMissing => "required spec field is missing",
            Error::AnnotationMalformed => "last-modified annotation is malformed",
            Error::SerializationError => "patch body could not be encoded",
        }
    }
}

} // verus!
