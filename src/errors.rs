use vstd::prelude::*;

verus! {

/// Why an input was refused before any request was made.
#[derive(Clone, Copy, Debug, PartialEq, Eq, Structural)]
pub enum InvalidReason {
    /// A part size of zero bytes.
    ZeroChunkSize,
    /// A file of zero bytes, which plans to no part at all.
    EmptyFile,
}

/// The step of a request or of a multipart upload in which a failure arose.
#[derive(Clone, Copy, Debug, PartialEq, Eq, Structural)]
pub enum Phase {
    Plan,
    Initiate,
    /// The upload of the part with this sequence number.
    Part(u64),
    Complete,
    /// A single request that is not part of a multipart upload.
    Request,
}

/// Errors of the client.
#[derive(Clone, Debug, PartialEq, Eq)]
pub enum Error {
    /// Refused before any network call.
    InvalidInput(InvalidReason),
    /// The plan would need at least the provider's limit of parts.
    TooManyParts,
    /// The network or HTTP layer failed.
    TransportFailure { phase: Phase, message: String },
    /// The provider answered with a status other than success.
    ProviderRejected { phase: Phase, status: u16, body: String },
    /// A header name or value could not be encoded.
    SigningFailure { phase: Phase, message: String },
}

} // verus!
