use vstd::prelude::*;

verus! {

/// The failure taxonomy of one attestation attempt. Codec and token failures
/// are terminal for the attempt; a comparison that fails is reported by the
/// verifier instead and never raises one of these.
#[derive(Clone, Copy, Debug, PartialEq, Eq, Structural)]
pub enum AttestError {
    /// Malformed hex or base64 input.
    DecodeError,
    /// A compact token whose count of dot-delimited segments is not three.
    MalformedTokenError,
    /// Claims JSON whose shape does not match the policy, or a required
    /// claim that is absent.
    SchemaError,
    /// Network or connection failure, or a non-2xx status.
    TransportError,
    /// A 2xx response with a body that cannot be parsed.
    ResponseFormatError,
}

impl AttestError {
    /// A short text for the error, for callers that present it.
    pub fn describe(&self) -> (r: &'static str)
        ensures
            r@ == match *self {
                AttestError::DecodeError => "malformed hex or base64 input"@,
                AttestError::MalformedTokenError => "compact token must have 3 dot-delimited segments"@,
                AttestError::SchemaError => "claims JSON does not match the expected shape"@,
                AttestError::TransportError => "network failure or non-2xx status"@,
                AttestError::ResponseFormatError => "2xx response body could not be parsed"@,
            },
    {
        match *self {
            AttestError::DecodeError => "malformed hex or base64 input",
            AttestError::MalformedTokenError => "compact token must have 3 dot-delimited segments",
            AttestError::SchemaError => "claims JSON does not match the expected shape",
            AttestError::TransportError => "network failure or non-2xx status",
            AttestError::ResponseFormatError => "2xx response body could not be parsed",
        }
    }
}

} // verus!
