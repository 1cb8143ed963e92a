//! The per-enclave-kind entry points: each assembles the evidence payload
//! for its flow from the hex-encoded evidence its caller read. Sending the
//! request and presenting the outcome stay with the caller.
use vstd::prelude::*;

use crate::codec::{base64, hex_decode, spec_b64_encode, spec_hex_decode, spec_hex_valid};
use crate::errors::AttestError;
use crate::model::{AttestSgxEnclaveRequest, AttestationRequest, DataType, RuntimeData};

verus! {

/// The SGX attestation flow: submits a quote with enclave held data as
/// binary runtime data.
pub struct SgxEnclave;

impl SgxEnclave {
    /// Assembles the SGX request body values from the hex-encoded quote and
    /// enclave held data: each is decoded and carried as base64, the held
    /// data tagged binary. Fails exactly when a hex string is malformed.
    pub fn prepare_request(quote_hex: &str, ehd_hex: &str) -> (r: Result<
        AttestationRequest,
        AttestError,
    >)
        ensures
            r is Ok <==> spec_hex_valid(quote_hex@) && spec_hex_valid(ehd_hex@),
            r matches Ok(req) ==> req.quote@ == spec_b64_encode(spec_hex_decode(quote_hex@)) && (
            req.runtime_data matches Some(rd) && rd.data@ == spec_b64_encode(
                spec_hex_decode(ehd_hex@),
            ) && rd.data_type == DataType::Binary),
            r matches Err(e) ==> e == AttestError::DecodeError,
    {
        let quote = match hex_decode(quote_hex) {
            Ok(quote) => quote,
            Err(e) => {
                return Err(e);
            },
        };
        let ehd = match hex_decode(ehd_hex) {
            Ok(ehd) => ehd,
            Err(e) => {
                return Err(e);
            },
        };
        let runtime_data = RuntimeData::new(base64(ehd), DataType::Binary);
        Ok(AttestationRequest::new(base64(quote), Some(runtime_data)))
    }
}

/// The test attestation flow: submits a quote alone, with no runtime data.
pub struct TestEnclave;

impl TestEnclave {
    /// Assembles the SGX request shape from the hex-encoded quote alone:
    /// the quote is decoded and carried as base64 and every other field is
    /// left out. Fails exactly when the hex string is malformed.
    pub fn prepare_request(quote_hex: &str) -> (r: Result<AttestSgxEnclaveRequest, AttestError>)
        ensures
            r is Ok <==> spec_hex_valid(quote_hex@),
            r matches Ok(req) ==> (req.quote matches Some(q) && q@ == spec_b64_encode(
                spec_hex_decode(quote_hex@),
            )) && req.runtime_data is None && req.init_time_data is None
                && req.draft_policy_for_attestation is None && req.nonce is None,
            r matches Err(e) ==> e == AttestError::DecodeError,
    {
        let quote = match hex_decode(quote_hex) {
            Ok(quote) => quote,
            Err(e) => {
                return Err(e);
            },
        };
        let mut req = AttestSgxEnclaveRequest::new();
        req.quote = Some(base64(quote));
        Ok(req)
    }
}

} // verus!
