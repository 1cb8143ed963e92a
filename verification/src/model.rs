//! The request and response shapes of the attestation service, and the
//! evidence builder that fills them from raw quote bytes.
use vstd::prelude::*;

use crate::codec::{base64, spec_b64_encode};
use crate::EnclaveType;

verus! {

/// How the data of a `RuntimeData` or `InitTimeData` object is to be
/// interpreted by the service. Serialized as the tags "Binary" and "JSON".
#[derive(Clone, Copy, Debug, PartialEq, Eq, Structural)]
pub enum DataType {
    Binary,
    Json,
}

impl Default for DataType {
    fn default() -> (r: Self)
        ensures
            r == DataType::Binary,
    {
        DataType::Binary
    }
}

/// Configuration data bound into the enclave at launch time.
#[derive(Clone, Debug, PartialEq)]
pub struct InitTimeData {
    /// Base64 of the initialization-time data.
    pub data: Option<String>,
    pub data_type: Option<DataType>,
}

impl InitTimeData {
    pub fn new() -> (r: Self)
        ensures
            r.data is None,
            r.data_type is None,
    {
        InitTimeData { data: None, data_type: None }
    }
}

/// Data asserted by the running enclave, bound into the quote.
#[derive(Clone, Debug, PartialEq)]
pub struct RuntimeData {
    /// Base64 of the runtime data.
    pub data: String,
    pub data_type: DataType,
}

impl RuntimeData {
    pub fn new(data: String, data_type: DataType) -> (r: RuntimeData)
        ensures
            r.data == data,
            r.data_type == data_type,
    {
        RuntimeData { data, data_type }
    }
}

/// The minimal request shape: a quote and optional runtime data.
pub struct AttestationRequest {
    pub quote: String,
    pub runtime_data: Option<RuntimeData>,
}

impl AttestationRequest {
    pub fn new(quote: String, runtime_data: Option<RuntimeData>) -> (r: AttestationRequest)
        ensures
            r.quote == quote,
            r.runtime_data == runtime_data,
    {
        AttestationRequest { quote, runtime_data }
    }
}

/// Attestation request for an SGX enclave: the evidence goes under `quote`.
#[derive(Clone, Debug, PartialEq)]
pub struct AttestSgxEnclaveRequest {
    /// Base64 of the quote of the enclave to be attested.
    pub quote: Option<String>,
    pub runtime_data: Option<RuntimeData>,
    pub init_time_data: Option<InitTimeData>,
    /// Attest against this draft policy instead of the configured one.
    pub draft_policy_for_attestation: Option<String>,
    /// Nonce echoed in the generated attestation token.
    pub nonce: Option<String>,
}

impl AttestSgxEnclaveRequest {
    pub fn new() -> (r: Self)
        ensures
            r.quote is None,
            r.runtime_data is None,
            r.init_time_data is None,
            r.draft_policy_for_attestation is None,
            r.nonce is None,
    {
        AttestSgxEnclaveRequest {
            quote: None,
            runtime_data: None,
            init_time_data: None,
            draft_policy_for_attestation: None,
            nonce: None,
        }
    }
}

/// Attestation request for an OpenEnclave report: the evidence goes under
/// `report`; otherwise the shape of `AttestSgxEnclaveRequest`.
#[derive(Clone, Debug, PartialEq)]
pub struct AttestOpenEnclaveRequest {
    /// Base64 of the OpenEnclave report of the enclave to be attested.
    pub report: Option<String>,
    pub runtime_data: Option<RuntimeData>,
    pub init_time_data: Option<InitTimeData>,
    pub draft_policy_for_attestation: Option<String>,
    pub nonce: Option<String>,
}

impl AttestOpenEnclaveRequest {
    pub fn new() -> (r: Self)
        ensures
            r.report is None,
            r.runtime_data is None,
            r.init_time_data is None,
            r.draft_policy_for_attestation is None,
            r.nonce is None,
    {
        AttestOpenEnclaveRequest {
            report: None,
            runtime_data: None,
            init_time_data: None,
            draft_policy_for_attestation: None,
            nonce: None,
        }
    }
}

/// The result of an attestation operation: a compact signed token when the
/// service issued one. Its absence is a valid outcome, not an error.
#[derive(Clone, Debug, PartialEq)]
pub struct AttestationResponse {
    pub token: Option<String>,
}

impl AttestationResponse {
    pub fn new() -> (r: Self)
        ensures
            r.token is None,
    {
        AttestationResponse { token: None }
    }
}

/// One filled evidence request, shaped for the operation it targets.
pub enum EvidenceRequest {
    Sgx(AttestSgxEnclaveRequest),
    OpenEnclave(AttestOpenEnclaveRequest),
}

/// Assembles the evidence payload for one attestation attempt: the evidence
/// bytes in base64 under `quote` or `report` as the target asks, and the
/// held data, when present, in base64 under the runtime data with its tag.
pub fn build_request(
    evidence: &Vec<u8>,
    held_data: Option<&Vec<u8>>,
    data_type: DataType,
    target: EnclaveType,
) -> (r: EvidenceRequest)
    ensures
        match r {
            EvidenceRequest::Sgx(q) => {
                &&& target != EnclaveType::OpenEnclave
                &&& q.quote matches Some(e) && e@ == spec_b64_encode(evidence@)
                &&& match held_data {
                    Some(h) => q.runtime_data matches Some(rd) && rd.data@ == spec_b64_encode(h@)
                        && rd.data_type == data_type,
                    None => q.runtime_data is None,
                }
                &&& q.init_time_data is None
                &&& q.draft_policy_for_attestation is None
                &&& q.nonce is None
            },
            EvidenceRequest::OpenEnclave(q) => {
                &&& target == EnclaveType::OpenEnclave
                &&& q.report matches Some(e) && e@ == spec_b64_encode(evidence@)
                &&& match held_data {
                    Some(h) => q.runtime_data matches Some(rd) && rd.data@ == spec_b64_encode(h@)
                        && rd.data_type == data_type,
                    None => q.runtime_data is None,
                }
                &&& q.init_time_data is None
                &&& q.draft_policy_for_attestation is None
                &&& q.nonce is None
            },
        },
{
    let encoded = base64(evidence.clone());
    let runtime_data = match held_data {
        Some(h) => Some(RuntimeData::new(base64(h.clone()), data_type)),
        None => None,
    };
    match target {
        EnclaveType::OpenEnclave => {
            let mut req = AttestOpenEnclaveRequest::new();
            req.report = Some(encoded);
            req.runtime_data = runtime_data;
            EvidenceRequest::OpenEnclave(req)
        },
        _ => {
            let mut req = AttestSgxEnclaveRequest::new();
            req.quote = Some(encoded);
            req.runtime_data = runtime_data;
            EvidenceRequest::Sgx(req)
        },
    }
}

} // verus!
