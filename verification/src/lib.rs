use vstd::prelude::*;

mod checks;
mod client;
mod codec;
mod config;
mod enclaves;
mod errors;
mod json;
mod maa;
mod model;
mod token;

pub use codec::{
    ascii_lower, ascii_upper, b64_byte, b64_char, b64_val, b64_val_byte, base64, base64_decode,
    hex_decode, hex_encode, hex_lower_char, hex_val, is_b64_byte, is_b64_char, is_hex_digit,
    lemma_base64_round_trip, lemma_hex_round_trip, spec_b64_decode, spec_b64_encode,
    spec_b64_strip, spec_hex_decode, spec_hex_encode, spec_hex_valid,
};
pub use client::{
    attest_url, has_api_version, is_success_status, spec_attest_url, spec_find_char,
    spec_has_api_version, spec_op_path, spec_query_has_api_version, RequestBuilder,
};
pub use config::Config;
pub use enclaves::{SgxEnclave, TestEnclave};
pub use errors::AttestError;
pub use json::{
    bytes_eq, dec_nat, find_field, is_ws_byte, parse_json_fields, spec_escape, spec_field_lookup,
    spec_json_fields, spec_scalar_at, spec_string_rest, spec_value_end, spec_ws, JsonField,
    JsonScalar, ScalarV,
};
pub use maa::{
    decode_attest_result, decode_service_response, key_bytes, parse_attestation_result,
    spec_claims_decodable, spec_response_token, spec_result_matches, spec_token_decodable,
    AttestationResult, MAAHandler, MAAPolicy, MAAResponse, MAAService,
};
pub use checks::{
    bool_text, dec_digit, hex_nat, hex_u64, lemma_match_case_insensitive, spec_dec_digits,
    spec_debuggable_pass, spec_held_data_pass, spec_hex_u64, spec_mrenclave_pass,
    spec_mrsigner_pass, spec_product_id_pass, spec_svn_pass, spec_upper, to_ascii_upper, u64_dec,
    CheckKind, CheckResult, EnclaveInfo, ShowTime, VerificationReport,
};
pub use model::{
    build_request, AttestOpenEnclaveRequest, AttestSgxEnclaveRequest, AttestationRequest,
    AttestationResponse, DataType, EvidenceRequest, InitTimeData, RuntimeData,
};
pub use token::{dots_before, spec_dot_count, spec_dot_pos, spec_token_payload, split_compact_token};

verus! {

/// The kinds of enclave evidence the pipeline can submit.
#[derive(Clone, Copy, Debug, PartialEq, Eq, Structural)]
pub enum EnclaveType {
    SgxEnclave,
    OpenEnclave,
    TestEnclave,
}

/// Interface of an attestation flow that submits evidence to the remote
/// service and presents the outcome. Implementors supply the transport.
pub trait MAA {
    fn azure_attest(&self);
}

} // verus!
