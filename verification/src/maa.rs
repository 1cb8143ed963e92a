//! The claims carried by the attestation token, as this pipeline reads
//! them: the token decoder that splits the compact token, base64-decodes its
//! payload and reads the policy claims, and the decoder for the service
//! response body. Neither verifies the token signature: the claims carry an
//! explicit marker for that capability gap.
use vstd::prelude::*;

use crate::codec::{base64_decode, spec_b64_decode};
use crate::errors::AttestError;
use crate::json::{
    find_field, parse_json_fields, spec_field_lookup, spec_json_fields, JsonField, JsonScalar,
    ScalarV,
};
use crate::model::AttestationResponse;
use crate::token::{spec_dot_count, spec_token_payload, split_compact_token};

verus! {

use vstd::string::StringSliceAdditionalSpecFns;

/// The bytes of a key, as UTF-8.
pub open spec fn key_bytes(s: Seq<char>) -> Seq<u8> {
    vstd::utf8::encode_utf8(s)
}

/// Relies on String::from_utf8: it succeeds exactly on valid UTF-8 and
/// returns the string made of those bytes.
#[verifier::external_body]
fn utf8_string(bytes: Vec<u8>) -> (r: Option<String>)
    ensures
        r is Some <==> vstd::utf8::valid_utf8(bytes@),
        r matches Some(s) ==> vstd::utf8::encode_utf8(s@) == bytes@,
{
    String::from_utf8(bytes).ok()
}

/// The bytes as a string, when they are valid UTF-8.
fn utf8_string_of(v: Vec<u8>) -> (r: Option<String>)
    ensures
        r matches Some(s) ==> vstd::utf8::valid_utf8(v@) && s@ == vstd::utf8::decode_utf8(v@),
        r is None <==> !vstd::utf8::valid_utf8(v@),
{
    match utf8_string(v) {
        Some(s) => {
            proof {
                vstd::utf8::encode_utf8_decode_utf8(s@);
            }
            Some(s)
        },
        None => None,
    }
}

/// The policy claims of a decoded attestation token. Produced fresh per
/// verification and never mutated after decoding.
#[derive(Clone, Debug, PartialEq)]
pub struct MAAPolicy {
    pub is_debuggable: bool,
    pub product_id: u32,
    /// Hex of the enclave code measurement, as the service reports it.
    pub sgx_mrenclave: String,
    /// Hex of the enclave signer identity, as the service reports it.
    pub sgx_mrsigner: String,
    /// Security version number of the enclave.
    pub svn: u32,
    /// The TEE kind the service attested, such as "sgx".
    pub tee: String,
    /// Always false from this decoder: the token signature is never checked
    /// here. A caller that trusts the claims opts into trusting an
    /// unverified token.
    pub signature_verified: bool,
}

impl Default for MAAPolicy {
    fn default() -> (r: Self)
        ensures
            r.is_debuggable == true,
            r.product_id == 0,
            r.sgx_mrenclave@ == Seq::<char>::empty(),
            r.sgx_mrsigner@ == Seq::<char>::empty(),
            r.svn == 0,
            r.tee@ == "sgx"@,
            r.signature_verified == false,
    {
        MAAPolicy {
            is_debuggable: true,
            product_id: 0,
            sgx_mrenclave: String::new(),
            sgx_mrsigner: String::new(),
            svn: 0,
            tee: "sgx".to_owned(),
            signature_verified: false,
        }
    }
}

/// The decoded body of an attestation token: the policy claims and, when
/// present, the base64 hash of the enclave held data.
#[derive(Clone, Debug, PartialEq)]
pub struct AttestationResult {
    pub x_ms_policy: MAAPolicy,
    pub x_ms_sgx_ehd: Option<String>,
}

/// The body shape of the attestation service response.
#[derive(Clone, Debug, PartialEq)]
pub struct MAAResponse {
    pub token: String,
}


/// True when the members hold every claim this decoder requires, in the
/// shape it reads: booleans for the debug flag, representable unsigned
/// numbers for the product id and the security version, UTF-8 strings for
/// the measurements and the TEE kind, and, when present, a UTF-8 string
/// for the held-data hash.
pub open spec fn spec_claims_decodable(fields: Seq<(Seq<u8>, Option<ScalarV>)>) -> bool {
    &&& spec_field_lookup(fields, key_bytes("is-debuggable"@)) matches Some(Some(ScalarV::Bool(_)))
    &&& spec_field_lookup(fields, key_bytes("product-id"@)) matches Some(Some(ScalarV::Uint(v)))
        && v <= u32::MAX
    &&& spec_field_lookup(fields, key_bytes("sgx-mrenclave"@)) matches Some(
        Some(ScalarV::Str(b)),
    ) && vstd::utf8::valid_utf8(b)
    &&& spec_field_lookup(fields, key_bytes("sgx-mrsigner"@)) matches Some(Some(ScalarV::Str(c)))
        && vstd::utf8::valid_utf8(c)
    &&& spec_field_lookup(fields, key_bytes("svn"@)) matches Some(Some(ScalarV::Uint(w))) && w
        <= u32::MAX
    &&& spec_field_lookup(fields, key_bytes("tee"@)) matches Some(Some(ScalarV::Str(d)))
        && vstd::utf8::valid_utf8(d)
    &&& match spec_field_lookup(fields, key_bytes("x-ms-sgx-ehd"@)) {
        None => true,
        Some(Some(ScalarV::Str(e))) => vstd::utf8::valid_utf8(e),
        _ => false,
    }
}

/// True when the decoded result carries exactly the claims of the members:
/// each claim field equals the member of its key, the held-data hash is
/// present exactly when its member is, and the signature is marked
/// unverified.
pub open spec fn spec_result_matches(
    fields: Seq<(Seq<u8>, Option<ScalarV>)>,
    ar: AttestationResult,
) -> bool {
    &&& spec_field_lookup(fields, key_bytes("is-debuggable"@)) == Some(
        Some(ScalarV::Bool(ar.x_ms_policy.is_debuggable)),
    )
    &&& spec_field_lookup(fields, key_bytes("product-id"@)) == Some(
        Some(ScalarV::Uint(ar.x_ms_policy.product_id as u64)),
    )
    &&& spec_field_lookup(fields, key_bytes("sgx-mrenclave"@)) matches Some(
        Some(ScalarV::Str(b)),
    ) && ar.x_ms_policy.sgx_mrenclave@ == vstd::utf8::decode_utf8(b)
    &&& spec_field_lookup(fields, key_bytes("sgx-mrsigner"@)) matches Some(Some(ScalarV::Str(c)))
        && ar.x_ms_policy.sgx_mrsigner@ == vstd::utf8::decode_utf8(c)
    &&& spec_field_lookup(fields, key_bytes("svn"@)) == Some(
        Some(ScalarV::Uint(ar.x_ms_policy.svn as u64)),
    )
    &&& spec_field_lookup(fields, key_bytes("tee"@)) matches Some(Some(ScalarV::Str(d)))
        && ar.x_ms_policy.tee@ == vstd::utf8::decode_utf8(d)
    &&& match spec_field_lookup(fields, key_bytes("x-ms-sgx-ehd"@)) {
        None => ar.x_ms_sgx_ehd is None,
        Some(Some(ScalarV::Str(e))) => ar.x_ms_sgx_ehd matches Some(h) && h@ == vstd::utf8::decode_utf8(e),
        _ => false,
    }
    &&& ar.x_ms_policy.signature_verified == false
}

/// Reads the policy claims out of the decoded token payload. Fails exactly
/// when the payload is not a JSON object of the required shape.
pub fn parse_attestation_result(payload: &[u8]) -> (r: Result<AttestationResult, AttestError>)
    ensures
        r is Ok <==> (spec_json_fields(payload@) matches Some(fields) && spec_claims_decodable(
            fields,
        )),
        r matches Ok(ar) ==> spec_json_fields(payload@) matches Some(fields)
            && spec_result_matches(fields, ar),
        r matches Err(e) ==> e == AttestError::SchemaError,
{
    let fields = match parse_json_fields(payload) {
        Some(fields) => fields,
        None => {
            return Err(AttestError::SchemaError);
        },
    };
    let is_debuggable = match find_field(&fields, "is-debuggable".as_bytes()) {
        Some(idx) => match &fields[idx].value {
            Some(JsonScalar::Bool(b)) => *b,
            _ => {
                return Err(AttestError::SchemaError);
            },
        },
        None => {
            return Err(AttestError::SchemaError);
        },
    };
    let product_id = match find_field(&fields, "product-id".as_bytes()) {
        Some(idx) => match &fields[idx].value {
            Some(JsonScalar::Uint(v)) => {
                if *v <= u32::MAX as u64 {
                    *v as u32
                } else {
                    return Err(AttestError::SchemaError);
                }
            },
            _ => {
                return Err(AttestError::SchemaError);
            },
        },
        None => {
            return Err(AttestError::SchemaError);
        },
    };
    let sgx_mrenclave = match find_field(&fields, "sgx-mrenclave".as_bytes()) {
        Some(idx) => match &fields[idx].value {
            Some(JsonScalar::Str(b)) => match utf8_string_of(vstd::slice::slice_to_vec(
                b.as_slice(),
            )) {
                Some(s) => s,
                None => {
                    return Err(AttestError::SchemaError);
                },
            },
            _ => {
                return Err(AttestError::SchemaError);
            },
        },
        None => {
            return Err(AttestError::SchemaError);
        },
    };
    let sgx_mrsigner = match find_field(&fields, "sgx-mrsigner".as_bytes()) {
        Some(idx) => match &fields[idx].value {
            Some(JsonScalar::Str(b)) => match utf8_string_of(vstd::slice::slice_to_vec(
                b.as_slice(),
            )) {
                Some(s) => s,
                None => {
                    return Err(AttestError::SchemaError);
                },
            },
            _ => {
                return Err(AttestError::SchemaError);
            },
        },
        None => {
            return Err(AttestError::SchemaError);
        },
    };
    let svn = match find_field(&fields, "svn".as_bytes()) {
        Some(idx) => match &fields[idx].value {
            Some(JsonScalar::Uint(v)) => {
                if *v <= u32::MAX as u64 {
                    *v as u32
                } else {
                    return Err(AttestError::SchemaError);
                }
            },
            _ => {
                return Err(AttestError::SchemaError);
            },
        },
        None => {
            return Err(AttestError::SchemaError);
        },
    };
    let tee = match find_field(&fields, "tee".as_bytes()) {
        Some(idx) => match &fields[idx].value {
            Some(JsonScalar::Str(b)) => match utf8_string_of(vstd::slice::slice_to_vec(
                b.as_slice(),
            )) {
                Some(s) => s,
                None => {
                    return Err(AttestError::SchemaError);
                },
            },
            _ => {
                return Err(AttestError::SchemaError);
            },
        },
        None => {
            return Err(AttestError::SchemaError);
        },
    };
    let x_ms_sgx_ehd = match find_field(&fields, "x-ms-sgx-ehd".as_bytes()) {
        Some(idx) => match &fields[idx].value {
            Some(JsonScalar::Str(b)) => match utf8_string_of(vstd::slice::slice_to_vec(
                b.as_slice(),
            )) {
                Some(s) => Some(s),
                None => {
                    return Err(AttestError::SchemaError);
                },
            },
            _ => {
                return Err(AttestError::SchemaError);
            },
        },
        None => None,
    };
    Ok(
        AttestationResult {
            x_ms_policy: MAAPolicy {
                is_debuggable,
                product_id,
                sgx_mrenclave,
                sgx_mrsigner,
                svn,
                tee,
                signature_verified: false,
            },
            x_ms_sgx_ehd,
        },
    )
}

/// True when a compact token decodes end to end: three dot-delimited
/// segments, a payload segment that base64-decodes, and decoded bytes that
/// hold the required claims.
pub open spec fn spec_token_decodable(s: Seq<char>) -> bool {
    &&& spec_dot_count(s) == 2
    &&& spec_b64_decode(spec_token_payload(s)) matches Some(payload)
    &&& spec_json_fields(payload) matches Some(fields) && spec_claims_decodable(fields)
}

/// Decodes a compact attestation token: splits it, base64-decodes the
/// payload segment, and reads the policy claims. The header and the
/// signature segments are not consumed, and the signature is never
/// verified.
pub fn decode_attest_result(token: String) -> (r: Result<AttestationResult, AttestError>)
    ensures
        r is Ok <==> spec_token_decodable(token@),
        r matches Ok(ar) ==> spec_b64_decode(spec_token_payload(token@)) matches Some(payload)
            && spec_json_fields(payload) matches Some(fields) && spec_result_matches(fields, ar),
        r matches Err(e) ==> (e == AttestError::MalformedTokenError <==> spec_dot_count(token@)
            != 2),
        r matches Err(e) ==> (e == AttestError::DecodeError <==> spec_dot_count(token@) == 2
            && spec_b64_decode(spec_token_payload(token@)) is None),
        r matches Err(e) ==> (e == AttestError::SchemaError <==> (spec_dot_count(token@) == 2
            && (spec_b64_decode(spec_token_payload(token@)) matches Some(payload) && !(
            spec_json_fields(payload) matches Some(fields) && spec_claims_decodable(fields))))),
{
    let parts = match split_compact_token(token.as_str()) {
        Ok(parts) => parts,
        Err(_) => {
            return Err(AttestError::MalformedTokenError);
        },
    };
    let payload = match base64_decode(parts.1.as_str()) {
        Ok(payload) => payload,
        Err(_) => {
            return Err(AttestError::DecodeError);
        },
    };
    parse_attestation_result(payload.as_slice())
}

/// The token string of a response body: the "token" member of the body
/// object, when the body is an object and that member is a UTF-8 string.
pub open spec fn spec_response_token(body: Seq<u8>) -> Option<Seq<char>> {
    match spec_json_fields(body) {
        Some(fields) => match spec_field_lookup(fields, key_bytes("token"@)) {
            Some(Some(ScalarV::Str(b))) => if vstd::utf8::valid_utf8(b) {
                Some(vstd::utf8::decode_utf8(b))
            } else {
                None
            },
            _ => None,
        },
        None => None,
    }
}

/// Decodes the attestation service response body. The absence of a token is
/// a valid outcome, not an error: the service declined to issue one, and
/// the caller must not proceed to decode claims.
pub fn decode_service_response(body: &[u8]) -> (r: Result<AttestationResponse, AttestError>)
    ensures
        r matches Ok(resp) ==> spec_json_fields(body@) matches Some(fields) && match spec_field_lookup(
            fields,
            key_bytes("token"@),
        ) {
            None => resp.token is None,
            Some(Some(ScalarV::Str(b))) => vstd::utf8::valid_utf8(b) && (resp.token matches Some(t) && t@
                == vstd::utf8::decode_utf8(b)),
            _ => false,
        },
        r is Err <==> !(spec_json_fields(body@) matches Some(fields) && match spec_field_lookup(
            fields,
            key_bytes("token"@),
        ) {
            None => true,
            Some(Some(ScalarV::Str(b))) => vstd::utf8::valid_utf8(b),
            _ => false,
        }),
        r matches Err(e) ==> e == AttestError::ResponseFormatError,
{
    let fields = match parse_json_fields(body) {
        Some(fields) => fields,
        None => {
            return Err(AttestError::ResponseFormatError);
        },
    };
    match find_field(&fields, "token".as_bytes()) {
        None => Ok(AttestationResponse { token: None }),
        Some(idx) => match &fields[idx].value {
            Some(JsonScalar::Str(b)) => match utf8_string_of(vstd::slice::slice_to_vec(
                b.as_slice(),
            )) {
                Some(t) => Ok(AttestationResponse { token: Some(t) }),
                None => Err(AttestError::ResponseFormatError),
            },
            _ => Err(AttestError::ResponseFormatError),
        },
    }
}

/// Does Microsoft Azure Attestation: verifies a DCAP quote with the remote
/// service. An implementor supplies the transport.
pub trait MAAHandler {
    fn azure_attest(&self, quote: &[u8]) -> Result<Vec<u8>, AttestError>;
}

/// The service-side helpers of the attestation exchange.
pub struct MAAService;

impl MAAService {
    /// Extracts the decoded policy payload from a raw service response
    /// body: reads the token out of the body object, splits the compact
    /// token, and base64-decodes its payload segment. A well-formed body
    /// without a token member is the valid "no token issued" outcome,
    /// carried as `Ok(None)`, never as an error; `ResponseFormatError` is
    /// reserved for a body that does not parse as an object or whose token
    /// member is not a UTF-8 string.
    pub fn parse_maa_policy(writer: &[u8]) -> (r: Result<Option<Vec<u8>>, AttestError>)
        ensures
            (r matches Ok(p) && p is None) <==> (spec_json_fields(writer@) matches Some(fields)
                && spec_field_lookup(fields, key_bytes("token"@)) is None),
            (r matches Ok(p) && p is Some) <==> (spec_response_token(writer@) matches Some(t)
                && spec_dot_count(t) == 2 && spec_b64_decode(spec_token_payload(t)) is Some),
            r matches Ok(p) ==> (p matches Some(v) ==> spec_response_token(writer@) matches Some(
                t,
            ) && Some(v@) == spec_b64_decode(spec_token_payload(t))),
            r matches Err(e) ==> (e == AttestError::ResponseFormatError <==> !(spec_json_fields(
                writer@,
            ) matches Some(fields) && match spec_field_lookup(fields, key_bytes("token"@)) {
                None => true,
                Some(Some(ScalarV::Str(b))) => vstd::utf8::valid_utf8(b),
                _ => false,
            })),
            r matches Err(e) ==> (e == AttestError::MalformedTokenError <==> (spec_response_token(
                writer@,
            ) matches Some(t) && spec_dot_count(t) != 2)),
            r matches Err(e) ==> (e == AttestError::DecodeError <==> (spec_response_token(writer@)
                matches Some(t) && spec_dot_count(t) == 2 && spec_b64_decode(
                spec_token_payload(t),
            ) is None)),
    {
        let fields = match parse_json_fields(writer) {
            Some(fields) => fields,
            None => {
                return Err(AttestError::ResponseFormatError);
            },
        };
        let token = match find_field(&fields, "token".as_bytes()) {
            Some(idx) => match &fields[idx].value {
                Some(JsonScalar::Str(b)) => match utf8_string_of(vstd::slice::slice_to_vec(
                    b.as_slice(),
                )) {
                    Some(t) => t,
                    None => {
                        return Err(AttestError::ResponseFormatError);
                    },
                },
                _ => {
                    return Err(AttestError::ResponseFormatError);
                },
            },
            None => {
                return Ok(None);
            },
        };
        let resp = MAAResponse { token };
        let parts = match split_compact_token(resp.token.as_str()) {
            Ok(parts) => parts,
            Err(_) => {
                return Err(AttestError::MalformedTokenError);
            },
        };
        match base64_decode(parts.1.as_str()) {
            Ok(policy) => Ok(Some(policy)),
            Err(_) => Err(AttestError::DecodeError),
        }
    }
}

} // verus!
