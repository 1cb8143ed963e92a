use azure_attest::{
    base64, decode_attest_result, decode_service_response, parse_attestation_result,
    split_compact_token, AttestError, EnclaveInfo, MAAService,
};

const CLAIMS_JSON: &str = "{\"is-debuggable\":true,\"product-id\":0,\"sgx-mrenclave\":\"AB\",\"sgx-mrsigner\":\"CD\",\"svn\":1,\"tee\":\"sgx\"}";

fn sample_token() -> String {
    let payload = base64(CLAIMS_JSON.as_bytes().to_vec());
    format!("aaa.{}.ccc", payload)
}

#[test]
fn split_three_segments() {
    let (h, p, s) = split_compact_token("aaa.bbb.ccc").unwrap();
    assert_eq!(h, "aaa");
    assert_eq!(p, "bbb");
    assert_eq!(s, "ccc");
}

#[test]
fn split_empty_segments() {
    let (h, p, s) = split_compact_token("..").unwrap();
    assert_eq!(h, "");
    assert_eq!(p, "");
    assert_eq!(s, "");
}

#[test]
fn split_rejects_two_segments() {
    assert_eq!(
        split_compact_token("a.b").unwrap_err(),
        AttestError::MalformedTokenError
    );
}

#[test]
fn split_rejects_four_segments() {
    assert_eq!(
        split_compact_token("a.b.c.d").unwrap_err(),
        AttestError::MalformedTokenError
    );
}

#[test]
fn split_rejects_no_dots() {
    assert_eq!(
        split_compact_token("abcd").unwrap_err(),
        AttestError::MalformedTokenError
    );
}

#[test]
fn decode_token_reads_claims() {
    let result = decode_attest_result(sample_token()).unwrap();
    assert_eq!(result.x_ms_policy.is_debuggable, true);
    assert_eq!(result.x_ms_policy.product_id, 0);
    assert_eq!(result.x_ms_policy.sgx_mrenclave, "AB");
    assert_eq!(result.x_ms_policy.sgx_mrsigner, "CD");
    assert_eq!(result.x_ms_policy.svn, 1);
    assert_eq!(result.x_ms_policy.tee, "sgx");
    assert_eq!(result.x_ms_policy.signature_verified, false);
    assert_eq!(result.x_ms_sgx_ehd, None);
}

#[test]
fn decode_token_reads_held_data() {
    let claims = "{\"is-debuggable\":true,\"product-id\":0,\"sgx-mrenclave\":\"AB\",\"sgx-mrsigner\":\"CD\",\"svn\":1,\"tee\":\"sgx\",\"x-ms-sgx-ehd\":\"Aw==\"}";
    let token = format!("h.{}.s", base64(claims.as_bytes().to_vec()));
    let result = decode_attest_result(token).unwrap();
    assert_eq!(result.x_ms_sgx_ehd, Some("Aw==".to_string()));
}

#[test]
fn decode_token_errors_by_stage() {
    assert_eq!(
        decode_attest_result("a.b".to_string()).unwrap_err(),
        AttestError::MalformedTokenError
    );
    assert_eq!(
        decode_attest_result("a.???.c".to_string()).unwrap_err(),
        AttestError::DecodeError
    );
    // valid base64 payload that is not a claims object
    let token = format!("a.{}.c", base64(b"[1,2]".to_vec()));
    assert_eq!(
        decode_attest_result(token).unwrap_err(),
        AttestError::SchemaError
    );
    // an object that misses a required claim
    let token = format!("a.{}.c", base64(b"{\"svn\":1}".to_vec()));
    assert_eq!(
        decode_attest_result(token).unwrap_err(),
        AttestError::SchemaError
    );
}

#[test]
fn xxx_works() {
    let body = format!("{{\"token\":\"{}\"}}", sample_token());
    let ret = MAAService::parse_maa_policy(body.as_bytes());
    assert!(ret.is_ok());
    assert_eq!(ret.unwrap(), Some(CLAIMS_JSON.as_bytes().to_vec()));
}

#[test]
fn parse_maa_policy_no_token_is_not_an_error() {
    assert_eq!(MAAService::parse_maa_policy(b"{}").unwrap(), None);
    assert_eq!(
        MAAService::parse_maa_policy(b"{\"other\":1}").unwrap(),
        None
    );
}

#[test]
fn parse_maa_policy_errors_by_stage() {
    assert_eq!(
        MAAService::parse_maa_policy(b"not json").unwrap_err(),
        AttestError::ResponseFormatError
    );
    assert_eq!(
        MAAService::parse_maa_policy(b"{\"token\":5}").unwrap_err(),
        AttestError::ResponseFormatError
    );
    assert_eq!(
        MAAService::parse_maa_policy(b"{\"token\":\"a.b\"}").unwrap_err(),
        AttestError::MalformedTokenError
    );
    assert_eq!(
        MAAService::parse_maa_policy(b"{\"token\":\"a.???.c\"}").unwrap_err(),
        AttestError::DecodeError
    );
}

#[test]
fn response_without_token_is_not_an_error() {
    let resp = decode_service_response(b"{}").unwrap();
    assert_eq!(resp.token, None);
}

#[test]
fn response_with_token_is_read() {
    let resp = decode_service_response(b"{\"token\":\"aaa.bbb.ccc\"}").unwrap();
    assert_eq!(resp.token, Some("aaa.bbb.ccc".to_string()));
}

#[test]
fn response_with_unknown_fields_is_read() {
    let resp =
        decode_service_response(b"{\"other\":{\"nested\":[1,2]},\"token\":\"t.t.t\"}").unwrap();
    assert_eq!(resp.token, Some("t.t.t".to_string()));
}

#[test]
fn response_that_is_no_object_is_an_error() {
    assert_eq!(
        decode_service_response(b"[]").unwrap_err(),
        AttestError::ResponseFormatError
    );
    assert_eq!(
        decode_service_response(b"{\"token\":5}").unwrap_err(),
        AttestError::ResponseFormatError
    );
}

#[test]
fn full_pipeline_from_response_to_report() {
    let body = format!("{{\"token\":\"{}\"}}", sample_token());
    let policy_bytes = MAAService::parse_maa_policy(body.as_bytes()).unwrap().unwrap();
    let result = parse_attestation_result(&policy_bytes).unwrap();
    let info = EnclaveInfo {
        etype: 1,
        mrenclave_hex: "AB".to_string(),
        mrsigner_hex: "CD".to_string(),
        product_id_hex: "0".to_string(),
        security_version: 1,
        attributes: 2,
        quote_hex: String::new(),
        enclave_held_data_hex: String::new(),
    };
    let report = info.verify_attest(&result);
    assert_eq!(report.entries.len(), 4);
    assert!(report.entries.iter().all(|e| e.passed));
}

#[test]
fn claims_strings_may_be_any_utf8() {
    let claims = "{\"is-debuggable\":true,\"product-id\":0,\"sgx-mrenclave\":\"\u{00e9}\",\"sgx-mrsigner\":\"CD\",\"svn\":1,\"tee\":\"sgx\"}";
    let token = format!("h.{}.s", base64(claims.as_bytes().to_vec()));
    let result = decode_attest_result(token).unwrap();
    assert_eq!(result.x_ms_policy.sgx_mrenclave, "\u{00e9}");
}

#[test]
fn claims_with_invalid_utf8_strings_are_rejected() {
    // a raw 0xff byte inside a string value is not valid UTF-8
    let mut claims: Vec<u8> =
        b"{\"is-debuggable\":true,\"product-id\":0,\"sgx-mrenclave\":\"".to_vec();
    claims.push(0xff);
    claims.extend_from_slice(b"\",\"sgx-mrsigner\":\"CD\",\"svn\":1,\"tee\":\"sgx\"}");
    let token = format!("h.{}.s", base64(claims));
    assert_eq!(
        decode_attest_result(token).unwrap_err(),
        AttestError::SchemaError
    );
}

#[test]
fn error_descriptions_name_the_failure() {
    assert_eq!(
        AttestError::MalformedTokenError.describe(),
        "compact token must have 3 dot-delimited segments"
    );
    assert_eq!(
        AttestError::DecodeError.describe(),
        "malformed hex or base64 input"
    );
}
