use azure_attest::{
    attest_url, build_request, has_api_version, AttestOpenEnclaveRequest, AttestSgxEnclaveRequest,
    AttestationRequest, AttestationResponse, Config, DataType, EnclaveType, EvidenceRequest,
    InitTimeData, RequestBuilder, RuntimeData, SgxEnclave, TestEnclave,
};

#[test]
fn build_request_sgx_with_held_data() {
    let quote = vec![0x01, 0x02];
    let held = vec![0x03];
    let req = build_request(&quote, Some(&held), DataType::Binary, EnclaveType::SgxEnclave);
    match req {
        EvidenceRequest::Sgx(q) => {
            assert_eq!(q.quote, Some("AQI=".to_string()));
            let rd = q.runtime_data.unwrap();
            assert_eq!(rd.data, "Aw==");
            assert_eq!(rd.data_type, DataType::Binary);
            assert_eq!(q.init_time_data, None);
            assert_eq!(q.draft_policy_for_attestation, None);
            assert_eq!(q.nonce, None);
        },
        EvidenceRequest::OpenEnclave(_) => panic!("expected the SGX shape"),
    }
}

#[test]
fn build_request_open_enclave_uses_report() {
    let quote = vec![0x01, 0x02];
    let req = build_request(&quote, None, DataType::Binary, EnclaveType::OpenEnclave);
    match req {
        EvidenceRequest::OpenEnclave(q) => {
            assert_eq!(q.report, Some("AQI=".to_string()));
            assert_eq!(q.runtime_data, None);
        },
        EvidenceRequest::Sgx(_) => panic!("expected the OpenEnclave shape"),
    }
}

#[test]
fn model_constructors_start_empty() {
    let r = AttestSgxEnclaveRequest::new();
    assert_eq!(r.quote, None);
    assert_eq!(r.runtime_data, None);
    let r = AttestOpenEnclaveRequest::new();
    assert_eq!(r.report, None);
    let r = AttestationResponse::new();
    assert_eq!(r.token, None);
    let r = InitTimeData::new();
    assert_eq!(r.data, None);
    assert_eq!(r.data_type, None);
    let rd = RuntimeData::new("AQI=".to_string(), DataType::Json);
    assert_eq!(rd.data, "AQI=");
    assert_eq!(rd.data_type, DataType::Json);
    let ar = AttestationRequest::new("AQI=".to_string(), None);
    assert_eq!(ar.quote, "AQI=");
    assert!(ar.runtime_data.is_none());
    assert_eq!(DataType::default(), DataType::Binary);
}

#[test]
fn sgx_enclave_prepares_request_from_hex() {
    let req = SgxEnclave::prepare_request("0102", "03").unwrap();
    assert_eq!(req.quote, "AQI=");
    let rd = req.runtime_data.unwrap();
    assert_eq!(rd.data, "Aw==");
    assert_eq!(rd.data_type, DataType::Binary);
    assert!(SgxEnclave::prepare_request("010", "03").is_err());
    assert!(SgxEnclave::prepare_request("0102", "0z").is_err());
}

#[test]
fn test_enclave_prepares_bare_request() {
    let req = TestEnclave::prepare_request("0102").unwrap();
    assert_eq!(req.quote, Some("AQI=".to_string()));
    assert_eq!(req.runtime_data, None);
    assert!(TestEnclave::prepare_request("01x2").is_err());
}

#[test]
fn attest_url_appends_api_version() {
    assert_eq!(
        attest_url("https://example.attest.net", EnclaveType::SgxEnclave),
        "https://example.attest.net/attest/SgxEnclave?api-version=2020-10-01"
    );
    assert_eq!(
        attest_url("https://example.attest.net/", EnclaveType::OpenEnclave),
        "https://example.attest.net/attest/OpenEnclave?api-version=2020-10-01"
    );
}

#[test]
fn attest_url_keeps_existing_api_version() {
    assert!(has_api_version("https://e.net/?api-version=2018-09-01"));
    assert_eq!(
        attest_url("https://e.net/?api-version=2018-09-01", EnclaveType::SgxEnclave),
        "https://e.net/?api-version=2018-09-01/attest/SgxEnclave"
    );
    assert!(!has_api_version("https://e.net/?other=1&api=2"));
    assert!(has_api_version("https://e.net/?other=1&api-version=7"));
    assert!(!has_api_version("https://e.net/no-query"));
}

#[test]
fn request_builder_prepares_transport_values() {
    let quote = vec![0x01, 0x02];
    let builder = RequestBuilder {
        endpoint: "https://example.attest.net".to_string(),
        bearer_token: "SECRET-REDACTED".to_string(),
        request: build_request(&quote, None, DataType::Binary, EnclaveType::SgxEnclave),
    };
    assert_eq!(builder.operation(), EnclaveType::SgxEnclave);
    assert_eq!(
        builder.url(),
        "https://example.attest.net/attest/SgxEnclave?api-version=2020-10-01"
    );
    assert_eq!(builder.authorization(), "Bearer SECRET-REDACTED");
}

#[test]
fn config_holds_plain_values() {
    let c = Config::new("tok".to_string(), "https://e.net".to_string());
    assert_eq!(c.token, "tok");
    assert_eq!(c.endpoint, "https://e.net");
}
