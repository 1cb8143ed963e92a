use azure_attest::{
    bool_text, hex_u64, u64_dec, AttestationResult, CheckKind, EnclaveInfo, MAAPolicy, ShowTime,
};

fn record(attributes: u8, mrenclave: &str, mrsigner: &str, security_version: u32) -> EnclaveInfo {
    EnclaveInfo {
        etype: 1,
        mrenclave_hex: mrenclave.to_string(),
        mrsigner_hex: mrsigner.to_string(),
        product_id_hex: "0".to_string(),
        security_version,
        attributes,
        quote_hex: String::new(),
        enclave_held_data_hex: String::new(),
    }
}

fn claims(is_debuggable: bool, mrenclave: &str, mrsigner: &str, svn: u32) -> AttestationResult {
    AttestationResult {
        x_ms_policy: MAAPolicy {
            is_debuggable,
            product_id: 0,
            sgx_mrenclave: mrenclave.to_string(),
            sgx_mrsigner: mrsigner.to_string(),
            svn,
            tee: "sgx".to_string(),
            signature_verified: false,
        },
        x_ms_sgx_ehd: None,
    }
}

#[test]
fn debuggable_bit_two_set() {
    let report = record(0x02, "AB", "CD", 1).verify_attest(&claims(true, "AB", "CD", 1));
    assert_eq!(report.entries[0].kind, CheckKind::Debuggable);
    assert!(report.entries[0].passed);
    assert_eq!(report.entries[0].expected, "true");
}

#[test]
fn debuggable_bit_two_clear() {
    let report = record(0x00, "AB", "CD", 1).verify_attest(&claims(false, "AB", "CD", 1));
    assert!(report.entries[0].passed);
    assert_eq!(report.entries[0].expected, "false");
}

#[test]
fn debuggable_uses_exact_bit_not_truthiness() {
    // 0b101: nonzero byte, but bit one is unset, so the record expects
    // a non-debuggable enclave.
    let report = record(0x05, "AB", "CD", 1).verify_attest(&claims(true, "AB", "CD", 1));
    assert_eq!(report.entries[0].expected, "false");
    assert!(!report.entries[0].passed);
    let report = record(0x05, "AB", "CD", 1).verify_attest(&claims(false, "AB", "CD", 1));
    assert!(report.entries[0].passed);
}

#[test]
fn measurement_match_is_case_insensitive() {
    let report = record(0x02, "AB12", "CD34", 1).verify_attest(&claims(true, "ab12", "cd34", 1));
    assert_eq!(report.entries[1].kind, CheckKind::MrEnclave);
    assert!(report.entries[1].passed);
    assert_eq!(report.entries[1].actual, "AB12");
    assert_eq!(report.entries[2].kind, CheckKind::MrSigner);
    assert!(report.entries[2].passed);
}

#[test]
fn measurement_mismatch_is_reported() {
    let report = record(0x02, "AB12", "CD34", 1).verify_attest(&claims(true, "ff12", "cd34", 1));
    assert!(!report.entries[1].passed);
    assert!(report.entries[2].passed);
}

#[test]
fn all_four_checks_pass() {
    let report = record(0x02, "AB", "CD", 1).verify_attest(&claims(true, "ab", "cd", 1));
    assert_eq!(report.entries.len(), 4);
    assert!(report.entries.iter().all(|e| e.passed));
    assert_eq!(report.entries[3].kind, CheckKind::SecurityVersion);
}

#[test]
fn security_version_mismatch_leaves_others_passing() {
    let report = record(0x02, "AB", "CD", 2).verify_attest(&claims(true, "ab", "cd", 1));
    assert_eq!(report.entries.len(), 4);
    assert!(report.entries[0].passed);
    assert!(report.entries[1].passed);
    assert!(report.entries[2].passed);
    assert!(!report.entries[3].passed);
    assert_eq!(report.entries[3].expected, "2");
    assert_eq!(report.entries[3].actual, "1");
}

#[test]
fn held_data_check_runs_when_claimed() {
    let mut info = record(0x02, "AB", "CD", 1);
    info.enclave_held_data_hex = "03".to_string();
    let mut result = claims(true, "ab", "cd", 1);
    result.x_ms_sgx_ehd = Some("Aw==".to_string());
    let report = info.verify_attest(&result);
    assert_eq!(report.entries.len(), 5);
    assert_eq!(report.entries[4].kind, CheckKind::EnclaveHeldData);
    assert!(report.entries[4].passed);
    assert_eq!(report.entries[4].expected, "Aw==");

    result.x_ms_sgx_ehd = Some("BA==".to_string());
    let report = info.verify_attest(&result);
    assert!(!report.entries[4].passed);
}

#[test]
fn held_data_check_reports_bad_record_hex() {
    let mut info = record(0x02, "AB", "CD", 1);
    info.enclave_held_data_hex = "0g".to_string();
    let mut result = claims(true, "ab", "cd", 1);
    result.x_ms_sgx_ehd = Some("Aw==".to_string());
    let report = info.verify_attest(&result);
    assert!(!report.entries[4].passed);
    assert_eq!(report.entries[4].expected, "0g");
}

#[test]
fn show_attest_reports_through_the_trait() {
    let info = record(0x02, "AB", "CD", 1);
    let report = info.show_attest(&claims(true, "ab", "cd", 1));
    assert_eq!(report.entries.len(), 4);
    assert!(report.entries.iter().all(|e| e.passed));
}

#[test]
fn product_id_check_compares_parsed_hex() {
    let mut info = record(0x02, "AB", "CD", 1);
    info.product_id_hex = "1f".to_string();
    let mut result = claims(true, "ab", "cd", 1);
    result.x_ms_policy.product_id = 31;
    let entry = info.product_id_check(&result.x_ms_policy);
    assert_eq!(entry.kind, CheckKind::ProductId);
    assert!(entry.passed);
    assert_eq!(entry.expected, "31");
    result.x_ms_policy.product_id = 30;
    assert!(!info.product_id_check(&result.x_ms_policy).passed);
}

#[test]
fn product_id_check_reports_bad_record_hex() {
    let mut info = record(0x02, "AB", "CD", 1);
    info.product_id_hex = "xyz".to_string();
    let entry = info.product_id_check(&claims(true, "ab", "cd", 1).x_ms_policy);
    assert!(!entry.passed);
    assert_eq!(entry.expected, "xyz");
}

#[test]
fn decimal_text_of_numbers() {
    assert_eq!(u64_dec(0), "0");
    assert_eq!(u64_dec(7), "7");
    assert_eq!(u64_dec(1234567890), "1234567890");
    assert_eq!(u64_dec(u64::MAX), "18446744073709551615");
    assert_eq!(bool_text(true), "true");
    assert_eq!(bool_text(false), "false");
}

#[test]
fn hex_number_parsing() {
    assert_eq!(hex_u64("1f"), Some(31));
    assert_eq!(hex_u64("0"), Some(0));
    assert_eq!(hex_u64("FFFFFFFFFFFFFFFF"), Some(u64::MAX));
    assert_eq!(hex_u64(""), None);
    assert_eq!(hex_u64("xy"), None);
    assert_eq!(hex_u64("10000000000000000"), None);
    assert_eq!(hex_u64("00000000000000001"), Some(1));
}

#[test]
fn ascii_upper_casing_leaves_other_characters() {
    assert_eq!(azure_attest::to_ascii_upper("ab12xy"), "AB12XY");
    assert_eq!(azure_attest::to_ascii_upper("AB-_."), "AB-_.");
    assert_eq!(azure_attest::to_ascii_upper(""), "");
    assert_eq!(azure_attest::to_ascii_upper("caf\u{00e9}"), "CAF\u{00e9}");
}
