//! The verifier: compares the claims of a decoded attestation token against
//! a locally supplied expected-measurement record, field by field, and
//! reports every comparison whether or not an earlier one failed.
use vstd::prelude::*;

use crate::codec::{
    ascii_lower, ascii_upper, base64, hex_decode, hex_val, is_hex_digit, spec_b64_encode,
    spec_hex_decode, spec_hex_valid,
};
use crate::maa::{AttestationResult, MAAPolicy};

verus! {

use vstd::string::StringSliceAdditionalSpecFns;

/// The string with every lower-case ASCII letter replaced by its upper-case
/// form.
pub open spec fn spec_upper(s: Seq<char>) -> Seq<char> {
    s.map_values(|c: char| ascii_upper(c))
}

/// Relies on str::to_ascii_uppercase: ASCII lower-case letters are mapped to
/// their upper-case form and every other character is unchanged.
#[verifier::external_body]
pub fn to_ascii_upper(s: &str) -> (r: String)
    ensures
        r@ == spec_upper(s@),
{
    s.to_ascii_uppercase()
}

/// The decimal digit character for a value below ten.
pub open spec fn dec_digit(d: int) -> char
    recommends
        0 <= d < 10,
{
    ((0x30 + d) as u8) as char
}

/// The decimal text of a number: its digits, most significant first, with
/// no leading zero except for the number zero itself.
pub open spec fn spec_dec_digits(n: nat) -> Seq<char>
    decreases n,
{
    if n < 10 {
        seq![dec_digit(n as int)]
    } else {
        spec_dec_digits(n / 10).push(dec_digit((n % 10) as int))
    }
}

/// Appends the decimal digits of `x` as ASCII bytes.
fn push_dec(x: u64, out: &mut Vec<u8>)
    ensures
        final(out)@.len() == old(out)@.len() + spec_dec_digits(x as nat).len(),
        forall|k: int| 0 <= k < old(out)@.len() ==> final(out)@[k] == old(out)@[k],
        forall|k: int|
            0 <= k < spec_dec_digits(x as nat).len() ==> #[trigger] final(out)@[old(out)@.len()
                + k] < 128 && final(out)@[old(out)@.len() + k] as char == spec_dec_digits(
                x as nat,
            )[k],
    decreases x,
{
    if x < 10 {
        out.push(0x30 + (x as u8));
    } else {
        push_dec(x / 10, out);
        out.push(0x30 + ((x % 10) as u8));
    }
}

/// The decimal text of a number.
pub fn u64_dec(n: u64) -> (r: String)
    ensures
        r@ == spec_dec_digits(n as nat),
{
    let mut out: Vec<u8> = Vec::new();
    push_dec(n, &mut out);
    proof {
        assert forall|k: int| 0 <= k < out@.len() implies #[trigger] out@[k] < 128 by {
            assert(out@[0 + k] < 128);
        }
        assert forall|k: int| 0 <= k < out@.len() implies #[trigger] out@[k] as char
            == spec_dec_digits(n as nat)[k] by {
            assert(out@[0 + k] as char == spec_dec_digits(n as nat)[k]);
        }
    }
    let r = crate::codec::ascii_string(out);
    proof {
        assert(r@ =~= spec_dec_digits(n as nat));
    }
    r
}

/// The text of a boolean value.
pub fn bool_text(b: bool) -> (r: String)
    ensures
        r@ == if b {
            "true"@
        } else {
            "false"@
        },
{
    if b {
        "true".to_owned()
    } else {
        "false".to_owned()
    }
}

/// The number a hex string stands for, most significant digit first.
pub open spec fn hex_nat(s: Seq<char>) -> nat
    decreases s.len(),
{
    if s.len() == 0 {
        0
    } else {
        hex_nat(s.drop_last()) * 16 + hex_val(s.last()) as nat
    }
}

/// The number a hex string stands for, when it is nonempty, all digits, and
/// the value is representable; `None` otherwise.
pub open spec fn spec_hex_u64(s: Seq<char>) -> Option<u64> {
    if s.len() >= 1 && (forall|i: int| 0 <= i < s.len() ==> is_hex_digit(#[trigger] s[i]))
        && hex_nat(s) <= u64::MAX {
        Some(hex_nat(s) as u64)
    } else {
        None
    }
}

/// A longer hex string never stands for a smaller number.
proof fn lemma_hex_nat_prefix(s: Seq<char>, j: int)
    requires
        0 <= j <= s.len(),
    ensures
        hex_nat(s.take(j)) <= hex_nat(s),
    decreases s.len() - j,
{
    if j == s.len() {
        assert(s.take(j) =~= s);
    } else {
        assert(s.take(j + 1).drop_last() =~= s.take(j));
        assert(s.take(j + 1).last() == s[j]);
        assert(hex_nat(s.take(j + 1)) == hex_nat(s.take(j)) * 16 + hex_val(s[j]));
        lemma_hex_nat_prefix(s, j + 1);
    }
}

/// Parses an unsigned number from hex text. Fails exactly when the text is
/// empty, holds a character that is no hex digit, or stands for a number
/// too large to represent.
pub fn hex_u64(s: &str) -> (r: Option<u64>)
    ensures
        r == spec_hex_u64(s@),
{
    if !s.is_ascii() {
        proof {
            if spec_hex_u64(s@) is Some {
                assert forall|i: int| 0 <= i < s@.len() implies '\0' <= #[trigger] s@[i]
                    && s@[i] <= '\u{7f}' by {
                    assert(is_hex_digit(s@[i]));
                }
                assert(vstd::utf8::is_ascii_chars(s@));
                assert(false);
            }
        }
        return None;
    }
    let bytes = s.as_bytes();
    let n = bytes.len();
    proof {
        vstd::string::is_ascii_spec_bytes(s);
        assert(n == s@.len());
        assert(forall|j: int| 0 <= j < s@.len() ==> bytes@[j] == #[trigger] s@[j] as u8);
        assert(forall|j: int| 0 <= j < s@.len() ==> (s@[j] as u8) as char == #[trigger] s@[j]);
    }
    if n == 0 {
        return None;
    }
    let mut acc: u64 = 0;
    let mut i: usize = 0;
    while i < n
        invariant
            vstd::string::is_ascii(s),
            n == s@.len(),
            bytes@.len() == n,
            n >= 1,
            forall|j: int| 0 <= j < s@.len() ==> bytes@[j] == #[trigger] s@[j] as u8,
            forall|j: int| 0 <= j < s@.len() ==> (s@[j] as u8) as char == #[trigger] s@[j],
            i <= n,
            forall|j: int| 0 <= j < i ==> is_hex_digit(#[trigger] s@[j]),
            acc == hex_nat(s@.take(i as int)),
        decreases n - i,
    {
        proof {
            assert(s@[i as int] <= '\u{7f}');
            assert(bytes@[i as int] < 128);
            assert(s@.take(i + 1).drop_last() =~= s@.take(i as int));
            assert(s@.take(i + 1).last() == s@[i as int]);
        }
        let v = match crate::codec::hex_digit_value(bytes[i]) {
            Some(v) => v,
            None => {
                return None;
            },
        };
        if acc >= 0x1000000000000000 {
            proof {
                assert(hex_nat(s@.take(i + 1)) == hex_nat(s@.take(i as int)) * 16 + hex_val(
                    s@[i as int],
                ) as nat);
                lemma_hex_nat_prefix(s@, i + 1);
            }
            return None;
        }
        acc = acc * 16 + (v as u64);
        i += 1;
    }
    proof {
        assert(s@.take(n as int) =~= s@);
    }
    Some(acc)
}

/// The checks the verifier runs, in the order they are reported.
#[derive(Clone, Copy, Debug, PartialEq, Eq, Structural)]
pub enum CheckKind {
    Debuggable,
    MrEnclave,
    MrSigner,
    SecurityVersion,
    EnclaveHeldData,
    ProductId,
}

/// One reported comparison: what was expected locally, what the service
/// claimed, and whether the two agree.
#[derive(Clone, Debug, PartialEq)]
pub struct CheckResult {
    pub kind: CheckKind,
    pub expected: String,
    pub actual: String,
    pub passed: bool,
}

/// The ordered comparisons of one verification. Entries are independent:
/// one failed comparison never suppresses the others.
#[derive(Clone, Debug, PartialEq)]
pub struct VerificationReport {
    pub entries: Vec<CheckResult>,
}

/// The locally supplied expected-measurement record, read-only during a
/// verification.
#[derive(Clone, Debug, PartialEq)]
pub struct EnclaveInfo {
    /// The enclave kind tag of the record.
    pub etype: u8,
    /// Expected enclave measurement, canonical upper-case hex.
    pub mrenclave_hex: String,
    /// Expected signer identity, canonical upper-case hex.
    pub mrsigner_hex: String,
    /// Expected product identifier, in hex.
    pub product_id_hex: String,
    /// Expected security version number.
    pub security_version: u32,
    /// TEE-reported flags byte; bit one denotes debug mode.
    pub attributes: u8,
    /// Hex of the quote used for a self-test.
    pub quote_hex: String,
    /// Hex of the expected enclave held data.
    pub enclave_held_data_hex: String,
}

/// The debuggable check passes when bit one of the expected attributes byte
/// agrees with the claim.
pub open spec fn spec_debuggable_pass(info: EnclaveInfo, claims: MAAPolicy) -> bool {
    ((info.attributes & 2) != 0) == claims.is_debuggable
}

/// The measurement check passes when the expected hex equals the claimed
/// hex raised to upper case.
pub open spec fn spec_mrenclave_pass(info: EnclaveInfo, claims: MAAPolicy) -> bool {
    info.mrenclave_hex@ == spec_upper(claims.sgx_mrenclave@)
}

/// The signer check passes when the expected hex equals the claimed hex
/// raised to upper case.
pub open spec fn spec_mrsigner_pass(info: EnclaveInfo, claims: MAAPolicy) -> bool {
    info.mrsigner_hex@ == spec_upper(claims.sgx_mrsigner@)
}

/// The security-version check passes on exact numeric equality.
pub open spec fn spec_svn_pass(info: EnclaveInfo, claims: MAAPolicy) -> bool {
    info.security_version == claims.svn
}

/// The held-data check passes when the expected hex decodes and its base64
/// equals the claimed held-data hash.
pub open spec fn spec_held_data_pass(info: EnclaveInfo, ehd: Seq<char>) -> bool {
    spec_hex_valid(info.enclave_held_data_hex@) && spec_b64_encode(
        spec_hex_decode(info.enclave_held_data_hex@),
    ) == ehd
}

/// The product-id check passes when the expected hex parses and equals the
/// claimed product identifier.
pub open spec fn spec_product_id_pass(info: EnclaveInfo, claims: MAAPolicy) -> bool {
    spec_hex_u64(info.product_id_hex@) matches Some(v) && v == claims.product_id as u64
}

/// Presents the comparison of decoded claims against an expected record:
/// one entry per check in the fixed order, the held-data entry exactly when
/// the token carried a held-data hash, and each entry's claimed side drawn
/// from the decoded result. Which comparisons pass depends on the record
/// the implementor holds, so that part of the contract lives with the
/// implementor, as in `EnclaveInfo::verify_attest`.
pub trait ShowTime {
    fn show_attest(&self, attest_result: &AttestationResult) -> (r: VerificationReport)
        ensures
            r.entries@.len() == (if attest_result.x_ms_sgx_ehd is Some {
                5int
            } else {
                4int
            }),
            r.entries@[0].kind == CheckKind::Debuggable,
            r.entries@[0].actual@ == (if attest_result.x_ms_policy.is_debuggable {
                "true"@
            } else {
                "false"@
            }),
            r.entries@[1].kind == CheckKind::MrEnclave,
            r.entries@[1].actual@ == spec_upper(attest_result.x_ms_policy.sgx_mrenclave@),
            r.entries@[2].kind == CheckKind::MrSigner,
            r.entries@[2].actual@ == spec_upper(attest_result.x_ms_policy.sgx_mrsigner@),
            r.entries@[3].kind == CheckKind::SecurityVersion,
            r.entries@[3].actual@ == spec_dec_digits(attest_result.x_ms_policy.svn as nat),
            attest_result.x_ms_sgx_ehd matches Some(ehd) ==> {
                &&& r.entries@[4].kind == CheckKind::EnclaveHeldData
                &&& r.entries@[4].actual == ehd
            },
    ;
}

impl EnclaveInfo {
    /// Runs the four standard checks, and the held-data check when the
    /// token carried a held-data hash, each reported independently and in
    /// this fixed order. Never fails: a mismatch is a reported result.
    pub fn verify_attest(&self, result: &AttestationResult) -> (r: VerificationReport)
        ensures
            r.entries@.len() == (if result.x_ms_sgx_ehd is Some {
                5int
            } else {
                4int
            }),
            r.entries@[0].kind == CheckKind::Debuggable,
            r.entries@[0].passed == spec_debuggable_pass(*self, result.x_ms_policy),
            r.entries@[0].expected@ == (if (self.attributes & 2) != 0 {
                "true"@
            } else {
                "false"@
            }),
            r.entries@[0].actual@ == (if result.x_ms_policy.is_debuggable {
                "true"@
            } else {
                "false"@
            }),
            r.entries@[1].kind == CheckKind::MrEnclave,
            r.entries@[1].passed == spec_mrenclave_pass(*self, result.x_ms_policy),
            r.entries@[1].expected == self.mrenclave_hex,
            r.entries@[1].actual@ == spec_upper(result.x_ms_policy.sgx_mrenclave@),
            r.entries@[2].kind == CheckKind::MrSigner,
            r.entries@[2].passed == spec_mrsigner_pass(*self, result.x_ms_policy),
            r.entries@[2].expected == self.mrsigner_hex,
            r.entries@[2].actual@ == spec_upper(result.x_ms_policy.sgx_mrsigner@),
            r.entries@[3].kind == CheckKind::SecurityVersion,
            r.entries@[3].passed == spec_svn_pass(*self, result.x_ms_policy),
            r.entries@[3].expected@ == spec_dec_digits(self.security_version as nat),
            r.entries@[3].actual@ == spec_dec_digits(result.x_ms_policy.svn as nat),
            result.x_ms_sgx_ehd matches Some(ehd) ==> {
                &&& r.entries@[4].kind == CheckKind::EnclaveHeldData
                &&& r.entries@[4].passed == spec_held_data_pass(*self, ehd@)
                &&& r.entries@[4].actual == ehd
                &&& spec_hex_valid(self.enclave_held_data_hex@) ==> r.entries@[4].expected@
                    == spec_b64_encode(spec_hex_decode(self.enclave_held_data_hex@))
                &&& !spec_hex_valid(self.enclave_held_data_hex@) ==> r.entries@[4].expected
                    == self.enclave_held_data_hex
            },
    {
        let mut entries: Vec<CheckResult> = Vec::new();
        let is_debuggable = (self.attributes & 2) != 0;
        entries.push(
            CheckResult {
                kind: CheckKind::Debuggable,
                expected: bool_text(is_debuggable),
                actual: bool_text(result.x_ms_policy.is_debuggable),
                passed: is_debuggable == result.x_ms_policy.is_debuggable,
            },
        );
        let mre_actual = to_ascii_upper(result.x_ms_policy.sgx_mrenclave.as_str());
        let mre_passed = self.mrenclave_hex == mre_actual;
        entries.push(
            CheckResult {
                kind: CheckKind::MrEnclave,
                expected: self.mrenclave_hex.clone(),
                actual: mre_actual,
                passed: mre_passed,
            },
        );
        let mrs_actual = to_ascii_upper(result.x_ms_policy.sgx_mrsigner.as_str());
        let mrs_passed = self.mrsigner_hex == mrs_actual;
        entries.push(
            CheckResult {
                kind: CheckKind::MrSigner,
                expected: self.mrsigner_hex.clone(),
                actual: mrs_actual,
                passed: mrs_passed,
            },
        );
        entries.push(
            CheckResult {
                kind: CheckKind::SecurityVersion,
                expected: u64_dec(self.security_version as u64),
                actual: u64_dec(result.x_ms_policy.svn as u64),
                passed: self.security_version == result.x_ms_policy.svn,
            },
        );
        match &result.x_ms_sgx_ehd {
            Some(ehd) => {
                match hex_decode(self.enclave_held_data_hex.as_str()) {
                    Ok(expected_bytes) => {
                        let expected_b64 = base64(expected_bytes);
                        let passed = expected_b64 == *ehd;
                        entries.push(
                            CheckResult {
                                kind: CheckKind::EnclaveHeldData,
                                expected: expected_b64,
                                actual: ehd.clone(),
                                passed,
                            },
                        );
                    },
                    Err(_) => {
                        entries.push(
                            CheckResult {
                                kind: CheckKind::EnclaveHeldData,
                                expected: self.enclave_held_data_hex.clone(),
                                actual: ehd.clone(),
                                passed: false,
                            },
                        );
                    },
                }
            },
            None => {},
        }
        VerificationReport { entries }
    }

    /// The optional, off-by-default product-id comparison.
    pub fn product_id_check(&self, claims: &MAAPolicy) -> (r: CheckResult)
        ensures
            r.kind == CheckKind::ProductId,
            r.passed == spec_product_id_pass(*self, *claims),
            r.actual@ == spec_dec_digits(claims.product_id as nat),
            spec_hex_u64(self.product_id_hex@) matches Some(v) ==> r.expected@ == spec_dec_digits(
                v as nat,
            ),
            spec_hex_u64(self.product_id_hex@) is None ==> r.expected == self.product_id_hex,
    {
        match hex_u64(self.product_id_hex.as_str()) {
            Some(v) => CheckResult {
                kind: CheckKind::ProductId,
                expected: u64_dec(v),
                actual: u64_dec(claims.product_id as u64),
                passed: v == claims.product_id as u64,
            },
            None => CheckResult {
                kind: CheckKind::ProductId,
                expected: self.product_id_hex.clone(),
                actual: u64_dec(claims.product_id as u64),
                passed: false,
            },
        }
    }
}

impl ShowTime for EnclaveInfo {
    /// The comparison of decoded claims against this record.
    fn show_attest(&self, attest_result: &AttestationResult) -> VerificationReport {
        self.verify_attest(attest_result)
    }
}

/// For one character already in its upper-case form, matching another
/// character's upper-case form is the same as agreeing with it ignoring
/// ASCII case.
proof fn lemma_case_char(x: char, y: char)
    requires
        x == ascii_upper(x),
    ensures
        (x == ascii_upper(y)) <==> (ascii_lower(x) == ascii_lower(y)),
{
}

/// For an expected value already in canonical upper-case form, a
/// measurement comparison is case-insensitive: it passes exactly when the
/// expected and claimed strings agree character by character ignoring ASCII
/// case.
pub proof fn lemma_match_case_insensitive(e: Seq<char>, a: Seq<char>)
    requires
        e == spec_upper(e),
    ensures
        (e == spec_upper(a)) <==> (e.len() == a.len() && forall|i: int|
            0 <= i < e.len() ==> ascii_lower(#[trigger] e[i]) == ascii_lower(a[i])),
{
    assert forall|i: int| 0 <= i < e.len() implies #[trigger] e[i] == ascii_upper(e[i]) by {
        assert(e[i] == spec_upper(e)[i]);
    }
    if e == spec_upper(a) {
        assert(e.len() == a.len());
        assert forall|i: int| 0 <= i < e.len() implies ascii_lower(#[trigger] e[i]) == ascii_lower(
            a[i],
        ) by {
            assert(e[i] == spec_upper(a)[i]);
            assert(e[i] == ascii_upper(a[i]));
            lemma_case_char(e[i], a[i]);
        }
    }
    if e.len() == a.len() && (forall|i: int|
        0 <= i < e.len() ==> ascii_lower(#[trigger] e[i]) == ascii_lower(a[i])) {
        assert forall|i: int| 0 <= i < e.len() implies #[trigger] e[i] == spec_upper(a)[i] by {
            assert(ascii_lower(e[i]) == ascii_lower(a[i]));
            lemma_case_char(e[i], a[i]);
            assert(spec_upper(a)[i] == ascii_upper(a[i]));
        }
        assert(e =~= spec_upper(a));
    }
}

} // verus!
