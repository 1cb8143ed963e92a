//! The compute side of the attestation client: the operation URL, with the
//! service API version appended only when the endpoint does not already
//! carry one, and the authorization header value. The transport that sends
//! the request is supplied by the caller.
use vstd::prelude::*;

use crate::model::EvidenceRequest;
use crate::EnclaveType;

verus! {

use vstd::string::StrSliceExecFns;
use vstd::string::StringExecFns;

/// The position of the first occurrence of `c` at or after `from`, or the
/// length when there is none.
pub open spec fn spec_find_char(s: Seq<char>, c: char, from: int) -> int
    decreases s.len() - from,
{
    if 0 <= from < s.len() {
        if s[from] == c {
            from
        } else {
            spec_find_char(s, c, from + 1)
        }
    } else {
        s.len() as int
    }
}

/// True when some parameter of the query has the key `api-version`: the key
/// of a parameter is what stands before its first equals sign, and
/// parameters are separated by ampersands.
pub open spec fn spec_query_has_api_version(q: Seq<char>) -> bool
    decreases q.len(),
{
    let amp = spec_find_char(q, '&', 0);
    let param = q.subrange(0, if amp > q.len() {
        q.len() as int
    } else {
        amp
    });
    let eq = spec_find_char(param, '=', 0);
    if param.subrange(0, if eq > param.len() {
        param.len() as int
    } else {
        eq
    }) == "api-version"@ {
        true
    } else if 0 <= amp < q.len() {
        spec_query_has_api_version(q.skip(amp + 1))
    } else {
        false
    }
}

/// True when the endpoint already carries an `api-version` query parameter:
/// its query is what follows the first question mark.
pub open spec fn spec_has_api_version(s: Seq<char>) -> bool {
    let q = spec_find_char(s, '?', 0);
    if 0 <= q < s.len() {
        spec_query_has_api_version(s.subrange(q + 1, s.len() as int))
    } else {
        false
    }
}

/// The path of an attestation operation.
pub open spec fn spec_op_path(op: EnclaveType) -> Seq<char> {
    if op == EnclaveType::OpenEnclave {
        "attest/OpenEnclave"@
    } else {
        "attest/SgxEnclave"@
    }
}

/// The URL of an attestation operation: the endpoint, a slash when the
/// endpoint does not end with one, the operation path, and the service API
/// version as a query parameter unless the endpoint already carries one.
pub open spec fn spec_attest_url(endpoint: Seq<char>, op: EnclaveType) -> Seq<char> {
    let base = if endpoint.len() > 0 && endpoint[endpoint.len() - 1] == '/' {
        endpoint
    } else {
        endpoint + "/"@
    };
    let with_path = base + spec_op_path(op);
    if spec_has_api_version(endpoint) {
        with_path
    } else {
        with_path + "?api-version=2020-10-01"@
    }
}

/// True when two strings hold the same characters.
fn chars_eq(a: &str, b: &str) -> (r: bool)
    ensures
        r == (a@ == b@),
{
    let n = a.unicode_len();
    let m = b.unicode_len();
    if n != m {
        proof {
            assert(a@.len() != b@.len());
        }
        return false;
    }
    let mut i: usize = 0;
    while i < n
        invariant
            i <= n,
            n == a@.len() == b@.len(),
            forall|j: int| 0 <= j < i ==> a@[j] == b@[j],
        decreases n - i,
    {
        if a.get_char(i) != b.get_char(i) {
            return false;
        }
        i += 1;
    }
    proof {
        assert(a@ =~= b@);
    }
    true
}

/// The position of the first occurrence of `c` at or after `from`.
fn find_char_from(s: &str, n: usize, c: char, from: usize) -> (j: usize)
    requires
        n == s@.len(),
        from <= n,
    ensures
        j as int == spec_find_char(s@, c, from as int),
        from <= j <= n,
{
    let mut p = from;
    while p < n && s.get_char(p) != c
        invariant
            from <= p <= n,
            n == s@.len(),
            spec_find_char(s@, c, from as int) == spec_find_char(s@, c, p as int),
        decreases n - p,
    {
        p += 1;
    }
    p
}

/// True when the endpoint already carries an `api-version` query parameter.
pub fn has_api_version(endpoint: &str) -> (r: bool)
    ensures
        r == spec_has_api_version(endpoint@),
{
    let n = endpoint.unicode_len();
    let q = find_char_from(endpoint, n, '?', 0);
    if q >= n {
        return false;
    }
    let mut start = q + 1;
    loop
        invariant
            q + 1 <= start <= n,
            n == endpoint@.len(),
            spec_has_api_version(endpoint@) == spec_query_has_api_version(
                endpoint@.subrange(start as int, n as int),
            ),
        decreases n - start,
    {
        let ghost query = endpoint@.subrange(start as int, n as int);
        let amp = find_char_from(endpoint, n, '&', start);
        let eq = find_char_from(endpoint, n, '=', start);
        let keyend = if eq < amp {
            eq
        } else {
            amp
        };
        proof {
            lemma_find_char_prefix(endpoint@, '&', start as int, n as int);
            let samp = spec_find_char(query, '&', 0);
            assert(samp == amp - start);
            let param = query.subrange(0, if samp > query.len() {
                query.len() as int
            } else {
                samp
            });
            assert(param =~= endpoint@.subrange(start as int, amp as int));
            lemma_find_char_prefix(endpoint@, '=', start as int, amp as int);
            let seq0 = spec_find_char(param, '=', 0);
            assert(param.subrange(0, if seq0 > param.len() {
                param.len() as int
            } else {
                seq0
            }) =~= endpoint@.subrange(start as int, keyend as int));
        }
        let key = endpoint.substring_char(start, keyend);
        if chars_eq(key, "api-version") {
            return true;
        }
        if amp >= n {
            return false;
        }
        proof {
            assert(endpoint@.subrange(start as int, n as int).skip(amp - start + 1)
                =~= endpoint@.subrange(amp + 1, n as int));
        }
        start = amp + 1;
    }
}

/// A search never lands before its start nor past the end.
proof fn lemma_find_char_bounds(s: Seq<char>, c: char, from: int)
    requires
        0 <= from <= s.len(),
    ensures
        from <= spec_find_char(s, c, from) <= s.len(),
    decreases s.len() - from,
{
    if from < s.len() && s[from] != c {
        lemma_find_char_bounds(s, c, from + 1);
    }
}

/// A search that misses the first character is the search in the rest,
/// shifted by one.
proof fn lemma_find_char_skip(s: Seq<char>, c: char)
    requires
        s.len() > 0,
        s[0] != c,
    ensures
        spec_find_char(s, c, 0) == spec_find_char(s.skip(1), c, 0) + 1,
{
    lemma_find_char_shift(s, c, 1);
}

/// Searching from a positive position is searching the tail, shifted.
proof fn lemma_find_char_shift(s: Seq<char>, c: char, from: int)
    requires
        1 <= from <= s.len(),
    ensures
        spec_find_char(s, c, from) == spec_find_char(s.skip(1), c, from - 1) + 1,
    decreases s.len() - from,
{
    if from < s.len() {
        assert(s.skip(1)[from - 1] == s[from]);
        if s[from] != c {
            lemma_find_char_shift(s, c, from + 1);
        }
    }
}

/// A search inside a prefix subrange agrees with the search in the whole,
/// capped at the subrange end.
proof fn lemma_find_char_prefix(s: Seq<char>, c: char, start: int, mid: int)
    requires
        0 <= start <= mid <= s.len(),
    ensures
        spec_find_char(s.subrange(start, mid), c, 0) == (if spec_find_char(s, c, start) >= mid {
            mid - start
        } else {
            spec_find_char(s, c, start) - start
        }),
    decreases mid - start,
{
    lemma_find_char_bounds(s, c, start);
    if start < mid {
        if s[start] != c {
            lemma_find_char_prefix(s, c, start + 1, mid);
            assert(s.subrange(start + 1, mid) =~= s.subrange(start, mid).skip(1));
            assert(s.subrange(start, mid)[0] == s[start]);
            lemma_find_char_skip(s.subrange(start, mid), c);
        } else {
            assert(s.subrange(start, mid)[0] == c);
        }
    }
}

/// Builds the URL of an attestation operation against an endpoint.
pub fn attest_url(endpoint: &str, op: EnclaveType) -> (r: String)
    ensures
        r@ == spec_attest_url(endpoint@, op),
{
    let n = endpoint.unicode_len();
    let mut url = endpoint.to_owned();
    if n == 0 || endpoint.get_char(n - 1) != '/' {
        url.append("/");
    }
    match op {
        EnclaveType::OpenEnclave => url.append("attest/OpenEnclave"),
        _ => url.append("attest/SgxEnclave"),
    }
    if !has_api_version(endpoint) {
        url.append("?api-version=2020-10-01");
    }
    url
}

/// True for a 2xx status code: the exchange succeeded and the body is the
/// service's answer. Any other status surfaces as a transport failure, and
/// the body is not decoded.
pub fn is_success_status(status: u16) -> (r: bool)
    ensures
        r == (200 <= status < 300),
{
    200 <= status && status < 300
}

/// One prepared attestation request: the endpoint, the bearer credential,
/// and the evidence payload, before any transport is involved.
pub struct RequestBuilder {
    pub endpoint: String,
    pub bearer_token: String,
    pub request: EvidenceRequest,
}

impl RequestBuilder {
    /// The operation the held request targets.
    pub fn operation(&self) -> (r: EnclaveType)
        ensures
            r == (if self.request is OpenEnclave {
                EnclaveType::OpenEnclave
            } else {
                EnclaveType::SgxEnclave
            }),
    {
        match self.request {
            EvidenceRequest::OpenEnclave(_) => EnclaveType::OpenEnclave,
            EvidenceRequest::Sgx(_) => EnclaveType::SgxEnclave,
        }
    }

    /// The URL the held request is posted to.
    pub fn url(&self) -> (r: String)
        ensures
            r@ == spec_attest_url(
                self.endpoint@,
                if self.request is OpenEnclave {
                    EnclaveType::OpenEnclave
                } else {
                    EnclaveType::SgxEnclave
                },
            ),
    {
        let op = self.operation();
        attest_url(self.endpoint.as_str(), op)
    }

    /// The value of the authorization header: the bearer scheme and the
    /// credential.
    pub fn authorization(&self) -> (r: String)
        ensures
            r@ == "Bearer "@ + self.bearer_token@,
    {
        let mut h = "Bearer ".to_owned();
        h.append(self.bearer_token.as_str());
        h
    }
}

} // verus!
