//! The compact signed-token format: three base64url segments separated by
//! dots. Only the segment structure is handled here; the payload is decoded
//! by the caller.
use vstd::prelude::*;

use crate::errors::AttestError;

verus! {

/// The number of dot characters among the first `n` characters of `s`.
pub open spec fn dots_before(s: Seq<char>, n: int) -> int
    decreases n,
{
    if n <= 0 {
        0
    } else {
        dots_before(s, n - 1) + (if s[n - 1] == '.' {
            1int
        } else {
            0int
        })
    }
}

/// The number of dot characters in `s`. A compact token is well formed
/// exactly when this is two: three segments, two separators.
pub open spec fn spec_dot_count(s: Seq<char>) -> int {
    dots_before(s, s.len() as int)
}

/// The position of the first dot at or after `from`, or the length when
/// there is none.
pub open spec fn spec_dot_pos(s: Seq<char>, from: int) -> int
    decreases s.len() - from,
{
    if 0 <= from < s.len() {
        if s[from] == '.' {
            from
        } else {
            spec_dot_pos(s, from + 1)
        }
    } else {
        s.len() as int
    }
}

/// The payload segment of a compact token: the characters between the first
/// and the second dot.
pub open spec fn spec_token_payload(s: Seq<char>) -> Seq<char> {
    s.subrange(spec_dot_pos(s, 0) + 1, spec_dot_pos(s, spec_dot_pos(s, 0) + 1))
}

/// The first dot at or after `from` is the position `k` that holds a dot
/// with no dot before it.
proof fn lemma_dot_pos_of(s: Seq<char>, from: int, k: int)
    requires
        0 <= from <= k < s.len(),
        s[k] == '.',
        forall|j: int| from <= j < k ==> s[j] != '.',
    ensures
        spec_dot_pos(s, from) == k,
    decreases k - from,
{
    if from < k {
        lemma_dot_pos_of(s, from + 1, k);
    }
}

/// Splits a compact token into its header, payload and signature segments.
/// Fails exactly when the count of dot-delimited segments differs from
/// three; on success the three dot-free segments joined by dots give back
/// the input.
pub fn split_compact_token(s: &str) -> (r: Result<(String, String, String), AttestError>)
    ensures
        r is Ok <==> spec_dot_count(s@) == 2,
        r matches Ok(t) ==> s@ == t.0@ + seq!['.'] + t.1@ + seq!['.'] + t.2@,
        r matches Ok(t) ==> (forall|i: int| 0 <= i < t.0@.len() ==> #[trigger] t.0@[i] != '.')
            && (forall|i: int| 0 <= i < t.1@.len() ==> #[trigger] t.1@[i] != '.') && (forall|i: int|
            0 <= i < t.2@.len() ==> #[trigger] t.2@[i] != '.'),
        r matches Ok(t) ==> t.1@ == spec_token_payload(s@),
        r matches Err(e) ==> e == AttestError::MalformedTokenError,
{
    let n = s.unicode_len();
    let mut cnt: usize = 0;
    let mut d1: usize = 0;
    let mut d2: usize = 0;
    let mut i: usize = 0;
    while i < n
        invariant
            n == s@.len(),
            i <= n,
            cnt <= i,
            cnt == dots_before(s@, i as int),
            cnt >= 1 ==> d1 < i && s@[d1 as int] == '.',
            cnt >= 2 ==> d2 < i && d1 < d2 && s@[d2 as int] == '.',
            cnt <= 2 ==> forall|j: int|
                0 <= j < i && #[trigger] s@[j] == '.' ==> (cnt >= 1 && j == d1) || (cnt >= 2 && j
                    == d2),
        decreases n - i,
    {
        let c = s.get_char(i);
        if c == '.' {
            if cnt == 0 {
                d1 = i;
            } else if cnt == 1 {
                d2 = i;
            }
            cnt += 1;
        }
        i += 1;
    }
    if cnt != 2 {
        return Err(AttestError::MalformedTokenError);
    }
    let header = s.substring_char(0, d1).to_owned();
    let payload = s.substring_char(d1 + 1, d2).to_owned();
    let signature = s.substring_char(d2 + 1, n).to_owned();
    proof {
        assert(s@ =~= s@.subrange(0, d1 as int) + seq!['.'] + s@.subrange(d1 + 1, d2 as int)
            + seq!['.'] + s@.subrange(d2 + 1, n as int));
        lemma_dot_pos_of(s@, 0, d1 as int);
        lemma_dot_pos_of(s@, d1 + 1, d2 as int);
    }
    Ok((header, payload, signature))
}

} // verus!
