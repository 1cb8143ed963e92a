//! A verified parser for the JSON the attestation service sends back: an
//! object of string keys whose values this pipeline reads as scalars
//! (strings, unsigned numbers, booleans, null) and skips otherwise (nested
//! objects and arrays; fractional, negative or oversized numbers; and
//! string values holding a unicode escape, which are scanned past but not
//! decoded). A key holding a unicode escape fails the parse.
use vstd::prelude::*;

verus! {

/// A scalar field value, as the parser models it.
pub enum ScalarV {
    Null,
    Bool(bool),
    Uint(u64),
    Str(Seq<u8>),
}

/// A scalar field value, as the parser returns it.
pub enum JsonScalar {
    Null,
    Bool(bool),
    Uint(u64),
    Str(Vec<u8>),
}

impl View for JsonScalar {
    type V = ScalarV;

    open spec fn view(&self) -> ScalarV {
        match *self {
            JsonScalar::Null => ScalarV::Null,
            JsonScalar::Bool(b) => ScalarV::Bool(b),
            JsonScalar::Uint(v) => ScalarV::Uint(v),
            JsonScalar::Str(ref b) => ScalarV::Str(b@),
        }
    }
}

/// One member of the top-level object: its key, and its value when the
/// value is a scalar the pipeline can read; `None` for a value that was
/// skipped.
pub struct JsonField {
    pub key: Vec<u8>,
    pub value: Option<JsonScalar>,
}

impl View for JsonField {
    type V = (Seq<u8>, Option<ScalarV>);

    open spec fn view(&self) -> (Seq<u8>, Option<ScalarV>) {
        (
            self.key@,
            match self.value {
                Some(ref v) => Some(v@),
                None => None,
            },
        )
    }
}

/// True for the four JSON whitespace bytes.
pub open spec fn is_ws_byte(b: u8) -> bool {
    b == 0x20 || b == 0x09 || b == 0x0a || b == 0x0d
}

/// The first position at or after `i` that does not hold whitespace.
pub open spec fn spec_ws(s: Seq<u8>, i: int) -> int
    decreases s.len() - i,
{
    if 0 <= i < s.len() && is_ws_byte(s[i]) {
        spec_ws(s, i + 1)
    } else {
        i
    }
}

/// The byte an escape character after a backslash stands for. Unicode
/// escapes are not decoded here; the skip scanner carries them past.
pub open spec fn spec_escape(b: u8) -> Option<u8> {
    if b == 0x22 {
        Some(0x22u8)
    } else if b == 0x5c {
        Some(0x5cu8)
    } else if b == 0x2f {
        Some(0x2fu8)
    } else if b == 0x62 {
        Some(8u8)
    } else if b == 0x66 {
        Some(12u8)
    } else if b == 0x6e {
        Some(10u8)
    } else if b == 0x72 {
        Some(13u8)
    } else if b == 0x74 {
        Some(9u8)
    } else {
        None
    }
}

/// The decoded content and end position of a string body that starts at
/// `i`, just after the opening quote, or `None` when the string is
/// unterminated, holds a raw control byte, or uses an escape the parser
/// does not accept.
pub open spec fn spec_string_rest(s: Seq<u8>, i: int) -> Option<(Seq<u8>, int)>
    decreases s.len() - i,
{
    if i < 0 || i >= s.len() {
        None
    } else if s[i] == 0x22 {
        Some((Seq::empty(), i + 1))
    } else if s[i] == 0x5c {
        if i + 1 < s.len() {
            match spec_escape(s[i + 1]) {
                Some(b) => match spec_string_rest(s, i + 2) {
                    Some(cj) => Some((seq![b] + cj.0, cj.1)),
                    None => None,
                },
                None => None,
            }
        } else {
            None
        }
    } else if s[i] < 0x20 {
        None
    } else {
        match spec_string_rest(s, i + 1) {
            Some(cj) => Some((seq![s[i]] + cj.0, cj.1)),
            None => None,
        }
    }
}

/// True for an ASCII byte that stands for a hexadecimal digit.
pub open spec fn is_hex_byte(b: u8) -> bool {
    (0x30 <= b && b <= 0x39) || (0x41 <= b && b <= 0x46) || (0x61 <= b && b <= 0x66)
}

/// The end position of a string body that starts at `i`, just after the
/// opening quote, without decoding it: unicode escapes with four hex digits
/// are accepted here, so a value holding one can be skipped.
pub open spec fn spec_string_skip(s: Seq<u8>, i: int) -> Option<int>
    decreases s.len() - i,
{
    if i < 0 || i >= s.len() {
        None
    } else if s[i] == 0x22 {
        Some(i + 1)
    } else if s[i] == 0x5c {
        if i + 1 < s.len() {
            if s[i + 1] == 0x75 {
                if i + 6 <= s.len() && is_hex_byte(s[i + 2]) && is_hex_byte(s[i + 3]) && is_hex_byte(
                    s[i + 4],
                ) && is_hex_byte(s[i + 5]) {
                    spec_string_skip(s, i + 6)
                } else {
                    None
                }
            } else if spec_escape(s[i + 1]) is Some {
                spec_string_skip(s, i + 2)
            } else {
                None
            }
        } else {
            None
        }
    } else if s[i] < 0x20 {
        None
    } else {
        spec_string_skip(s, i + 1)
    }
}

/// The first position at or after `i` that does not hold a decimal digit.
pub open spec fn spec_digits_end(s: Seq<u8>, i: int) -> int
    decreases s.len() - i,
{
    if 0 <= i < s.len() && 0x30 <= s[i] <= 0x39 {
        spec_digits_end(s, i + 1)
    } else {
        i
    }
}

/// Skipping digits never moves backwards nor past the end.
pub broadcast proof fn lemma_digits_end_bounds(s: Seq<u8>, i: int)
    ensures
        #[trigger] spec_digits_end(s, i) >= i,
        i <= s.len() ==> spec_digits_end(s, i) <= s.len(),
    decreases s.len() - i,
{
    if 0 <= i < s.len() && 0x30 <= s[i] <= 0x39 {
        lemma_digits_end_bounds(s, i + 1);
    }
}

/// The number the digit run `s[i .. j)` stands for.
pub open spec fn dec_nat(s: Seq<u8>, i: int, j: int) -> nat
    decreases j - i,
{
    if i >= j {
        0
    } else {
        dec_nat(s, i, j - 1) * 10 + (if 0x30 <= s[j - 1] <= 0x39 {
            (s[j - 1] - 0x30) as nat
        } else {
            0
        })
    }
}

/// The end of the optional fraction part starting at `j`, or `None` when a
/// decimal point is not followed by a digit.
pub open spec fn spec_frac_end(s: Seq<u8>, j: int) -> Option<int> {
    if 0 <= j < s.len() && s[j] == 0x2e {
        let j2 = spec_digits_end(s, j + 1);
        if j2 == j + 1 {
            None
        } else {
            Some(j2)
        }
    } else {
        Some(j)
    }
}

/// The end of the optional exponent part starting at `k`, or `None` when an
/// exponent marker is not followed by a digit.
pub open spec fn spec_exp_end(s: Seq<u8>, k: int) -> Option<int> {
    if 0 <= k < s.len() && (s[k] == 0x65 || s[k] == 0x45) {
        let k1 = if k + 1 < s.len() && (s[k + 1] == 0x2b || s[k + 1] == 0x2d) {
            k + 2
        } else {
            k + 1
        };
        let m = spec_digits_end(s, k1);
        if m == k1 {
            None
        } else {
            Some(m)
        }
    } else {
        Some(k)
    }
}

/// The end of the number that starts at `i`: an optional minus sign, at
/// least one digit, an optional fraction and an optional exponent; `None`
/// when no well-formed number starts there.
pub open spec fn spec_number_end(s: Seq<u8>, i: int) -> Option<int> {
    let i1 = if 0 <= i < s.len() && s[i] == 0x2d {
        i + 1
    } else {
        i
    };
    let j = spec_digits_end(s, i1);
    if j == i1 {
        None
    } else {
        match spec_frac_end(s, j) {
            Some(k) => spec_exp_end(s, k),
            None => None,
        }
    }
}

/// The end of the value that starts at `i` (no leading whitespace), or
/// `None` when no well-formed value starts there.
pub open spec fn spec_value_end(s: Seq<u8>, i: int) -> Option<int>
    decreases s.len() - i, 0int,
{
    if i < 0 || i >= s.len() {
        None
    } else if s[i] == 0x22 {
        spec_string_skip(s, i + 1)
    } else if s[i] == 0x7b {
        spec_object_rest(s, i + 1, true)
    } else if s[i] == 0x5b {
        spec_array_rest(s, i + 1, true)
    } else if s[i] == 0x74 {
        if i + 4 <= s.len() && s[i + 1] == 0x72 && s[i + 2] == 0x75 && s[i + 3] == 0x65 {
            Some(i + 4)
        } else {
            None
        }
    } else if s[i] == 0x66 {
        if i + 5 <= s.len() && s[i + 1] == 0x61 && s[i + 2] == 0x6c && s[i + 3] == 0x73 && s[i + 4]
            == 0x65 {
            Some(i + 5)
        } else {
            None
        }
    } else if s[i] == 0x6e {
        if i + 4 <= s.len() && s[i + 1] == 0x75 && s[i + 2] == 0x6c && s[i + 3] == 0x6c {
            Some(i + 4)
        } else {
            None
        }
    } else {
        spec_number_end(s, i)
    }
}

/// The end of an object body whose opening brace stands just before `i`:
/// members, each a string key, a colon and a value, separated by commas,
/// closed by a brace. `first` says no member was consumed yet, so an
/// immediate closing brace is accepted.
pub open spec fn spec_object_rest(s: Seq<u8>, i: int, first: bool) -> Option<int>
    decreases s.len() - i, 1int,
{
    let j = spec_ws(s, i);
    if first && j < s.len() && s[j] == 0x7d {
        Some(j + 1)
    } else if j < s.len() && s[j] == 0x22 {
        match spec_string_rest(s, j + 1) {
            Some(kk) => {
                let l = spec_ws(s, kk.1);
                if l < s.len() && s[l] == 0x3a {
                    let w = spec_ws(s, l + 1);
                    if w <= i || w >= s.len() {
                        None
                    } else {
                        match spec_value_end(s, w) {
                            Some(m) => {
                                let p = spec_ws(s, m);
                                if p < s.len() && s[p] == 0x2c {
                                    if p + 1 <= i {
                                        None
                                    } else {
                                        spec_object_rest(s, p + 1, false)
                                    }
                                } else if p < s.len() && s[p] == 0x7d {
                                    Some(p + 1)
                                } else {
                                    None
                                }
                            },
                            None => None,
                        }
                    }
                } else {
                    None
                }
            },
            None => None,
        }
    } else {
        None
    }
}

/// The end of an array body whose opening bracket stands just before `i`:
/// values separated by commas, closed by a bracket.
pub open spec fn spec_array_rest(s: Seq<u8>, i: int, first: bool) -> Option<int>
    decreases s.len() - i, 1int,
{
    let j = spec_ws(s, i);
    if first && j < s.len() && s[j] == 0x5d {
        Some(j + 1)
    } else if j < i {
        None
    } else if j >= s.len() {
        None
    } else {
        match spec_value_end(s, j) {
            Some(m) => {
                let p = spec_ws(s, m);
                if p < s.len() && s[p] == 0x2c {
                    if p + 1 <= i {
                        None
                    } else {
                        spec_array_rest(s, p + 1, false)
                    }
                } else if p < s.len() && s[p] == 0x5d {
                    Some(p + 1)
                } else {
                    None
                }
            },
            None => None,
        }
    }
}

/// The scalar meaning of the value that starts at `i`, for a value whose
/// extent is well formed: `None` for an object, an array, or a number that
/// is negative, fractional, in exponent form or too large to represent.
pub open spec fn spec_scalar_at(s: Seq<u8>, i: int) -> Option<ScalarV> {
    if i < 0 || i >= s.len() {
        None
    } else if s[i] == 0x22 {
        match spec_string_rest(s, i + 1) {
            Some(cj) => Some(ScalarV::Str(cj.0)),
            None => None,
        }
    } else if s[i] == 0x74 {
        Some(ScalarV::Bool(true))
    } else if s[i] == 0x66 {
        Some(ScalarV::Bool(false))
    } else if s[i] == 0x6e {
        Some(ScalarV::Null)
    } else if 0x30 <= s[i] <= 0x39 {
        let j = spec_digits_end(s, i);
        if spec_number_end(s, i) == Some(j) && dec_nat(s, i, j) <= u64::MAX {
            Some(ScalarV::Uint(dec_nat(s, i, j) as u64))
        } else {
            None
        }
    } else {
        None
    }
}

/// The members of an object body whose opening brace stands just before
/// `i`, each key paired with its scalar meaning, and the end position of
/// the body.
pub open spec fn spec_members(s: Seq<u8>, i: int, first: bool) -> Option<
    (Seq<(Seq<u8>, Option<ScalarV>)>, int),
>
    decreases s.len() - i, 1int,
{
    let j = spec_ws(s, i);
    if first && j < s.len() && s[j] == 0x7d {
        Some((Seq::empty(), j + 1))
    } else if j < s.len() && s[j] == 0x22 {
        match spec_string_rest(s, j + 1) {
            Some(kk) => {
                let l = spec_ws(s, kk.1);
                if l < s.len() && s[l] == 0x3a {
                    let w = spec_ws(s, l + 1);
                    if w <= i || w >= s.len() {
                        None
                    } else {
                        match spec_value_end(s, w) {
                            Some(m) => {
                                let field = (kk.0, spec_scalar_at(s, w));
                                let p = spec_ws(s, m);
                                if p < s.len() && s[p] == 0x2c {
                                    if p + 1 <= i {
                                        None
                                    } else {
                                        match spec_members(s, p + 1, false) {
                                            Some(fe) => Some((seq![field] + fe.0, fe.1)),
                                            None => None,
                                        }
                                    }
                                } else if p < s.len() && s[p] == 0x7d {
                                    Some((seq![field], p + 1))
                                } else {
                                    None
                                }
                            },
                            None => None,
                        }
                    }
                } else {
                    None
                }
            },
            None => None,
        }
    } else {
        None
    }
}

/// The members of a JSON document that is one object, with nothing but
/// whitespace around it, or `None` when the document is not of that shape.
pub open spec fn spec_json_fields(s: Seq<u8>) -> Option<Seq<(Seq<u8>, Option<ScalarV>)>> {
    let i = spec_ws(s, 0);
    if 0 <= i < s.len() && s[i] == 0x7b {
        match spec_members(s, i + 1, true) {
            Some(fe) => if spec_ws(s, fe.1) == s.len() {
                Some(fe.0)
            } else {
                None
            },
            None => None,
        }
    } else {
        None
    }
}

/// The first position at or after `i` that does not hold whitespace.
fn ws_to(s: &[u8], i: usize) -> (j: usize)
    requires
        i <= s@.len(),
    ensures
        j as int == spec_ws(s@, i as int),
        i <= j <= s@.len(),
{
    let n = s.len();
    let mut p = i;
    while p < n && (s[p] == 0x20 || s[p] == 0x09 || s[p] == 0x0a || s[p] == 0x0d)
        invariant
            i <= p <= n,
            n == s@.len(),
            spec_ws(s@, i as int) == spec_ws(s@, p as int),
        decreases n - p,
    {
        p += 1;
    }
    p
}

/// The byte an escape character stands for.
fn escape_of(b: u8) -> (r: Option<u8>)
    ensures
        r == spec_escape(b),
{
    if b == 0x22 {
        Some(0x22)
    } else if b == 0x5c {
        Some(0x5c)
    } else if b == 0x2f {
        Some(0x2f)
    } else if b == 0x62 {
        Some(8)
    } else if b == 0x66 {
        Some(12)
    } else if b == 0x6e {
        Some(10)
    } else if b == 0x72 {
        Some(13)
    } else if b == 0x74 {
        Some(9)
    } else {
        None
    }
}

/// Scans a string body from just after its opening quote and decodes it.
fn scan_string(s: &[u8], i: usize) -> (r: Option<(Vec<u8>, usize)>)
    requires
        i <= s@.len(),
    ensures
        r matches Some(cj) ==> spec_string_rest(s@, i as int) == Some((cj.0@, cj.1 as int)) && i
            < cj.1 <= s@.len(),
        r is None <==> spec_string_rest(s@, i as int) is None,
{
    let n = s.len();
    let mut out: Vec<u8> = Vec::new();
    let mut p = i;
    proof {
        if spec_string_rest(s@, i as int) is Some {
            let cj = spec_string_rest(s@, i as int)->Some_0;
            assert(out@ + cj.0 =~= cj.0);
        }
    }
    loop
        invariant
            i <= p <= n,
            n == s@.len(),
            spec_string_rest(s@, i as int) == (match spec_string_rest(s@, p as int) {
                Some(cj) => Some((out@ + cj.0, cj.1)),
                None => None::<(Seq<u8>, int)>,
            }),
        decreases n - p,
    {
        if p >= n {
            return None;
        }
        let b = s[p];
        if b == 0x22 {
            proof {
                assert(out@ + Seq::<u8>::empty() =~= out@);
            }
            return Some((out, p + 1));
        } else if b == 0x5c {
            if p + 1 >= n {
                return None;
            }
            match escape_of(s[p + 1]) {
                Some(d) => {
                    proof {
                        if spec_string_rest(s@, p + 2) is Some {
                            let cj = spec_string_rest(s@, p + 2)->Some_0;
                            assert((out@ + (seq![d] + cj.0)) =~= (out@.push(d) + cj.0));
                        }
                    }
                    out.push(d);
                    p += 2;
                },
                None => {
                    return None;
                },
            }
        } else if b < 0x20 {
            return None;
        } else {
            proof {
                if spec_string_rest(s@, p + 1) is Some {
                    let cj = spec_string_rest(s@, p + 1)->Some_0;
                    assert((out@ + (seq![b] + cj.0)) =~= (out@.push(b) + cj.0));
                }
            }
            out.push(b);
            p += 1;
        }
    }
}

/// The first position at or after `i` that does not hold a decimal digit.
fn digits_to(s: &[u8], i: usize) -> (j: usize)
    requires
        i <= s@.len(),
    ensures
        j as int == spec_digits_end(s@, i as int),
        i <= j <= s@.len(),
        forall|t: int| i <= t < j ==> 0x30 <= #[trigger] s@[t] <= 0x39,
{
    let n = s.len();
    let mut p = i;
    while p < n && 0x30 <= s[p] && s[p] <= 0x39
        invariant
            i <= p <= n,
            n == s@.len(),
            spec_digits_end(s@, i as int) == spec_digits_end(s@, p as int),
            forall|t: int| i <= t < p ==> 0x30 <= #[trigger] s@[t] <= 0x39,
        decreases n - p,
    {
        p += 1;
    }
    p
}

/// Scans past the number that starts at `i`.
fn skip_number(s: &[u8], i: usize) -> (r: Option<usize>)
    requires
        i <= s@.len(),
    ensures
        spec_number_end(s@, i as int) == (match r {
            Some(j) => Some(j as int),
            None => None::<int>,
        }),
        r matches Some(j) ==> i < j <= s@.len(),
{
    let n = s.len();
    let i1 = if i < n && s[i] == 0x2d {
        i + 1
    } else {
        i
    };
    let j = digits_to(s, i1);
    if j == i1 {
        return None;
    }
    let k = if j < n && s[j] == 0x2e {
        let j2 = digits_to(s, j + 1);
        if j2 == j + 1 {
            return None;
        }
        j2
    } else {
        j
    };
    proof {
        assert(spec_frac_end(s@, j as int) == Some(k as int));
    }
    if k < n && (s[k] == 0x65 || s[k] == 0x45) {
        let k1 = if k + 1 < n && (s[k + 1] == 0x2b || s[k + 1] == 0x2d) {
            k + 2
        } else {
            k + 1
        };
        let m = digits_to(s, k1);
        if m == k1 {
            return None;
        }
        Some(m)
    } else {
        Some(k)
    }
}

/// A digit run that is longer never stands for a smaller number.
proof fn lemma_dec_nat_mono(s: Seq<u8>, i: int, k: int, j: int)
    requires
        k <= j,
    ensures
        dec_nat(s, i, k) <= dec_nat(s, i, j),
    decreases j - k,
{
    if k < j {
        lemma_dec_nat_mono(s, i, k, j - 1);
    }
}

/// The value of the digit run `s[i .. j)`, or `None` when it does not fit.
fn scalar_uint(s: &[u8], i: usize, j: usize) -> (r: Option<u64>)
    requires
        i <= j <= s@.len(),
        forall|t: int| i <= t < j ==> 0x30 <= #[trigger] s@[t] <= 0x39,
    ensures
        r matches Some(v) ==> dec_nat(s@, i as int, j as int) == v as nat,
        r is None <==> dec_nat(s@, i as int, j as int) > u64::MAX,
{
    let mut acc: u64 = 0;
    let mut k = i;
    while k < j
        invariant
            i <= k <= j <= s@.len(),
            forall|t: int| i <= t < j ==> 0x30 <= #[trigger] s@[t] <= 0x39,
            acc == dec_nat(s@, i as int, k as int),
        decreases j - k,
    {
        let d = s[k] - 0x30;
        if acc > 1844674407370955161 || (acc == 1844674407370955161 && d > 5) {
            proof {
                assert(dec_nat(s@, i as int, k + 1) == acc * 10 + d);
                lemma_dec_nat_mono(s@, i as int, k + 1, j as int);
            }
            return None;
        }
        acc = acc * 10 + (d as u64);
        k += 1;
    }
    Some(acc)
}

/// The scalar meaning of the value that starts at `i`.
fn scalar_at(s: &[u8], i: usize) -> (r: Option<JsonScalar>)
    requires
        i <= s@.len(),
    ensures
        spec_scalar_at(s@, i as int) == (match r {
            Some(v) => Some(v@),
            None => None::<ScalarV>,
        }),
{
    let n = s.len();
    if i >= n {
        return None;
    }
    let b = s[i];
    if b == 0x22 {
        match scan_string(s, i + 1) {
            Some((c, _)) => Some(JsonScalar::Str(c)),
            None => None,
        }
    } else if b == 0x74 {
        Some(JsonScalar::Bool(true))
    } else if b == 0x66 {
        Some(JsonScalar::Bool(false))
    } else if b == 0x6e {
        Some(JsonScalar::Null)
    } else if 0x30 <= b && b <= 0x39 {
        let j = digits_to(s, i);
        let same = match skip_number(s, i) {
            Some(m) => m == j,
            None => false,
        };
        if !same {
            return None;
        }
        match scalar_uint(s, i, j) {
            Some(v) => Some(JsonScalar::Uint(v)),
            None => None,
        }
    } else {
        None
    }
}

/// Scans past a string body from just after its opening quote, without
/// decoding it.
fn scan_string_skip(s: &[u8], i: usize) -> (r: Option<usize>)
    requires
        i <= s@.len(),
    ensures
        spec_string_skip(s@, i as int) == (match r {
            Some(j) => Some(j as int),
            None => None::<int>,
        }),
        r matches Some(j) ==> i < j <= s@.len(),
{
    let n = s.len();
    let mut p = i;
    loop
        invariant
            i <= p <= n,
            n == s@.len(),
            spec_string_skip(s@, i as int) == spec_string_skip(s@, p as int),
        decreases n - p,
    {
        if p >= n {
            return None;
        }
        let b = s[p];
        if b == 0x22 {
            return Some(p + 1);
        } else if b == 0x5c {
            if p + 1 >= n {
                return None;
            }
            let e = s[p + 1];
            if e == 0x75 {
                if n - p >= 6 && hex_digit_byte(s[p + 2]) && hex_digit_byte(s[p + 3])
                    && hex_digit_byte(s[p + 4]) && hex_digit_byte(s[p + 5]) {
                    p += 6;
                } else {
                    return None;
                }
            } else {
                match escape_of(e) {
                    Some(_) => {
                        p += 2;
                    },
                    None => {
                        return None;
                    },
                }
            }
        } else if b < 0x20 {
            return None;
        } else {
            p += 1;
        }
    }
}

/// True for an ASCII byte that stands for a hexadecimal digit.
fn hex_digit_byte(b: u8) -> (r: bool)
    ensures
        r == is_hex_byte(b),
{
    (0x30 <= b && b <= 0x39) || (0x41 <= b && b <= 0x46) || (0x61 <= b && b <= 0x66)
}

/// Scans past the value that starts at `i` (no leading whitespace).
fn skip_value(s: &[u8], i: usize) -> (r: Option<usize>)
    requires
        i <= s@.len(),
    ensures
        spec_value_end(s@, i as int) == (match r {
            Some(j) => Some(j as int),
            None => None::<int>,
        }),
        r matches Some(j) ==> i < j <= s@.len(),
    decreases s@.len() - i, 0int,
{
    let n = s.len();
    if i >= n {
        return None;
    }
    let b = s[i];
    if b == 0x22 {
        scan_string_skip(s, i + 1)
    } else if b == 0x7b {
        skip_object_rest(s, i + 1, true)
    } else if b == 0x5b {
        skip_array_rest(s, i + 1, true)
    } else if b == 0x74 {
        if n - i >= 4 && s[i + 1] == 0x72 && s[i + 2] == 0x75 && s[i + 3] == 0x65 {
            Some(i + 4)
        } else {
            None
        }
    } else if b == 0x66 {
        if n - i >= 5 && s[i + 1] == 0x61 && s[i + 2] == 0x6c && s[i + 3] == 0x73 && s[i + 4]
            == 0x65 {
            Some(i + 5)
        } else {
            None
        }
    } else if b == 0x6e {
        if n - i >= 4 && s[i + 1] == 0x75 && s[i + 2] == 0x6c && s[i + 3] == 0x6c {
            Some(i + 4)
        } else {
            None
        }
    } else {
        skip_number(s, i)
    }
}

/// Scans past an object body whose opening brace stands just before `i`.
fn skip_object_rest(s: &[u8], i: usize, first: bool) -> (r: Option<usize>)
    requires
        i <= s@.len(),
    ensures
        spec_object_rest(s@, i as int, first) == (match r {
            Some(j) => Some(j as int),
            None => None::<int>,
        }),
        r matches Some(j) ==> i < j <= s@.len(),
    decreases s@.len() - i, 1int,
{
    let n = s.len();
    let mut cur = i;
    let mut curfirst = first;
    loop
        invariant
            i <= cur <= n,
            n == s@.len(),
            spec_object_rest(s@, i as int, first) == spec_object_rest(s@, cur as int, curfirst),
        decreases n - cur,
    {
        let j = ws_to(s, cur);
        if curfirst && j < n && s[j] == 0x7d {
            return Some(j + 1);
        }
        if !(j < n && s[j] == 0x22) {
            return None;
        }
        match scan_string(s, j + 1) {
            None => {
                return None;
            },
            Some((_, k)) => {
                let l = ws_to(s, k);
                if !(l < n && s[l] == 0x3a) {
                    return None;
                }
                let w = ws_to(s, l + 1);
                if w <= cur || w >= n {
                    return None;
                }
                match skip_value(s, w) {
                    None => {
                        return None;
                    },
                    Some(m) => {
                        let p = ws_to(s, m);
                        if p < n && s[p] == 0x2c {
                            if p + 1 <= cur {
                                return None;
                            }
                            cur = p + 1;
                            curfirst = false;
                        } else if p < n && s[p] == 0x7d {
                            return Some(p + 1);
                        } else {
                            return None;
                        }
                    },
                }
            },
        }
    }
}

/// Scans past an array body whose opening bracket stands just before `i`.
fn skip_array_rest(s: &[u8], i: usize, first: bool) -> (r: Option<usize>)
    requires
        i <= s@.len(),
    ensures
        spec_array_rest(s@, i as int, first) == (match r {
            Some(j) => Some(j as int),
            None => None::<int>,
        }),
        r matches Some(j) ==> i < j <= s@.len(),
    decreases s@.len() - i, 1int,
{
    let n = s.len();
    let mut cur = i;
    let mut curfirst = first;
    loop
        invariant
            i <= cur <= n,
            n == s@.len(),
            spec_array_rest(s@, i as int, first) == spec_array_rest(s@, cur as int, curfirst),
        decreases n - cur,
    {
        let j = ws_to(s, cur);
        if curfirst && j < n && s[j] == 0x5d {
            return Some(j + 1);
        }
        if j >= n {
            return None;
        }
        match skip_value(s, j) {
            None => {
                return None;
            },
            Some(m) => {
                let p = ws_to(s, m);
                if p < n && s[p] == 0x2c {
                    if p + 1 <= cur {
                        return None;
                    }
                    cur = p + 1;
                    curfirst = false;
                } else if p < n && s[p] == 0x5d {
                    return Some(p + 1);
                } else {
                    return None;
                }
            },
        }
    }
}

/// The value of the first member with the given key: `None` when no member
/// has the key, `Some(v)` when one does, `v` itself `None` when that value
/// was skipped.
pub open spec fn spec_field_lookup(fields: Seq<(Seq<u8>, Option<ScalarV>)>, key: Seq<u8>) -> Option<
    Option<ScalarV>,
>
    decreases fields.len(),
{
    if fields.len() == 0 {
        None
    } else if fields[0].0 == key {
        Some(fields[0].1)
    } else {
        spec_field_lookup(fields.drop_first(), key)
    }
}


/// Parses the members of the top-level object, from just after its opening
/// brace.
fn parse_members(s: &[u8], i: usize) -> (r: Option<(Vec<JsonField>, usize)>)
    requires
        i <= s@.len(),
    ensures
        r matches Some(fj) ==> spec_members(s@, i as int, true) == Some(
            (fj.0@.map_values(|f: JsonField| f@), fj.1 as int),
        ) && i < fj.1 <= s@.len(),
        r is None <==> spec_members(s@, i as int, true) is None,
{
    let n = s.len();
    let mut fields: Vec<JsonField> = Vec::new();
    let mut cur = i;
    let mut curfirst = true;
    proof {
        if spec_members(s@, i as int, true) is Some {
            let fe = spec_members(s@, i as int, true)->Some_0;
            assert(fields@.map_values(|f: JsonField| f@) + fe.0 =~= fe.0);
        }
    }
    loop
        invariant
            i <= cur <= n,
            n == s@.len(),
            spec_members(s@, i as int, true) == (match spec_members(s@, cur as int, curfirst) {
                Some(fe) => Some((fields@.map_values(|f: JsonField| f@) + fe.0, fe.1)),
                None => None::<(Seq<(Seq<u8>, Option<ScalarV>)>, int)>,
            }),
        decreases n - cur,
    {
        let j = ws_to(s, cur);
        if curfirst && j < n && s[j] == 0x7d {
            proof {
                assert(fields@.map_values(|f: JsonField| f@) + Seq::<
                    (Seq<u8>, Option<ScalarV>),
                >::empty() =~= fields@.map_values(|f: JsonField| f@));
            }
            return Some((fields, j + 1));
        }
        if !(j < n && s[j] == 0x22) {
            return None;
        }
        match scan_string(s, j + 1) {
            None => {
                return None;
            },
            Some((key, k)) => {
                let l = ws_to(s, k);
                if !(l < n && s[l] == 0x3a) {
                    return None;
                }
                let w = ws_to(s, l + 1);
                if w <= cur || w >= n {
                    return None;
                }
                match skip_value(s, w) {
                    None => {
                        return None;
                    },
                    Some(m) => {
                        let value = scalar_at(s, w);
                        let ghost keyv = key@;
                        let field = JsonField { key, value };
                        proof {
                            assert(field@ == (keyv, spec_scalar_at(s@, w as int)));
                        }
                        let p = ws_to(s, m);
                        if p < n && s[p] == 0x2c {
                            if p + 1 <= cur {
                                return None;
                            }
                            proof {
                                let prev = fields@.map_values(|f: JsonField| f@);
                                if spec_members(s@, p + 1, false) is Some {
                                    let fe = spec_members(s@, p + 1, false)->Some_0;
                                    assert(prev + (seq![field@] + fe.0) =~= (prev + seq![field@])
                                        + fe.0);
                                }
                                assert(fields@.push(field).map_values(|f: JsonField| f@) =~= prev
                                    + seq![field@]);
                            }
                            fields.push(field);
                            cur = p + 1;
                            curfirst = false;
                        } else if p < n && s[p] == 0x7d {
                            proof {
                                let prev = fields@.map_values(|f: JsonField| f@);
                                assert(fields@.push(field).map_values(|f: JsonField| f@) =~= prev
                                    + seq![field@]);
                            }
                            fields.push(field);
                            return Some((fields, p + 1));
                        } else {
                            return None;
                        }
                    },
                }
            },
        }
    }
}

/// Parses a JSON document that is one object of members, with nothing but
/// whitespace around it; `None` when the document is not of that shape.
pub fn parse_json_fields(s: &[u8]) -> (r: Option<Vec<JsonField>>)
    ensures
        r matches Some(fs) ==> spec_json_fields(s@) == Some(fs@.map_values(|f: JsonField| f@)),
        r is None <==> spec_json_fields(s@) is None,
{
    let n = s.len();
    let i = ws_to(s, 0);
    if !(i < n && s[i] == 0x7b) {
        return None;
    }
    match parse_members(s, i + 1) {
        None => None,
        Some((fields, j)) => {
            let e = ws_to(s, j);
            if e == n {
                Some(fields)
            } else {
                None
            }
        },
    }
}

/// True when two byte strings hold the same bytes.
pub fn bytes_eq(a: &[u8], b: &[u8]) -> (r: bool)
    ensures
        r == (a@ == b@),
{
    if a.len() != b.len() {
        proof {
            assert(a@.len() != b@.len());
        }
        return false;
    }
    let n = a.len();
    let mut i: usize = 0;
    while i < n
        invariant
            i <= n,
            n == a@.len() == b@.len(),
            forall|j: int| 0 <= j < i ==> a@[j] == b@[j],
        decreases n - i,
    {
        if a[i] != b[i] {
            return false;
        }
        i += 1;
    }
    proof {
        assert(a@ =~= b@);
    }
    true
}

/// The position of the first member with the given key, when one exists.
pub fn find_field(fields: &Vec<JsonField>, key: &[u8]) -> (r: Option<usize>)
    ensures
        r matches Some(idx) ==> idx < fields@.len() && fields@[idx as int]@.0 == key@
            && spec_field_lookup(fields@.map_values(|f: JsonField| f@), key@) == Some(
            fields@[idx as int]@.1,
        ),
        r is None <==> spec_field_lookup(fields@.map_values(|f: JsonField| f@), key@) is None,
{
    let n = fields.len();
    let ghost all = fields@.map_values(|f: JsonField| f@);
    let mut i: usize = 0;
    proof {
        assert(all.skip(0) =~= all);
    }
    while i < n
        invariant
            i <= n,
            n == fields@.len(),
            all == fields@.map_values(|f: JsonField| f@),
            spec_field_lookup(all, key@) == spec_field_lookup(all.skip(i as int), key@),
        decreases n - i,
    {
        proof {
            assert(all.skip(i as int).len() == n - i);
            assert(all.skip(i as int)[0] == all[i as int]);
            assert(all.skip(i as int).drop_first() =~= all.skip(i + 1));
        }
        if bytes_eq(fields[i].key.as_slice(), key) {
            return Some(i);
        }
        i += 1;
    }
    proof {
        assert(all.skip(n as int) =~= Seq::<(Seq<u8>, Option<ScalarV>)>::empty());
    }
    None
}

} // verus!
