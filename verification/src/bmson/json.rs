//! JSON text read into values. Strings are kept as written between their quotes (escapes
//! are checked, not decoded); numbers as `i64` where they are integers of that range, else
//! as their text. White space is Unicode white space, commas may trail, and members of an
//! object are kept in order (a later member wins over an earlier one of the same name). A
//! member that follows another without a comma, and an array or object left open at the end
//! of the text, are read all the same and reported.
use crate::text::{
    chars_of, is_digit, is_whitespace, lemma_ws_bounds, parse_i64, skip_ws, slice_range, string_of, trim,
    trimmed,
};
use vstd::prelude::*;

verus! {

/// A JSON value as a mathematical object.
pub enum JsonV {
    /// `null`.
    Null,
    /// `true` or `false`.
    Bool(bool),
    /// A string, as written between its quotes.
    Str(Seq<char>),
    /// An integer of the range of `i64`.
    Int(i64),
    /// Any other number, as written.
    Float(Seq<char>),
    /// An array.
    Array(Seq<JsonV>),
    /// An object: its members in order.
    Object(Seq<(Seq<char>, JsonV)>),
}

/// A JSON value.
#[derive(Debug)]
pub enum Json {
    /// `null`.
    Null,
    /// `true` or `false`.
    Bool(bool),
    /// A string, as written between its quotes.
    Str(String),
    /// An integer of the range of `i64`.
    Int(i64),
    /// Any other number, as written.
    Float(String),
    /// An array.
    Array(Vec<Json>),
    /// An object: its members in order.
    Object(Vec<(String, Json)>),
}

impl Json {
    /// The value as a mathematical object.
    pub open spec fn deep(self) -> JsonV
        decreases self,
    {
        match self {
            Json::Null => JsonV::Null,
            Json::Bool(b) => JsonV::Bool(b),
            Json::Str(s) => JsonV::Str(s@),
            Json::Int(i) => JsonV::Int(i),
            Json::Float(s) => JsonV::Float(s@),
            Json::Array(v) => JsonV::Array(
                Seq::new(
                    v@.len(),
                    |i: int|
                        if 0 <= i < v@.len() {
                            v@[i].deep()
                        } else {
                            JsonV::Null
                        },
                ),
            ),
            Json::Object(v) => JsonV::Object(
                Seq::new(
                    v@.len(),
                    |i: int|
                        if 0 <= i < v@.len() {
                            (v@[i].0@, v@[i].1.deep())
                        } else {
                            (Seq::empty(), JsonV::Null)
                        },
                ),
            ),
        }
    }
}

/// The values of a vector of JSON values.
pub open spec fn deep_all(v: Seq<Json>) -> Seq<JsonV> {
    Seq::new(v.len(), |i: int| v[i].deep())
}

/// The members of a vector of JSON members.
pub open spec fn deep_members(v: Seq<(String, Json)>) -> Seq<(Seq<char>, JsonV)> {
    Seq::new(v.len(), |i: int| (v[i].0@, v[i].1.deep()))
}

/// Whether a character is a hexadecimal digit.
pub open spec fn is_hex(c: char) -> bool {
    is_digit(c) || ('a' <= c && c <= 'f') || ('A' <= c && c <= 'F')
}

/// The value of a hexadecimal digit.
pub open spec fn hex_val(c: char) -> int {
    if is_digit(c) {
        c as int - '0' as int
    } else if 'a' <= c && c <= 'f' {
        c as int - 'a' as int + 10
    } else {
        c as int - 'A' as int + 10
    }
}

/// Whether the four hexadecimal digits at `i` denote a surrogate, which is no character.
pub open spec fn surrogate_at(s: Seq<char>, i: int) -> bool {
    let v = hex_val(s[i]) * 4096 + hex_val(s[i + 1]) * 256 + hex_val(s[i + 2]) * 16 + hex_val(s[i + 3]);
    0xD800 <= v && v <= 0xDFFF
}

/// A character that may follow a backslash by itself.
pub open spec fn simple_escape(c: char) -> bool {
    c == '\\' || c == '/' || c == '"' || c == 'b' || c == 'f' || c == 'n' || c == 'r' || c == 't'
}

/// The rest of a string from `i` (after its opening quote): the index after the closing
/// quote and the indices of the backslashes of `\u` escapes that denote no character. A
/// backslash takes a simple escape or `u` and four hexadecimal digits.
pub open spec fn string_rest(s: Seq<char>, i: int) -> Option<(int, Seq<int>)>
    decreases s.len() - i,
{
    if i < 0 || i >= s.len() {
        None
    } else if s[i] == '"' {
        Some((i + 1, Seq::empty()))
    } else if s[i] == '\\' {
        if i + 1 < s.len() && simple_escape(s[i + 1]) {
            string_rest(s, i + 2)
        } else if i + 5 < s.len() && s[i + 1] == 'u' && is_hex(s[i + 2]) && is_hex(s[i + 3]) && is_hex(
            s[i + 4],
        ) && is_hex(s[i + 5]) {
            match string_rest(s, i + 6) {
                Some((e, bad)) => Some(
                    (
                        e,
                        if surrogate_at(s, i + 2) {
                            seq![i] + bad
                        } else {
                            bad
                        },
                    ),
                ),
                None => None,
            }
        } else {
            None
        }
    } else {
        string_rest(s, i + 1)
    }
}

/// The index after a run of decimal digits from `i`.
pub open spec fn digits_end(s: Seq<char>, i: int) -> int
    decreases s.len() - i,
{
    if 0 <= i < s.len() && is_digit(s[i]) {
        digits_end(s, i + 1)
    } else {
        i
    }
}

/// The end of a number from `i`: an optional `-`, `0` or digits not starting with `0`, an
/// optional fraction (`.` and digits) and an optional exponent (`e` or `E`, an optional sign
/// and digits); a fraction or exponent without digits is not taken.
pub open spec fn number_end(s: Seq<char>, i: int) -> Option<int> {
    let a = if 0 <= i < s.len() && s[i] == '-' {
        i + 1
    } else {
        i
    };
    if !(0 <= a < s.len() && is_digit(s[a])) {
        None
    } else {
        let b = if s[a] == '0' {
            a + 1
        } else {
            digits_end(s, a)
        };
        let c = if 0 <= b && b + 1 < s.len() && s[b] == '.' && is_digit(s[b + 1]) {
            digits_end(s, b + 1)
        } else {
            b
        };
        let d = if 0 <= c < s.len() && (s[c] == 'e' || s[c] == 'E') {
            let e0 = if c + 1 < s.len() && (s[c + 1] == '+' || s[c + 1] == '-') {
                c + 2
            } else {
                c + 1
            };
            if e0 < s.len() && is_digit(s[e0]) {
                digits_end(s, e0)
            } else {
                c
            }
        } else {
            c
        };
        Some(d)
    }
}

/// The value of the text of a number: an `i64` when it reads as one, else the text.
pub open spec fn number_value(t: Seq<char>) -> JsonV {
    match crate::text::spec_parse_signed(t, i64::MAX as int) {
        Some(v) => JsonV::Int(v as i64),
        None => JsonV::Float(t),
    }
}

/// Whether the four characters from `j` are `w`.
pub open spec fn word4(s: Seq<char>, j: int, w: (char, char, char, char)) -> bool {
    0 <= j && j + 4 <= s.len() && s[j] == w.0 && s[j + 1] == w.1 && s[j + 2] == w.2 && s[j + 3] == w.3
}

/// The index after the closing `c` from `p` (white space before it skipped), with the
/// recovered errors: a text that ends where `c` should stand leaves the array or object open,
/// recovered with an error at the end of the text.
pub open spec fn close_or_end(s: Seq<char>, p: int, c: char) -> Option<(int, Seq<int>)> {
    let q = skip_ws(s, p);
    if p <= q && q < s.len() && s[q] == c {
        Some((q + 1, Seq::empty()))
    } else if p <= q && q == s.len() {
        Some((q, seq![q]))
    } else {
        None
    }
}

/// A value from `i`, with the white space around it: the value, the index after it and the
/// indices of the escapes in it that denote no character.
pub open spec fn value_at(s: Seq<char>, i: int) -> Option<(JsonV, int, Seq<int>)>
    decreases s.len() - i, 0int,
{
    let j = skip_ws(s, i);
    if i < 0 || j < i || j >= s.len() {
        None
    } else {
        let r: Option<(JsonV, int, Seq<int>)> = if word4(s, j, ('n', 'u', 'l', 'l')) {
            Some((JsonV::Null, j + 4, Seq::empty()))
        } else if word4(s, j, ('t', 'r', 'u', 'e')) {
            Some((JsonV::Bool(true), j + 4, Seq::empty()))
        } else if word4(s, j, ('f', 'a', 'l', 's')) && j + 4 < s.len() && s[j + 4] == 'e' {
            Some((JsonV::Bool(false), j + 5, Seq::empty()))
        } else if s[j] == '-' || is_digit(s[j]) {
            match number_end(s, j) {
                Some(e) => if j < e <= s.len() {
                    Some((number_value(s.subrange(j, e)), e, Seq::empty()))
                } else {
                    None
                },
                None => None,
            }
        } else if s[j] == '"' {
            match string_rest(s, j + 1) {
                Some((e, bad)) => if j + 1 < e <= s.len() {
                    Some((JsonV::Str(s.subrange(j + 1, e - 1)), e, bad))
                } else {
                    None
                },
                None => None,
            }
        } else if s[j] == '[' {
            match items_at(s, j + 1) {
                Some((vs, e, bad)) => Some((JsonV::Array(vs), e, bad)),
                None => None,
            }
        } else if s[j] == '{' {
            match members_at(s, j + 1) {
                Some((ms, e, bad)) => Some((JsonV::Object(ms), e, bad)),
                None => None,
            }
        } else {
            None
        };
        match r {
            Some((v, e, bad)) => Some((v, skip_ws(s, e), bad)),
            None => None,
        }
    }
}

/// The elements of an array from `p` and the index after its `]`: values separated by
/// commas, a comma possibly trailing; an array left open at the end of the text is
/// recovered.
pub open spec fn items_at(s: Seq<char>, p: int) -> Option<(Seq<JsonV>, int, Seq<int>)>
    decreases s.len() - p, 1int,
{
    if p < 0 {
        None
    } else {
        match value_at(s, p) {
            None => match close_or_end(s, p, ']') {
                Some((end, b)) => Some((Seq::empty(), end, b)),
                None => None,
            },
            Some((v, e, bad)) => if e <= p {
                None
            } else if e < s.len() && s[e] == ',' {
                match items_at(s, e + 1) {
                    Some((vs, end, bad2)) => Some((seq![v] + vs, end, bad + bad2)),
                    None => None,
                }
            } else {
                match close_or_end(s, e, ']') {
                    Some((end, b2)) => Some((seq![v], end, bad + b2)),
                    None => None,
                }
            },
        }
    }
}

/// A member of an object from `q`: its name (a string), `:` with white space around, and
/// its value; the name, the value, the index after it and the bad escapes in it.
pub open spec fn member_at(s: Seq<char>, q: int) -> Option<(Seq<char>, JsonV, int, Seq<int>)>
    decreases s.len() - q, 1int,
{
    if 0 <= q < s.len() && s[q] == '"' {
        match string_rest(s, q + 1) {
            Some((ke, kbad)) => {
                let c = skip_ws(s, ke);
                if q + 1 < ke <= c && c < s.len() && s[c] == ':' {
                    match value_at(s, c + 1) {
                        Some((v, e, vbad)) => Some((s.subrange(q + 1, ke - 1), v, e, kbad + vbad)),
                        None => None,
                    }
                } else {
                    None
                }
            },
            None => None,
        }
    } else {
        None
    }
}

/// The members of an object from `p` and the index after its `}`: members separated by
/// commas, a comma possibly trailing. A member that follows another without a comma is
/// recovered, with an error at its opening quote; an object left open at the end of the text
/// is recovered.
pub open spec fn members_at(s: Seq<char>, p: int) -> Option<(Seq<(Seq<char>, JsonV)>, int, Seq<int>)>
    decreases s.len() - p, 2int,
{
    let q = skip_ws(s, p);
    if p < 0 || q < p || q > s.len() {
        None
    } else {
        match member_at(s, q) {
            None => match close_or_end(s, p, '}') {
                Some((end, b)) => Some((Seq::empty(), end, b)),
                None => None,
            },
            Some((k, v, e, bad)) => if e <= p {
                None
            } else if e < s.len() && s[e] == ',' {
                match members_at(s, e + 1) {
                    Some((ms, end, bad2)) => Some((seq![(k, v)] + ms, end, bad + bad2)),
                    None => None,
                }
            } else {
                match close_or_end(s, e, '}') {
                    Some((end, b2)) => Some((seq![(k, v)], end, bad + b2)),
                    None => if e <= s.len() && member_at(s, e) is Some {
                        match members_at(s, e) {
                            Some((ms, end, b2)) => Some((seq![(k, v)] + ms, end, bad + seq![e] + b2)),
                            None => None,
                        }
                    } else {
                        None
                    },
                }
            },
        }
    }
}

/// The value of an array is the values of its elements.
proof fn lemma_deep_array(v: Vec<Json>)
    ensures
        Json::Array(v).deep() == JsonV::Array(deep_all(v@)),
{
    let d = Json::Array(v).deep();
    if let JsonV::Array(x) = d {
        assert(x =~= deep_all(v@));
    }
}

/// The value of an object is the values of its members.
proof fn lemma_deep_object(v: Vec<(String, Json)>)
    ensures
        Json::Object(v).deep() == JsonV::Object(deep_members(v@)),
{
    let d = Json::Object(v).deep();
    if let JsonV::Object(x) = d {
        assert(x =~= deep_members(v@));
    }
}

/// The indices as integers.
pub open spec fn ints(v: Seq<usize>) -> Seq<int> {
    v.map_values(|x: usize| x as int)
}

/// Computes `skip_ws`.
fn ws_end(s: &[char], i: usize) -> (r: usize)
    requires
        i <= s@.len(),
    ensures
        r == skip_ws(s@, i as int),
        i <= r <= s@.len(),
{
    proof {
        lemma_ws_bounds(s@, i as int);
    }
    let mut j = i;
    while j < s.len() && is_whitespace(s[j])
        invariant
            i <= j <= s@.len(),
            skip_ws(s@, i as int) == skip_ws(s@, j as int),
        decreases s@.len() - j,
    {
        j += 1;
    }
    j
}

/// Computes `digits_end`.
fn digits_end_x(s: &[char], i: usize) -> (r: usize)
    requires
        i <= s@.len(),
    ensures
        r == digits_end(s@, i as int),
        i <= r <= s@.len(),
        i < s@.len() && is_digit(s@[i as int]) ==> i < r,
{
    let mut j = i;
    while j < s.len() && '0' <= s[j] && s[j] <= '9'
        invariant
            i <= j <= s@.len(),
            digits_end(s@, i as int) == digits_end(s@, j as int),
        decreases s@.len() - j,
    {
        j += 1;
    }
    j
}

/// Computes `number_end`.
fn number_end_x(s: &[char], i: usize) -> (r: Option<usize>)
    requires
        i <= s@.len(),
    ensures
        match number_end(s@, i as int) {
            Some(e) => r == Some(e as usize) && i < e <= s@.len(),
            None => r is None,
        },
{
    let n = s.len();
    let a = if i < n && s[i] == '-' {
        i + 1
    } else {
        i
    };
    if !(a < n && '0' <= s[a] && s[a] <= '9') {
        return None;
    }
    let b = if s[a] == '0' {
        a + 1
    } else {
        digits_end_x(s, a)
    };
    let c = if b < n && n - b > 1 && s[b] == '.' && '0' <= s[b + 1] && s[b + 1] <= '9' {
        digits_end_x(s, b + 1)
    } else {
        b
    };
    let d = if c < n && (s[c] == 'e' || s[c] == 'E') {
        let e0 = if c + 1 < n && (s[c + 1] == '+' || s[c + 1] == '-') {
            c + 2
        } else {
            c + 1
        };
        if e0 < n && '0' <= s[e0] && s[e0] <= '9' {
            digits_end_x(s, e0)
        } else {
            c
        }
    } else {
        c
    };
    Some(d)
}

/// Whether a character is a hexadecimal digit.
fn hex_char(c: char) -> (r: bool)
    ensures
        r == is_hex(c),
{
    ('0' <= c && c <= '9') || ('a' <= c && c <= 'f') || ('A' <= c && c <= 'F')
}

/// The value of a hexadecimal digit.
fn hex_digit(c: char) -> (r: u32)
    requires
        is_hex(c),
    ensures
        r == hex_val(c),
        r < 16,
{
    if '0' <= c && c <= '9' {
        (c as u32) - ('0' as u32)
    } else if 'a' <= c && c <= 'f' {
        (c as u32) - ('a' as u32) + 10
    } else {
        (c as u32) - ('A' as u32) + 10
    }
}

/// Computes `string_rest`.
fn string_rest_x(s: &[char], i: usize) -> (r: Option<(usize, Vec<usize>)>)
    requires
        i <= s@.len(),
    ensures
        match string_rest(s@, i as int) {
            Some((e, bad)) => r matches Some((e2, b2)) && e2 == e && ints(b2@) == bad && i < e2 <= s@.len(),
            None => r is None,
        },
{
    let n = s.len();
    let mut bad: Vec<usize> = Vec::new();
    let mut j = i;
    loop
        invariant
            i <= j <= n,
            n == s@.len(),
            match string_rest(s@, j as int) {
                Some((e, b)) => string_rest(s@, i as int) == Some((e, ints(bad@) + b)),
                None => string_rest(s@, i as int) is None,
            },
        decreases n - j,
    {
        if j >= n {
            return None;
        }
        let c = s[j];
        if c == '"' {
            assert(ints(bad@) + Seq::<int>::empty() =~= ints(bad@));
            return Some((j + 1, bad));
        } else if c == '\\' {
            if j + 1 < n && (s[j + 1] == '\\' || s[j + 1] == '/' || s[j + 1] == '"' || s[j + 1] == 'b'
                || s[j + 1] == 'f' || s[j + 1] == 'n' || s[j + 1] == 'r' || s[j + 1] == 't') {
                j = j + 2;
            } else if n - j > 5 && s[j + 1] == 'u' && hex_char(s[j + 2]) && hex_char(s[j + 3]) && hex_char(
                s[j + 4],
            ) && hex_char(s[j + 5]) {
                let v = hex_digit(s[j + 2]) * 4096 + hex_digit(s[j + 3]) * 256 + hex_digit(s[j + 4]) * 16
                    + hex_digit(s[j + 5]);
                if 0xD800 <= v && v <= 0xDFFF {
                    let ghost before = ints(bad@);
                    bad.push(j);
                    proof {
                        assert(ints(bad@) =~= before.push(j as int));
                        assert forall|b: Seq<int>| #[trigger] (before + (seq![j as int] + b)) == ints(bad@) + b by {
                            assert(before + (seq![j as int] + b) =~= ints(bad@) + b);
                        }
                    }
                }
                j = j + 6;
            } else {
                return None;
            }
        } else {
            j = j + 1;
        }
    }
}

/// Computes `close_or_end`.
fn close_or_end_x(s: &[char], p: usize, c: char) -> (r: Option<(usize, Vec<usize>)>)
    requires
        p <= s@.len(),
    ensures
        match close_or_end(s@, p as int, c) {
            Some((e, b)) => r matches Some((e2, b2)) && e2 == e && ints(b2@) == b && e <= s@.len(),
            None => r is None,
        },
{
    let q = ws_end(s, p);
    if q < s.len() && s[q] == c {
        let v: Vec<usize> = Vec::new();
        assert(ints(v@) =~= Seq::<int>::empty());
        Some((q + 1, v))
    } else if q == s.len() {
        let v = vec![q];
        assert(ints(v@) =~= seq![q as int]);
        Some((q, v))
    } else {
        None
    }
}

/// Reads a member of an object from `q`: its name, `:` and its value.
fn member_x(s: &[char], q: usize) -> (r: Option<(String, Json, usize, Vec<usize>)>)
    requires
        q <= s@.len(),
    ensures
        match member_at(s@, q as int) {
            Some((k, v, e, b)) => r matches Some((k2, v2, e2, b2)) && k2@ == k && v2.deep() == v && e2 == e
                && ints(b2@) == b && e2 <= s@.len(),
            None => r is None,
        },
    decreases s@.len() - q, 1int,
{
    let n = s.len();
    let mut member: Option<(String, Json, usize, Vec<usize>)> = None;
    if q < n && s[q] == '"' {
        match string_rest_x(s, q + 1) {
            Some((ke, mut kbad)) => {
                let c = ws_end(s, ke);
                if c < n && s[c] == ':' {
                    match value_x(s, c + 1) {
                        Some((v, e, mut vbad)) => {
                            let key = string_of(slice_range(s, q + 1, ke - 1).as_slice());
                            let ghost kb = ints(kbad@);
                            let ghost vb = ints(vbad@);
                            kbad.append(&mut vbad);
                            assert(ints(kbad@) =~= kb + vb);
                            member = Some((key, v, e, kbad));
                        },
                        None => {},
                    }
                }
            },
            None => {},
        }
    }
    member
}

/// Reads a value from `i`, with the white space around it.
fn value_x(s: &[char], i: usize) -> (r: Option<(Json, usize, Vec<usize>)>)
    requires
        i <= s@.len(),
    ensures
        match value_at(s@, i as int) {
            Some((v, e, bad)) => r matches Some((j, e2, b2)) && j.deep() == v && e2 == e && ints(b2@)
                == bad && e2 <= s@.len(),
            None => r is None,
        },
    decreases s@.len() - i, 0int,
{
    let n = s.len();
    let j = ws_end(s, i);
    if j >= n {
        return None;
    }
    let r: Option<(Json, usize, Vec<usize>)> = if n - j >= 4 && s[j] == 'n' && s[j + 1] == 'u' && s[j + 2]
        == 'l' && s[j + 3] == 'l' {
        Some((Json::Null, j + 4, Vec::new()))
    } else if n - j >= 4 && s[j] == 't' && s[j + 1] == 'r' && s[j + 2] == 'u' && s[j + 3] == 'e' {
        Some((Json::Bool(true), j + 4, Vec::new()))
    } else if n - j >= 4 && s[j] == 'f' && s[j + 1] == 'a' && s[j + 2] == 'l' && s[j + 3] == 's' && n - j > 4
        && s[j + 4] == 'e' {
        Some((Json::Bool(false), j + 5, Vec::new()))
    } else if s[j] == '-' || ('0' <= s[j] && s[j] <= '9') {
        match number_end_x(s, j) {
            Some(e) => {
                let t = string_of(slice_range(s, j, e).as_slice());
                let v = match parse_i64(t.as_str()) {
                    Some(x) => Json::Int(x),
                    None => Json::Float(t),
                };
                Some((v, e, Vec::new()))
            },
            None => None,
        }
    } else if s[j] == '"' {
        match string_rest_x(s, j + 1) {
            Some((e, bad)) => {
                let t = string_of(slice_range(s, j + 1, e - 1).as_slice());
                Some((Json::Str(t), e, bad))
            },
            None => None,
        }
    } else if s[j] == '[' {
        match items_x(s, j + 1) {
            Some((vs, e, bad)) => {
                proof {
                    lemma_deep_array(vs);
                }
                Some((Json::Array(vs), e, bad))
            },
            None => None,
        }
    } else if s[j] == '{' {
        match members_x(s, j + 1) {
            Some((ms, e, bad)) => {
                proof {
                    lemma_deep_object(ms);
                }
                Some((Json::Object(ms), e, bad))
            },
            None => None,
        }
    } else {
        None
    };
    match r {
        Some((v, e, bad)) => {
            let k = ws_end(s, e);
            Some((v, k, bad))
        },
        None => None,
    }
}

/// Reads the elements of an array from `p`, and its `]`.
#[verifier::spinoff_prover]
#[verifier::rlimit(40)]
fn items_x(s: &[char], p: usize) -> (r: Option<(Vec<Json>, usize, Vec<usize>)>)
    requires
        p <= s@.len(),
    ensures
        match items_at(s@, p as int) {
            Some((vs, e, bad)) => r matches Some((v2, e2, b2)) && deep_all(v2@) == vs && e2 == e && ints(
                b2@,
            ) == bad && e2 <= s@.len(),
            None => r is None,
        },
    decreases s@.len() - p, 1int,
{
    let n = s.len();
    let mut acc: Vec<Json> = Vec::new();
    let mut bad: Vec<usize> = Vec::new();
    let mut cur = p;
    loop
        invariant
            p <= cur <= n,
            n == s@.len(),
            match items_at(s@, cur as int) {
                Some((vs, e, b)) => items_at(s@, p as int) == Some((deep_all(acc@) + vs, e, ints(bad@) + b)),
                None => items_at(s@, p as int) is None,
            },
        decreases n - cur,
    {
        match value_x(s, cur) {
            None => {
                match close_or_end_x(s, cur, ']') {
                    Some((end, mut b)) => {
                        let ghost b0 = ints(bad@);
                        let ghost bb = ints(b@);
                        bad.append(&mut b);
                        assert(deep_all(acc@) + Seq::<JsonV>::empty() =~= deep_all(acc@));
                        assert(ints(bad@) =~= b0 + bb);
                        return Some((acc, end, bad));
                    },
                    None => {
                        return None;
                    },
                }
            },
            Some((v, e, mut b)) => {
                if e <= cur {
                    return None;
                }
                let ghost dv = v.deep();
                let ghost acc0 = deep_all(acc@);
                let ghost bad0 = ints(bad@);
                let ghost bv = ints(b@);
                acc.push(v);
                bad.append(&mut b);
                proof {
                    assert(deep_all(acc@) =~= acc0.push(dv));
                    assert(ints(bad@) =~= bad0 + bv);
                }
                if e < n && s[e] == ',' {
                    proof {
                        assert forall|vs: Seq<JsonV>, bb: Seq<int>|
                            #![trigger acc0 + (seq![dv] + vs), bad0 + (bv + bb)]
                            acc0 + (seq![dv] + vs) == deep_all(acc@) + vs && bad0 + (bv + bb) == ints(
                                bad@,
                            ) + bb by {
                            assert(acc0 + (seq![dv] + vs) =~= deep_all(acc@) + vs);
                            assert(bad0 + (bv + bb) =~= ints(bad@) + bb);
                        }
                    }
                    cur = e + 1;
                } else {
                    match close_or_end_x(s, e, ']') {
                        Some((end, mut b2)) => {
                            let ghost bb2 = ints(b2@);
                            let ghost b1 = ints(bad@);
                            bad.append(&mut b2);
                            assert(acc0 + seq![dv] =~= deep_all(acc@));
                            assert(ints(bad@) =~= b1 + bb2);
                            assert(bad0 + (bv + bb2) =~= ints(bad@));
                            return Some((acc, end, bad));
                        },
                        None => {
                            return None;
                        },
                    }
                }
            },
        }
    }
}

/// Reads the members of an object from `p`, and its `}`.
fn members_x(s: &[char], p: usize) -> (r: Option<(Vec<(String, Json)>, usize, Vec<usize>)>)
    requires
        p <= s@.len(),
    ensures
        match members_at(s@, p as int) {
            Some((ms, e, bad)) => r matches Some((m2, e2, b2)) && deep_members(m2@) == ms && e2 == e
                && ints(b2@) == bad && e2 <= s@.len(),
            None => r is None,
        },
    decreases s@.len() - p, 2int,
{
    let n = s.len();
    let mut acc: Vec<(String, Json)> = Vec::new();
    let mut bad: Vec<usize> = Vec::new();
    let mut cur = p;
    loop
        invariant
            p <= cur <= n,
            n == s@.len(),
            match members_at(s@, cur as int) {
                Some((ms, e, b)) => members_at(s@, p as int) == Some(
                    (deep_members(acc@) + ms, e, ints(bad@) + b),
                ),
                None => members_at(s@, p as int) is None,
            },
        decreases n - cur,
    {
        let q = ws_end(s, cur);
        let member = member_x(s, q);
        match member {
            None => {
                match close_or_end_x(s, cur, '}') {
                    Some((end, mut b)) => {
                        let ghost b0 = ints(bad@);
                        let ghost bb = ints(b@);
                        bad.append(&mut b);
                        assert(deep_members(acc@) + Seq::<(Seq<char>, JsonV)>::empty() =~= deep_members(acc@));
                        assert(ints(bad@) =~= b0 + bb);
                        return Some((acc, end, bad));
                    },
                    None => {
                        return None;
                    },
                }
            },
            Some((k, v, e, mut b)) => {
                if e <= cur {
                    return None;
                }
                let ghost dm = (k@, v.deep());
                let ghost acc0 = deep_members(acc@);
                let ghost bad0 = ints(bad@);
                let ghost bv = ints(b@);
                acc.push((k, v));
                bad.append(&mut b);
                proof {
                    assert(deep_members(acc@) =~= acc0.push(dm));
                    assert(ints(bad@) =~= bad0 + bv);
                }
                if e < n && s[e] == ',' {
                    proof {
                        assert forall|ms: Seq<(Seq<char>, JsonV)>, bb: Seq<int>|
                            #![trigger acc0 + (seq![dm] + ms), bad0 + (bv + bb)]
                            acc0 + (seq![dm] + ms) == deep_members(acc@) + ms && bad0 + (bv + bb)
                                == ints(bad@) + bb by {
                            assert(acc0 + (seq![dm] + ms) =~= deep_members(acc@) + ms);
                            assert(bad0 + (bv + bb) =~= ints(bad@) + bb);
                        }
                    }
                    cur = e + 1;
                } else {
                    match close_or_end_x(s, e, '}') {
                        Some((end, mut b2)) => {
                            let ghost bb2 = ints(b2@);
                            let ghost b1 = ints(bad@);
                            bad.append(&mut b2);
                            assert(acc0 + seq![dm] =~= deep_members(acc@));
                            assert(ints(bad@) =~= b1 + bb2);
                            assert(bad0 + (bv + bb2) =~= ints(bad@));
                            return Some((acc, end, bad));
                        },
                        None => {
                            if member_x(s, e).is_none() {
                                return None;
                            }
                            let ghost b1 = ints(bad@);
                            bad.push(e);
                            proof {
                                assert(ints(bad@) =~= b1.push(e as int));
                                assert forall|ms: Seq<(Seq<char>, JsonV)>, bb: Seq<int>|
                                    #![trigger acc0 + (seq![dm] + ms), bad0 + bv + seq![e as int] + bb]
                                    acc0 + (seq![dm] + ms) == deep_members(acc@) + ms && bad0 + bv + seq![e as int] + bb
                                        == ints(bad@) + bb by {
                                    assert(acc0 + (seq![dm] + ms) =~= deep_members(acc@) + ms);
                                    assert(bad0 + bv + seq![e as int] + bb =~= ints(bad@) + bb);
                                }
                            }
                            cur = e;
                        },
                    }
                }
            },
        }
    }
}

/// A problem found while reading JSON text.
#[derive(Debug, Clone, Copy, PartialEq, Eq, Hash, Structural)]
pub enum JsonError {
    /// The text is no JSON value.
    Syntax,
    /// A `\u` escape at this character index of the trimmed text denotes no character.
    InvalidUnicode(usize),
    /// A member of an object at this character index of the trimmed text follows the one
    /// before it without a comma; it is read all the same.
    MissingComma(usize),
    /// The text ends inside an array or an object, which is closed there.
    Unclosed,
}

/// The value of JSON text (without white space at either end) and the indices of its bad
/// escapes: the text must be one value.
pub open spec fn json_of(t: Seq<char>) -> Option<(JsonV, Seq<int>)> {
    match value_at(t, 0) {
        Some((v, e, bad)) => if e == t.len() {
            Some((v, bad))
        } else {
            None
        },
        None => None,
    }
}

/// The error recorded at the index `i` of the text `t`: the end of the text for an array or
/// object left open, the opening quote of a member that follows another without a comma, or
/// the backslash of a `\u` escape that denotes no character.
pub open spec fn error_at(t: Seq<char>, i: int) -> JsonError {
    if i >= t.len() {
        JsonError::Unclosed
    } else if t[i] == '"' {
        JsonError::MissingComma(i as usize)
    } else {
        JsonError::InvalidUnicode(i as usize)
    }
}

/// The errors recorded at the indices `bad` of the text `t`, in order.
pub open spec fn found_errors(t: Seq<char>, bad: Seq<int>) -> Seq<JsonError> {
    bad.map_values(|i: int| error_at(t, i))
}

/// Classifies the error recorded at `i`, as `error_at` says.
fn error_kind(t: &[char], i: usize) -> (r: JsonError)
    ensures
        r == error_at(t@, i as int),
{
    if i >= t.len() {
        JsonError::Unclosed
    } else if t[i] == '"' {
        JsonError::MissingComma(i)
    } else {
        JsonError::InvalidUnicode(i)
    }
}

/// Reads JSON text, trimmed of white space at either end. It recovers from a member of an
/// object that follows another without a comma and from an array or object left open at the
/// end of the text; the value comes with an error for each recovery and for each `\u` escape
/// that denotes no character, in the order of the text. Any other text gives no value and a
/// syntax error.
pub fn parse_json(src: &str) -> (r: (Option<Json>, Vec<JsonError>))
    ensures
        match json_of(trimmed(src@)) {
            Some((v, bad)) => r.0 matches Some(j) && j.deep() == v && r.1@ == found_errors(trimmed(src@), bad),
            None => r.0 is None && r.1@ == seq![JsonError::Syntax],
        },
{
    let t = trim(src);
    let cs = chars_of(t.as_str());
    match value_x(cs.as_slice(), 0) {
        Some((v, e, bad)) => {
            if e == cs.len() {
                let mut errors: Vec<JsonError> = Vec::new();
                let mut i: usize = 0;
                while i < bad.len()
                    invariant
                        i <= bad@.len(),
                        errors@ == found_errors(cs@, ints(bad@)).take(i as int),
                    decreases bad@.len() - i,
                {
                    errors.push(error_kind(cs.as_slice(), bad[i]));
                    assert(errors@ =~= found_errors(cs@, ints(bad@)).take(i + 1));
                    i += 1;
                }
                assert(errors@ =~= found_errors(cs@, ints(bad@)));
                (Some(v), errors)
            } else {
                (None, vec![JsonError::Syntax])
            }
        },
        None => (None, vec![JsonError::Syntax]),
    }
}

impl Json {
    /// The value of the last member named `key` of an object; none for other values.
    pub fn get(&self, key: &str) -> (r: Option<&Json>)
        ensures
            match *self {
                Json::Object(ms) => match last_member(deep_members(ms@), key@, ms@.len() as int) {
                    Some(i) => r matches Some(v) && v.deep() == deep_members(ms@)[i].1,
                    None => r is None,
                },
                _ => r is None,
            },
    {
        match self {
            Json::Object(ms) => last_member_value(ms, key),
            _ => None,
        }
    }
}

/// The value of the last member named `key`.
fn last_member_value<'a>(ms: &'a Vec<(String, Json)>, key: &str) -> (r: Option<&'a Json>)
    ensures
        match last_member(deep_members(ms@), key@, ms@.len() as int) {
            Some(i) => r matches Some(v) && v.deep() == deep_members(ms@)[i].1,
            None => r is None,
        },
{
    let mut n = ms.len();
    while n > 0
        invariant
            n <= ms@.len(),
            last_member(deep_members(ms@), key@, ms@.len() as int) == last_member(
                deep_members(ms@),
                key@,
                n as int,
            ),
        decreases n,
    {
        assert(deep_members(ms@)[n - 1] == (ms@[n - 1].0@, ms@[n - 1].1.deep()));
        if crate::text::text_eq(ms[n - 1].0.as_str(), key) {
            return Some(&ms[n - 1].1);
        }
        n -= 1;
    }
    None
}

/// The index of the last of the first `n` members named `key`.
pub open spec fn last_member(ms: Seq<(Seq<char>, JsonV)>, key: Seq<char>, n: int) -> Option<int>
    decreases n,
{
    if n <= 0 {
        None
    } else if ms[n - 1].0 == key {
        Some(n - 1)
    } else {
        last_member(ms, key, n - 1)
    }
}

/// A field of a bmson chart that has a default.
#[derive(Debug, Clone, Copy, PartialEq, Eq, Hash, Structural)]
pub enum BmsonField {
    /// `version`.
    Version,
    /// `sound_channels`.
    SoundChannels,
    /// `info`.
    Info,
    /// `info.title`.
    InfoTitle,
    /// `info.artist`.
    InfoArtist,
    /// `info.genre`.
    InfoGenre,
    /// `info.level`.
    InfoLevel,
    /// `info.init_bpm`.
    InfoInitBpm,
}

/// A warning of reading a bmson chart.
#[derive(Debug, Clone, PartialEq, Eq)]
pub enum BmsonWarning {
    /// The JSON text is not well formed.
    JsonSyntaxError(JsonError),
    /// The top value is no object.
    NonObjectRoot,
    /// A field is missing; its default is used.
    MissingField(BmsonField),
    /// The chart could not be read at the given path; a minimal chart is used.
    DeserializeFailed(String),
}

/// Whether some member is named `key`.
pub open spec fn has_key(ms: Seq<(Seq<char>, JsonV)>, key: Seq<char>) -> bool {
    exists|i: int| 0 <= i < ms.len() && (#[trigger] ms[i]).0 == key
}

/// The members, with `(key, v)` added at the end when none is named `key`.
pub open spec fn with_default(ms: Seq<(Seq<char>, JsonV)>, key: Seq<char>, v: JsonV) -> Seq<(Seq<char>, JsonV)> {
    if has_key(ms, key) {
        ms
    } else {
        ms.push((key, v))
    }
}

/// The warning that `key` is missing from `ms`, if it is.
pub open spec fn missing(ms: Seq<(Seq<char>, JsonV)>, key: Seq<char>, f: BmsonField) -> Seq<BmsonWarning> {
    if has_key(ms, key) {
        Seq::empty()
    } else {
        seq![BmsonWarning::MissingField(f)]
    }
}

/// The members without those named `key`.
pub open spec fn without_key(ms: Seq<(Seq<char>, JsonV)>, key: Seq<char>) -> Seq<(Seq<char>, JsonV)> {
    ms.filter(|m: (Seq<char>, JsonV)| m.0 != key)
}

/// The members of the top value, an object (else none).
pub open spec fn root_members(v: Option<JsonV>) -> Seq<(Seq<char>, JsonV)> {
    match v {
        Some(JsonV::Object(ms)) => ms,
        _ => Seq::empty(),
    }
}

/// The members of the information: those of the last `info` member when it is an object,
/// else none.
pub open spec fn info_members(ms: Seq<(Seq<char>, JsonV)>) -> Seq<(Seq<char>, JsonV)> {
    match last_member(ms, "info"@, ms.len() as int) {
        Some(i) => match ms[i].1 {
            JsonV::Object(im) => im,
            _ => Seq::empty(),
        },
        None => Seq::empty(),
    }
}

/// Whether the last `info` member is an object.
pub open spec fn info_is_object(ms: Seq<(Seq<char>, JsonV)>) -> bool {
    match last_member(ms, "info"@, ms.len() as int) {
        Some(i) => ms[i].1 is Object,
        None => false,
    }
}

/// The information with its defaults: empty title, artist and genre, level 0 and tempo 120.
pub open spec fn filled_info(im: Seq<(Seq<char>, JsonV)>) -> Seq<(Seq<char>, JsonV)> {
    let a = with_default(im, "title"@, JsonV::Str(Seq::empty()));
    let b = with_default(a, "artist"@, JsonV::Str(Seq::empty()));
    let c = with_default(b, "genre"@, JsonV::Str(Seq::empty()));
    let d = with_default(c, "level"@, JsonV::Int(0));
    with_default(d, "init_bpm"@, JsonV::Float("120.0"@))
}

/// The warnings of missing information fields, checked in the order of `filled_info`.
pub open spec fn info_warnings(im: Seq<(Seq<char>, JsonV)>) -> Seq<BmsonWarning> {
    let a = with_default(im, "title"@, JsonV::Str(Seq::empty()));
    let b = with_default(a, "artist"@, JsonV::Str(Seq::empty()));
    let c = with_default(b, "genre"@, JsonV::Str(Seq::empty()));
    let d = with_default(c, "level"@, JsonV::Int(0));
    missing(im, "title"@, BmsonField::InfoTitle) + missing(a, "artist"@, BmsonField::InfoArtist) + missing(
        b,
        "genre"@,
        BmsonField::InfoGenre,
    ) + missing(c, "level"@, BmsonField::InfoLevel) + missing(d, "init_bpm"@, BmsonField::InfoInitBpm)
}

/// The chart object with its defaults: version `1.0.0` and no sound channels when missing,
/// and the information (moved to the end) with its defaults.
pub open spec fn filled_root(v: Option<JsonV>) -> Seq<(Seq<char>, JsonV)> {
    let ms = root_members(v);
    let a = with_default(ms, "version"@, JsonV::Str("1.0.0"@));
    let b = with_default(a, "sound_channels"@, JsonV::Array(Seq::empty()));
    without_key(b, "info"@).push(("info"@, JsonV::Object(filled_info(info_members(b)))))
}

/// The warnings of preparing a chart object: the syntax errors, no object at the top, then
/// the missing fields in the order of `filled_root`.
pub open spec fn prepare_warnings(v: Option<JsonV>, errors: Seq<JsonError>) -> Seq<BmsonWarning> {
    let ms = root_members(v);
    let a = with_default(ms, "version"@, JsonV::Str("1.0.0"@));
    let b = with_default(a, "sound_channels"@, JsonV::Array(Seq::empty()));
    errors.map_values(|e: JsonError| BmsonWarning::JsonSyntaxError(e)) + (if v matches Some(JsonV::Object(_)) {
        Seq::empty()
    } else {
        seq![BmsonWarning::NonObjectRoot]
    }) + missing(ms, "version"@, BmsonField::Version) + missing(
        a,
        "sound_channels"@,
        BmsonField::SoundChannels,
    ) + (if info_is_object(b) {
        Seq::empty()
    } else {
        seq![BmsonWarning::MissingField(BmsonField::Info)]
    }) + info_warnings(info_members(b))
}

/// The view of an optional value.
pub open spec fn deep_opt(v: Option<Json>) -> Option<JsonV> {
    match v {
        Some(j) => Some(j.deep()),
        None => None,
    }
}

/// Whether a member is named `key`.
fn has_member(ms: &Vec<(String, Json)>, key: &str) -> (r: bool)
    ensures
        r == has_key(deep_members(ms@), key@),
{
    let mut i: usize = 0;
    while i < ms.len()
        invariant
            i <= ms@.len(),
            forall|j: int| 0 <= j < i ==> ms@[j].0@ != key@,
        decreases ms@.len() - i,
    {
        if crate::text::text_eq(ms[i].0.as_str(), key) {
            assert(deep_members(ms@)[i as int].0 == key@);
            return true;
        }
        i += 1;
    }
    assert forall|j: int| 0 <= j < ms@.len() implies (#[trigger] deep_members(ms@)[j]).0 != key@ by {
        assert(deep_members(ms@)[j].0 == ms@[j].0@);
    }
    false
}

/// Adds `(key, v)` when no member is named `key`, warning of it.
fn add_default(
    ms: &mut Vec<(String, Json)>,
    key: &str,
    v: Json,
    f: BmsonField,
    warnings: &mut Vec<BmsonWarning>,
)
    ensures
        deep_members(final(ms)@) == with_default(deep_members(old(ms)@), key@, v.deep()),
        final(warnings)@ == old(warnings)@ + missing(deep_members(old(ms)@), key@, f),
{
    if has_member(ms, key) {
        assert(old(warnings)@ + Seq::<BmsonWarning>::empty() =~= old(warnings)@);
    } else {
        let ghost before = deep_members(ms@);
        let ghost dv = v.deep();
        ms.push((crate::text::owned(key), v));
        assert(deep_members(ms@) =~= before.push((key@, dv)));
        warnings.push(BmsonWarning::MissingField(f));
        assert(warnings@ =~= old(warnings)@ + seq![BmsonWarning::MissingField(f)]);
    }
}

/// Removes the members named `key`; the value of the last of them, if any.
fn take_members(ms: &mut Vec<(String, Json)>, key: &str) -> (r: Option<Json>)
    ensures
        deep_members(final(ms)@) == without_key(deep_members(old(ms)@), key@),
        match last_member(deep_members(old(ms)@), key@, old(ms)@.len() as int) {
            Some(i) => r matches Some(v) && v.deep() == deep_members(old(ms)@)[i].1,
            None => r is None,
        },
{
    let ghost all = ms@;
    let ghost dall = deep_members(all);
    let mut rest: Vec<(String, Json)> = Vec::new();
    std::mem::swap(ms, &mut rest);
    let mut rev: Vec<(String, Json)> = Vec::new();
    while rest.len() > 0
        invariant
            rest@ == all.take(rest@.len() as int),
            rest@.len() <= all.len(),
            rev@.len() == all.len() - rest@.len(),
            forall|j: int| 0 <= j < rev@.len() ==> #[trigger] rev@[j] == all[all.len() - 1 - j],
        decreases rest@.len(),
    {
        let x = rest.pop().unwrap();
        rev.push(x);
        assert(rest@ =~= all.take(rest@.len() as int));
    }
    assert(ms@.len() == 0);
    let mut found: Option<Json> = None;
    let mut k: usize = 0;
    let total = rev.len();
    while rev.len() > 0
        invariant
            rev@.len() + k == all.len(),
            total == all.len(),
            dall == deep_members(all),
            forall|j: int| 0 <= j < rev@.len() ==> #[trigger] rev@[j] == all[all.len() - 1 - j],
            deep_members(ms@) == without_key(dall.take(k as int), key@),
            match last_member(dall, key@, k as int) {
                Some(i) => found matches Some(v) && v.deep() == dall[i].1,
                None => found is None,
            },
        decreases rev@.len(),
    {
        let (name, v) = rev.pop().unwrap();
        let ghost m = (name@, v.deep());
        assert(all[k as int] == (name, v));
        assert(dall[k as int] == m);
        proof {
            assert(dall.take(k + 1).drop_last() =~= dall.take(k as int));
            dall.take(k as int).lemma_filter_push(m, |x: (Seq<char>, JsonV)| x.0 != key@);
            assert(dall.take(k + 1) =~= dall.take(k as int).push(m));
        }
        if crate::text::text_eq(name.as_str(), key) {
            found = Some(v);
        } else {
            let ghost before = deep_members(ms@);
            ms.push((name, v));
            assert(deep_members(ms@) =~= before.push(m));
        }
        k += 1;
    }
    assert(dall.take(all.len() as int) =~= dall);
    found
}

/// Adds the defaults of the information.
fn fill_info(im: &mut Vec<(String, Json)>, warnings: &mut Vec<BmsonWarning>)
    ensures
        deep_members(final(im)@) == filled_info(deep_members(old(im)@)),
        final(warnings)@ == old(warnings)@ + info_warnings(deep_members(old(im)@)),
{
    proof {
        reveal_strlit("120.0");
    }
    let ghost w0 = warnings@;
    add_default(im, "title", Json::Str(String::new()), BmsonField::InfoTitle, warnings);
    add_default(im, "artist", Json::Str(String::new()), BmsonField::InfoArtist, warnings);
    add_default(im, "genre", Json::Str(String::new()), BmsonField::InfoGenre, warnings);
    add_default(im, "level", Json::Int(0), BmsonField::InfoLevel, warnings);
    add_default(im, "init_bpm", Json::Float(crate::text::owned("120.0")), BmsonField::InfoInitBpm, warnings);
    assert(warnings@ =~= w0 + info_warnings(deep_members(old(im)@)));
}

/// Prepares a parsed bmson text for reading: the chart object with the defaults of
/// `filled_root`, and the warnings of `prepare_warnings`.
pub fn prepare_bmson_json(parsed: Option<Json>, errors: &Vec<JsonError>) -> (r: (Json, Vec<BmsonWarning>))
    ensures
        r.0.deep() == JsonV::Object(filled_root(deep_opt(parsed))),
        r.1@ == prepare_warnings(deep_opt(parsed), errors@),
{
    let ghost pv = deep_opt(parsed);
    let mut warnings: Vec<BmsonWarning> = Vec::new();
    let mut i: usize = 0;
    while i < errors.len()
        invariant
            i <= errors@.len(),
            warnings@ == errors@.take(i as int).map_values(|e: JsonError| BmsonWarning::JsonSyntaxError(e)),
        decreases errors@.len() - i,
    {
        warnings.push(BmsonWarning::JsonSyntaxError(errors[i]));
        assert(warnings@ =~= errors@.take(i + 1).map_values(|e: JsonError| BmsonWarning::JsonSyntaxError(e)));
        i += 1;
    }
    assert(errors@.take(errors@.len() as int) =~= errors@);
    let ghost w0 = warnings@;
    let mut root: Vec<(String, Json)> = match parsed {
        Some(Json::Object(ms)) => {
            proof {
                lemma_deep_object(ms);
            }
            ms
        },
        _ => {
            warnings.push(BmsonWarning::NonObjectRoot);
            Vec::new()
        },
    };
    assert(deep_members(root@) =~= root_members(pv));
    let ghost w1 = warnings@;
    assert(w1 =~= w0 + (if pv matches Some(JsonV::Object(_)) {
        Seq::<BmsonWarning>::empty()
    } else {
        seq![BmsonWarning::NonObjectRoot]
    }));
    proof {
        reveal_strlit("1.0.0");
        reveal_strlit("120.0");
    }
    add_default(&mut root, "version", Json::Str(crate::text::owned("1.0.0")), BmsonField::Version, &mut warnings);
    let empty: Vec<Json> = Vec::new();
    proof {
        lemma_deep_array(empty);
        assert(deep_all(empty@) =~= Seq::<JsonV>::empty());
    }
    add_default(&mut root, "sound_channels", Json::Array(empty), BmsonField::SoundChannels, &mut warnings);
    let ghost b = deep_members(root@);
    let info = take_members(&mut root, "info");
    let ghost w2 = warnings@;
    let mut im: Vec<(String, Json)> = match info {
        Some(Json::Object(m)) => {
            proof {
                lemma_deep_object(m);
            }
            m
        },
        _ => {
            warnings.push(BmsonWarning::MissingField(BmsonField::Info));
            Vec::new()
        },
    };
    assert(deep_members(im@) =~= info_members(b));
    let ghost w3 = warnings@;
    assert(w3 =~= w2 + (if info_is_object(b) {
        Seq::<BmsonWarning>::empty()
    } else {
        seq![BmsonWarning::MissingField(BmsonField::Info)]
    }));
    fill_info(&mut im, &mut warnings);
    let ghost imv = deep_members(im@);
    let info_obj = Json::Object(im);
    proof {
        lemma_deep_object(im);
    }
    let ghost before = deep_members(root@);
    root.push((crate::text::owned("info"), info_obj));
    assert(deep_members(root@) =~= before.push(("info"@, JsonV::Object(imv))));
    let out = Json::Object(root);
    proof {
        lemma_deep_object(root);
        assert(warnings@ =~= prepare_warnings(pv, errors@));
    }
    (out, warnings)
}

} // verus!
