//! Processing tokens into a score: the shared trait and the readers of object messages.
pub mod random;
pub mod token_processor;
pub mod validity;

use crate::bms::command::{spec_obj_id_of, spec_obj_id_text, ObjId, ObjTime};
use crate::bms::error::{ParseErrorWithRange, ParseWarning, ParseWarningWithRange};
use crate::bms::lex::TokenWithRange;
use crate::bms::prompt::Prompter;
use crate::text::{chars_of, owned, slice_range, string_of};
use vstd::prelude::*;

verus! {

/// A stage that reads tokens into some part of a score.
pub trait TokenProcessor<P: Prompter> {
    /// What the stage collects.
    type Output;

    /// What reading `tokens` with `prompter` may give: the output and warnings, or the
    /// error.
    spec fn outcome(
        &self,
        tokens: Seq<TokenWithRange>,
        prompter: P,
        r: Result<(Self::Output, Vec<ParseWarningWithRange>), ParseErrorWithRange>,
    ) -> bool;

    /// Reads `tokens`, reporting warnings with the places of the tokens they are about.
    fn process(&self, tokens: &[TokenWithRange], prompter: &P) -> (r: Result<
        (Self::Output, Vec<ParseWarningWithRange>),
        ParseErrorWithRange,
    >)
        ensures
            self.outcome(tokens@, *prompter, r),
    ;
}

/// The `k`-th pair of characters of a message.
pub open spec fn chunk(cs: Seq<char>, k: int) -> Seq<char> {
    cs.subrange(2 * k, 2 * k + 2)
}

/// The pair `00`, which stands for no object.
pub open spec fn is_zero_chunk(c: Seq<char>) -> bool {
    c == seq!['0', '0']
}

/// The objects of the first `k` pairs of a message of `track` whose pairs are ids: each
/// pair other than `00` at position `i` of `n` pairs lies at `i / n` of the track.
pub open spec fn obj_pairs(track: u64, cs: Seq<char>, case_sensitive: bool, k: int) -> Seq<
    (ObjTime, ObjId),
>
    decreases k,
{
    if k <= 0 {
        seq![]
    } else {
        let prev = obj_pairs(track, cs, case_sensitive, k - 1);
        let c = chunk(cs, k - 1);
        if spec_obj_id_text(c) && !is_zero_chunk(c) {
            prev.push(
                (
                    ObjTime::spec_new(track, (k - 1) as u64, (cs.len() / 2) as u64),
                    spec_obj_id_of(c, case_sensitive),
                ),
            )
        } else {
            prev
        }
    }
}

/// How many of the first `k` pairs are no id.
pub open spec fn bad_id_count(cs: Seq<char>, k: int) -> nat
    decreases k,
{
    if k <= 0 {
        0
    } else {
        bad_id_count(cs, k - 1) + if spec_obj_id_text(chunk(cs, k - 1)) {
            0nat
        } else {
            1nat
        }
    }
}

/// Reads a message whose pairs are object ids. A message of odd length gives no object
/// and one warning; each pair that is no id gives a warning.
pub fn parse_obj_ids(track: u64, message: &str, case_sensitive: bool) -> (r: (
    Vec<(ObjTime, ObjId)>,
    Vec<ParseWarning>,
))
    ensures
        message@.len() % 2 == 1 ==> r.0@.len() == 0 && r.1@.len() == 1,
        message@.len() % 2 == 0 ==> {
            &&& r.0@ == obj_pairs(track, message@, case_sensitive, (message@.len() / 2) as int)
            &&& r.1@.len() == bad_id_count(message@, (message@.len() / 2) as int)
        },
        forall|i: int| 0 <= i < r.1@.len() ==> #[trigger] r.1@[i] is SyntaxError,
{
    let cs = chars_of(message);
    let mut pairs: Vec<(ObjTime, ObjId)> = Vec::new();
    let mut warnings: Vec<ParseWarning> = Vec::new();
    if cs.len() % 2 == 1 {
        warnings.push(ParseWarning::SyntaxError(owned("expected 2-digit object ids")));
        return (pairs, warnings);
    }
    let n = cs.len() / 2;
    let mut k: usize = 0;
    while k < n
        invariant
            cs@ == message@,
            cs@.len() % 2 == 0,
            n == cs@.len() / 2,
            n + n == cs@.len(),
            k <= n,
            pairs@ == obj_pairs(track, message@, case_sensitive, k as int),
            warnings@.len() == bad_id_count(message@, k as int),
            forall|i: int| 0 <= i < warnings@.len() ==> #[trigger] warnings@[i] is SyntaxError,
        decreases n - k,
    {
        let len = cs.len();
        assert(k + k < len);
        let j: usize = k + k;
        let c0 = cs[j];
        let c1 = cs[j + 1];
        assert(chunk(message@, k as int) =~= seq![c0, c1]);
        match ObjId::from_chars(c0, c1, case_sensitive) {
            Some(id) => {
                if !(c0 == '0' && c1 == '0') {
                    let time = ObjTime::new(track, k as u64, n as u64).unwrap();
                    pairs.push((time, id));
                }
            },
            None => {
                warnings.push(ParseWarning::SyntaxError(owned("expected object id")));
            },
        }
        k += 1;
    }
    (pairs, warnings)
}

/// The value of a hexadecimal digit, if `c` is one.
pub open spec fn hex_digit(c: char) -> Option<int> {
    if '0' <= c && c <= '9' {
        Some(c as int - '0' as int)
    } else if 'A' <= c && c <= 'F' {
        Some(c as int - 'A' as int + 10)
    } else if 'a' <= c && c <= 'f' {
        Some(c as int - 'a' as int + 10)
    } else {
        None
    }
}

/// The value of a pair of hexadecimal digits, if it is one.
pub open spec fn hex_pair(c: Seq<char>) -> Option<int> {
    match (hex_digit(c[0]), hex_digit(c[1])) {
        (Some(h), Some(l)) => Some(h * 16 + l),
        _ => None,
    }
}

/// The values of the first `k` pairs of a message of `track` whose pairs are hexadecimal
/// numbers; `00` stands for no object.
pub open spec fn hex_pairs(track: u64, cs: Seq<char>, k: int) -> Seq<(ObjTime, u8)>
    decreases k,
{
    if k <= 0 {
        seq![]
    } else {
        let prev = hex_pairs(track, cs, k - 1);
        match hex_pair(chunk(cs, k - 1)) {
            Some(v) => if v != 0 {
                prev.push(
                    (ObjTime::spec_new(track, (k - 1) as u64, (cs.len() / 2) as u64), v as u8),
                )
            } else {
                prev
            },
            None => prev,
        }
    }
}

/// How many of the first `k` pairs are no hexadecimal number.
pub open spec fn bad_hex_count(cs: Seq<char>, k: int) -> nat
    decreases k,
{
    if k <= 0 {
        0
    } else {
        bad_hex_count(cs, k - 1) + if hex_pair(chunk(cs, k - 1)) is Some {
            0nat
        } else {
            1nat
        }
    }
}

/// The value of a hexadecimal digit.
fn hex_digit_value(c: char) -> (r: Option<u8>)
    ensures
        match hex_digit(c) {
            Some(v) => r == Some(v as u8) && v < 16,
            None => r is None,
        },
{
    if '0' <= c && c <= '9' {
        Some((c as u8) - 48)
    } else if 'A' <= c && c <= 'F' {
        Some((c as u8) - 55)
    } else if 'a' <= c && c <= 'f' {
        Some((c as u8) - 87)
    } else {
        None
    }
}

/// Reads a message whose pairs are hexadecimal numbers. A message of odd length gives no
/// value and one warning; each pair that is no number gives a warning.
pub fn parse_hex_values(track: u64, message: &str) -> (r: (Vec<(ObjTime, u8)>, Vec<ParseWarning>))
    ensures
        message@.len() % 2 == 1 ==> r.0@.len() == 0 && r.1@.len() == 1,
        message@.len() % 2 == 0 ==> {
            &&& r.0@ == hex_pairs(track, message@, (message@.len() / 2) as int)
            &&& r.1@.len() == bad_hex_count(message@, (message@.len() / 2) as int)
        },
        forall|i: int| 0 <= i < r.1@.len() ==> #[trigger] r.1@[i] is SyntaxError,
{
    let cs = chars_of(message);
    let mut pairs: Vec<(ObjTime, u8)> = Vec::new();
    let mut warnings: Vec<ParseWarning> = Vec::new();
    if cs.len() % 2 == 1 {
        warnings.push(ParseWarning::SyntaxError(owned("expected 2-digit hexadecimal values")));
        return (pairs, warnings);
    }
    let n = cs.len() / 2;
    let mut k: usize = 0;
    while k < n
        invariant
            cs@ == message@,
            cs@.len() % 2 == 0,
            n == cs@.len() / 2,
            k <= n,
            pairs@ == hex_pairs(track, message@, k as int),
            warnings@.len() == bad_hex_count(message@, k as int),
            forall|i: int| 0 <= i < warnings@.len() ==> #[trigger] warnings@[i] is SyntaxError,
        decreases n - k,
    {
        let len = cs.len();
        assert(k + k < len);
        let j: usize = k + k;
        let c0 = cs[j];
        let c1 = cs[j + 1];
        assert(chunk(message@, k as int) =~= seq![c0, c1]);
        match (hex_digit_value(c0), hex_digit_value(c1)) {
            (Some(h), Some(l)) => {
                let v: u8 = h * 16 + l;
                if v != 0 {
                    let time = ObjTime::new(track, k as u64, n as u64).unwrap();
                    pairs.push((time, v));
                }
            },
            _ => {
                warnings.push(ParseWarning::SyntaxError(owned("expected hexadecimal value")));
            },
        }
        k += 1;
    }
    (pairs, warnings)
}

/// Whether a character may stand in the value of a message: an ASCII letter or digit, `.`,
/// `-` or `_`.
pub open spec fn message_char(c: char) -> bool {
    ('0' <= c && c <= '9') || ('a' <= c && c <= 'z') || ('A' <= c && c <= 'Z') || c == '.' || c
        == '-' || c == '_'
}

/// The index of the first character of `s` from `i` on that may not stand in a value.
pub open spec fn message_end(s: Seq<char>, i: int) -> int
    decreases s.len() - i,
{
    if i >= s.len() {
        s.len() as int
    } else if !message_char(s[i]) {
        i
    } else {
        message_end(s, i + 1)
    }
}

/// The part of a message before the first character that may not stand in a value.
pub open spec fn filtered_message(s: Seq<char>) -> Seq<char> {
    s.take(message_end(s, 0))
}

/// Checks `message_char`.
fn is_message_char(c: char) -> (r: bool)
    ensures
        r == message_char(c),
{
    ('0' <= c && c <= '9') || ('a' <= c && c <= 'z') || ('A' <= c && c <= 'Z') || c == '.' || c
        == '-' || c == '_'
}

/// Cuts a message at the first character that may not stand in a value (such as a comment
/// or stray text after the value).
pub fn filter_message(message: &str) -> (r: String)
    ensures
        r@ == filtered_message(message@),
{
    let cs = chars_of(message);
    let mut i: usize = 0;
    while i < cs.len() && is_message_char(cs[i])
        invariant
            i <= cs@.len(),
            cs@ == message@,
            message_end(message@, 0) == message_end(message@, i as int),
        decreases cs@.len() - i,
    {
        i += 1;
    }
    let r = string_of(slice_range(cs.as_slice(), 0, i).as_slice());
    assert(cs@.subrange(0, i as int) =~= message@.take(i as int));
    r
}

} // verus!
