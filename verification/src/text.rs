//! Character-level helpers on command text: case-insensitive comparison,
//! splitting and the decimal integer syntax that command arguments use.
use vstd::prelude::*;

verus! {

/// Collects the characters of a string slice into a vector.
pub fn chars_of(s: &str) -> (r: Vec<char>)
    ensures
        r@ == s@,
{
    let mut r: Vec<char> = Vec::new();
    for c in it: s.chars()
        invariant
            r@ == it.seq().take(it.index() as int),
            it.seq() == s@,
    {
        r.push(c);
    }
    r
}

/// Appends one character to a string (`String::push`).
#[verifier::external_body]
pub(crate) fn push_char(s: &mut String, c: char)
    ensures
        final(s)@ == old(s)@.push(c),
{
    s.push(c);
}

/// Builds a string from a run of characters.
pub fn string_of(cs: &[char]) -> (r: String)
    ensures
        r@ == cs@,
{
    let mut r = String::new();
    let mut i: usize = 0;
    while i < cs.len()
        invariant
            i <= cs.len(),
            r@ == cs@.take(i as int),
        decreases cs.len() - i,
    {
        push_char(&mut r, cs[i]);
        i += 1;
        assert(r@ =~= cs@.take(i as int));
    }
    assert(cs@.take(cs.len() as int) =~= cs@);
    r
}

/// Copies a string slice into an owned string.
pub fn owned(s: &str) -> (r: String)
    ensures
        r@ == s@,
{
    let cs = chars_of(s);
    string_of(cs.as_slice())
}

/// The ASCII upper-case form of a character; other characters stay as they are.
pub open spec fn upper(c: char) -> char {
    if 'a' <= c && c <= 'z' {
        ((c as int) - 32) as char
    } else {
        c
    }
}

/// ASCII upper-casing of one character (`char::to_ascii_uppercase`).
pub fn to_upper(c: char) -> (r: char)
    ensures
        r == upper(c),
{
    if 'a' <= c && c <= 'z' {
        ((c as u8) - 32) as char
    } else {
        c
    }
}

/// Two texts are equal when compared ignoring ASCII case.
pub open spec fn eq_ignore_case(a: Seq<char>, b: Seq<char>) -> bool {
    a.len() == b.len() && forall|i: int| 0 <= i < a.len() ==> #[trigger] upper(a[i]) == upper(b[i])
}

/// `a` starts with `prefix`, ignoring ASCII case.
pub open spec fn starts_with_ignore_case(a: Seq<char>, prefix: Seq<char>) -> bool {
    prefix.len() <= a.len() && eq_ignore_case(a.take(prefix.len() as int), prefix)
}

/// A case-insensitive prefix fixes the upper-case form of each of its characters.
pub proof fn lemma_prefix_char(a: Seq<char>, prefix: Seq<char>, k: int)
    requires
        starts_with_ignore_case(a, prefix),
        0 <= k < prefix.len(),
    ensures
        upper(a[k]) == upper(prefix[k]),
{
    assert(upper(a.take(prefix.len() as int)[k]) == upper(prefix[k]));
}

/// Compares two character runs ignoring ASCII case (`str::eq_ignore_ascii_case`).
pub fn chars_eq_ignore_case(a: &[char], b: &[char]) -> (r: bool)
    ensures
        r == eq_ignore_case(a@, b@),
{
    if a.len() != b.len() {
        return false;
    }
    let mut i: usize = 0;
    while i < a.len()
        invariant
            a.len() == b.len(),
            i <= a.len(),
            forall|j: int| 0 <= j < i ==> #[trigger] upper(a@[j]) == upper(b@[j]),
        decreases a.len() - i,
    {
        if to_upper(a[i]) != to_upper(b[i]) {
            return false;
        }
        i += 1;
    }
    true
}

/// Compares a string with a keyword ignoring ASCII case.
pub fn eq_ignore_ascii_case(a: &str, b: &str) -> (r: bool)
    ensures
        r == eq_ignore_case(a@, b@),
{
    let ac = chars_of(a);
    let bc = chars_of(b);
    chars_eq_ignore_case(ac.as_slice(), bc.as_slice())
}

/// Whether `a` starts with `prefix` ignoring ASCII case.
pub fn starts_with_ascii_ignore_case(a: &str, prefix: &str) -> (r: bool)
    ensures
        r == starts_with_ignore_case(a@, prefix@),
{
    let ac = chars_of(a);
    let pc = chars_of(prefix);
    if pc.len() > ac.len() {
        return false;
    }
    let mut i: usize = 0;
    while i < pc.len()
        invariant
            pc.len() <= ac.len(),
            ac@ == a@,
            pc@ == prefix@,
            i <= pc.len(),
            forall|j: int| 0 <= j < i ==> #[trigger] upper(ac@[j]) == upper(pc@[j]),
        decreases pc.len() - i,
    {
        if to_upper(ac[i]) != to_upper(pc[i]) {
            assert(ac@.take(pc@.len() as int)[i as int] == ac@[i as int]);
            assert(upper(ac@.take(pc@.len() as int)[i as int]) != upper(pc@[i as int]));
            assert(!eq_ignore_case(ac@.take(pc@.len() as int), pc@));
            return false;
        }
        i += 1;
    }
    assert(eq_ignore_case(ac@.take(pc@.len() as int), pc@)) by {
        assert forall|j: int| 0 <= j < pc@.len() implies #[trigger] upper(
            ac@.take(pc@.len() as int)[j],
        ) == upper(pc@[j]) by {
            assert(upper(ac@[j]) == upper(pc@[j]));
        }
    }
    true
}

/// The rest of `a` after a case-insensitive `prefix`, if `a` starts with it.
pub open spec fn spec_strip_prefix_ignore_case(a: Seq<char>, prefix: Seq<char>) -> Option<
    Seq<char>,
> {
    if starts_with_ignore_case(a, prefix) {
        Some(a.skip(prefix.len() as int))
    } else {
        None
    }
}

/// Removes a case-insensitive prefix (`StrExtension::strip_prefix_ignore_case`).
pub fn strip_prefix_ignore_case(a: &str, prefix: &str) -> (r: Option<String>)
    ensures
        match spec_strip_prefix_ignore_case(a@, prefix@) {
            Some(rest) => r is Some && r->0@ == rest,
            None => r is None,
        },
{
    if starts_with_ascii_ignore_case(a, prefix) {
        let ac = chars_of(a);
        let pc = chars_of(prefix);
        let rest = string_of(&slice_skip(ac.as_slice(), pc.len()));
        Some(rest)
    } else {
        None
    }
}

/// The characters of `s` from position `n` on.
pub fn slice_skip(s: &[char], n: usize) -> (r: Vec<char>)
    requires
        n <= s@.len(),
    ensures
        r@ == s@.skip(n as int),
{
    let mut r: Vec<char> = Vec::new();
    let mut i: usize = n;
    while i < s.len()
        invariant
            n <= i <= s.len(),
            r@ == s@.subrange(n as int, i as int),
        decreases s.len() - i,
    {
        r.push(s[i]);
        i += 1;
        assert(r@ =~= s@.subrange(n as int, i as int));
    }
    assert(s@.subrange(n as int, s.len() as int) =~= s@.skip(n as int));
    r
}

/// The characters of `s` from `from` up to `to`.
pub fn slice_range(s: &[char], from: usize, to: usize) -> (r: Vec<char>)
    requires
        from <= to <= s@.len(),
    ensures
        r@ == s@.subrange(from as int, to as int),
{
    let mut r: Vec<char> = Vec::new();
    let mut i: usize = from;
    while i < to
        invariant
            from <= i <= to <= s.len(),
            r@ == s@.subrange(from as int, i as int),
        decreases to - i,
    {
        r.push(s[i]);
        i += 1;
        assert(r@ =~= s@.subrange(from as int, i as int));
    }
    r
}

/// Whether a character is white space: it has the Unicode `White_Space` property, which
/// `char::is_whitespace` tests. The property holds of U+0009 to U+000D, U+0020, U+0085,
/// U+00A0, U+1680, U+2000 to U+200A, U+2028, U+2029, U+202F, U+205F and U+3000.
pub open spec fn whitespace(c: char) -> bool {
    let v = c as int;
    ||| 0x9 <= v <= 0xD
    ||| v == 0x20
    ||| v == 0x85
    ||| v == 0xA0
    ||| v == 0x1680
    ||| 0x2000 <= v <= 0x200A
    ||| v == 0x2028
    ||| v == 0x2029
    ||| v == 0x202F
    ||| v == 0x205F
    ||| v == 0x3000
}

/// Whether a character is white space, as `whitespace` says.
pub fn is_whitespace(c: char) -> (r: bool)
    ensures
        r == whitespace(c),
{
    let v = c as u32;
    (0x9 <= v && v <= 0xD) || v == 0x20 || v == 0x85 || v == 0xA0 || v == 0x1680 || (0x2000 <= v && v
        <= 0x200A) || v == 0x2028 || v == 0x2029 || v == 0x202F || v == 0x205F || v == 0x3000
}

/// Whether `c` is an ASCII decimal digit.
pub open spec fn is_digit(c: char) -> bool {
    '0' <= c && c <= '9'
}

/// The value of a decimal digit.
pub open spec fn digit_value(c: char) -> int {
    (c as int) - ('0' as int)
}

/// The value of a run of decimal digits, most significant first.
pub open spec fn decimal_value(s: Seq<char>) -> int
    decreases s.len(),
{
    if s.len() == 0 {
        0
    } else {
        decimal_value(s.drop_last()) * 10 + digit_value(s.last())
    }
}

/// Every character of `s` is a decimal digit.
pub open spec fn all_digits(s: Seq<char>) -> bool {
    forall|i: int| 0 <= i < s.len() ==> #[trigger] is_digit(s[i])
}

/// The digits after an optional leading `+`.
pub open spec fn unsigned_body(s: Seq<char>) -> Seq<char> {
    if s.len() > 0 && s[0] == '+' {
        s.drop_first()
    } else {
        s
    }
}

/// What `FromStr` of an unsigned integer type with largest value `max` gives:
/// an optional `+`, then one digit or more, and the value at most `max`.
pub open spec fn spec_parse_unsigned(s: Seq<char>, max: int) -> Option<int> {
    let d = unsigned_body(s);
    if d.len() > 0 && all_digits(d) && decimal_value(d) <= max {
        Some(decimal_value(d))
    } else {
        None
    }
}

/// What `FromStr` of a signed integer type from `-(max + 1)` to `max` gives.
pub open spec fn spec_parse_signed(s: Seq<char>, max: int) -> Option<int> {
    if s.len() > 0 && s[0] == '-' {
        let d = s.drop_first();
        if d.len() > 0 && all_digits(d) && decimal_value(d) <= max + 1 {
            Some(-decimal_value(d))
        } else {
            None
        }
    } else {
        spec_parse_unsigned(s, max)
    }
}

proof fn lemma_decimal_nonneg(s: Seq<char>)
    requires
        all_digits(s),
    ensures
        decimal_value(s) >= 0,
    decreases s.len(),
{
    if s.len() > 0 {
        assert(is_digit(s[s.len() - 1]));
        lemma_decimal_nonneg(s.drop_last());
    }
}

/// A prefix of a digit run is worth no more than the whole run.
proof fn lemma_decimal_prefix_le(s: Seq<char>, k: int)
    requires
        all_digits(s),
        0 <= k <= s.len(),
    ensures
        decimal_value(s.take(k)) <= decimal_value(s),
    decreases s.len() - k,
{
    if k < s.len() {
        lemma_decimal_prefix_le(s, k + 1);
        let t = s.take(k + 1);
        assert(t.drop_last() =~= s.take(k));
        assert(is_digit(s[k]));
        assert(all_digits(s.take(k)));
        lemma_decimal_nonneg(s.take(k));
    } else {
        assert(s.take(k) =~= s);
    }
}

/// Parses the digits `d[from..]` with an upper bound; `None` when a character is not a digit
/// or the value exceeds `max`.
fn parse_digits(d: &[char], from: usize, max: u64) -> (r: Option<u64>)
    requires
        from <= d@.len(),
    ensures
        ({
            let t = d@.skip(from as int);
            match r {
                Some(v) => all_digits(t) && decimal_value(t) <= max && v == decimal_value(t) && v
                    <= max,
                None => !(all_digits(t) && decimal_value(t) <= max),
            }
        }),
{
    let ghost t = d@.skip(from as int);
    let mut v: u64 = 0;
    let mut i: usize = from;
    while i < d.len()
        invariant
            from <= i <= d.len(),
            t == d@.skip(from as int),
            all_digits(t.take(i - from)),
            v == decimal_value(t.take(i - from)),
            v <= max,
        decreases d.len() - i,
    {
        let c = d[i];
        if !('0' <= c && c <= '9') {
            assert(!is_digit(t[i - from]));
            return None;
        }
        let dv: u64 = ((c as u32) - ('0' as u32)) as u64;
        let ghost k = (i - from) as int;
        assert(t.take(k + 1).drop_last() =~= t.take(k));
        assert(t.take(k + 1).last() == c);
        if dv > max || v > (max - dv) / 10 {
            proof {
                assert(v * 10 + dv > max) by (nonlinear_arith)
                    requires
                        dv > max || v > (max - dv) / 10,
                ;
                assert(decimal_value(t.take(k + 1)) > max);
                if all_digits(t) {
                    lemma_decimal_prefix_le(t, k + 1);
                }
            }
            return None;
        }
        proof {
            assert(v * 10 + dv <= max) by (nonlinear_arith)
                requires
                    v <= (max - dv) / 10,
                    dv <= max,
            ;
        }
        v = v * 10 + dv;
        i += 1;
        assert(all_digits(t.take(i - from))) by {
            assert forall|j: int| 0 <= j < i - from implies #[trigger] is_digit(
                t.take(i - from)[j],
            ) by {
                if j < k {
                    assert(t.take(i - from)[j] == t.take(k)[j]);
                }
            }
        }
    }
    assert(t.take(d.len() - from) =~= t);
    Some(v)
}

/// Parses an unsigned decimal integer no larger than `max`, as `FromStr` of the unsigned
/// integer types does.
pub fn parse_unsigned(s: &str, max: u64) -> (r: Option<u64>)
    ensures
        r matches Some(x) ==> x <= max,
        spec_parse_unsigned(s@, max as int) matches Some(v) ==> 0 <= v,
        match spec_parse_unsigned(s@, max as int) {
            Some(v) => r == Some(v as u64),
            None => r is None,
        },
{
    let cs = chars_of(s);
    let from: usize = if cs.len() > 0 && cs[0] == '+' { 1 } else { 0 };
    assert(unsigned_body(s@) =~= cs@.skip(from as int));
    proof {
        if all_digits(unsigned_body(s@)) {
            lemma_decimal_nonneg(unsigned_body(s@));
        }
    }
    if from >= cs.len() {
        return None;
    }
    parse_digits(cs.as_slice(), from, max)
}

/// Parses a signed decimal integer within `-(max + 1) ..= max`, as `FromStr` of the signed
/// integer types does.
pub fn parse_signed(s: &str, max: u64) -> (r: Option<i128>)
    requires
        max < u64::MAX,
    ensures
        r matches Some(x) ==> -(max + 1) <= x <= max,
        spec_parse_signed(s@, max as int) matches Some(v) ==> -(max + 1) <= v <= max,
        match spec_parse_signed(s@, max as int) {
            Some(v) => r == Some(v as i128),
            None => r is None,
        },
{
    let cs = chars_of(s);
    if cs.len() > 0 && cs[0] == '-' {
        assert(s@.drop_first() =~= cs@.skip(1));
        proof {
            if all_digits(s@.drop_first()) {
                lemma_decimal_nonneg(s@.drop_first());
            }
        }
        if cs.len() == 1 {
            return None;
        }
        match parse_digits(cs.as_slice(), 1, max + 1) {
            Some(v) => Some(-(v as i128)),
            None => None,
        }
    } else {
        match parse_unsigned(s, max) {
            Some(v) => Some(v as i128),
            None => None,
        }
    }
}

/// `u8::from_str`.
pub fn parse_u8(s: &str) -> (r: Option<u8>)
    ensures
        spec_parse_unsigned(s@, u8::MAX as int) matches Some(v) ==> 0 <= v <= u8::MAX,
        match spec_parse_unsigned(s@, u8::MAX as int) {
            Some(v) => r == Some(v as u8),
            None => r is None,
        },
{
    match parse_unsigned(s, 255) {
        Some(v) => {
            assert(v <= 255);
            Some(v as u8)
        },
        None => None,
    }
}

/// `u16::from_str`.
pub fn parse_u16(s: &str) -> (r: Option<u16>)
    ensures
        spec_parse_unsigned(s@, u16::MAX as int) matches Some(v) ==> 0 <= v <= u16::MAX,
        match spec_parse_unsigned(s@, u16::MAX as int) {
            Some(v) => r == Some(v as u16),
            None => r is None,
        },
{
    match parse_unsigned(s, 65535) {
        Some(v) => {
            assert(v <= 65535);
            Some(v as u16)
        },
        None => None,
    }
}

/// `u32::from_str`.
pub fn parse_u32(s: &str) -> (r: Option<u32>)
    ensures
        spec_parse_unsigned(s@, u32::MAX as int) matches Some(v) ==> 0 <= v <= u32::MAX,
        match spec_parse_unsigned(s@, u32::MAX as int) {
            Some(v) => r == Some(v as u32),
            None => r is None,
        },
{
    match parse_unsigned(s, 4294967295) {
        Some(v) => {
            assert(v <= 4294967295);
            Some(v as u32)
        },
        None => None,
    }
}

/// `u64::from_str`.
pub fn parse_u64(s: &str) -> (r: Option<u64>)
    ensures
        spec_parse_unsigned(s@, u64::MAX as int) matches Some(v) ==> 0 <= v <= u64::MAX,
        match spec_parse_unsigned(s@, u64::MAX as int) {
            Some(v) => r == Some(v as u64),
            None => r is None,
        },
{
    parse_unsigned(s, u64::MAX)
}

/// `i16::from_str`.
pub fn parse_i16(s: &str) -> (r: Option<i16>)
    ensures
        spec_parse_signed(s@, i16::MAX as int) matches Some(v) ==> i16::MIN <= v <= i16::MAX,
        match spec_parse_signed(s@, i16::MAX as int) {
            Some(v) => r == Some(v as i16),
            None => r is None,
        },
{
    match parse_signed(s, 32767) {
        Some(v) => Some(v as i16),
        None => None,
    }
}

/// `i32::from_str`.
pub fn parse_i32(s: &str) -> (r: Option<i32>)
    ensures
        spec_parse_signed(s@, i32::MAX as int) matches Some(v) ==> i32::MIN <= v <= i32::MAX,
        match spec_parse_signed(s@, i32::MAX as int) {
            Some(v) => r == Some(v as i32),
            None => r is None,
        },
{
    match parse_signed(s, 2147483647) {
        Some(v) => {
            assert(-2147483648 <= v <= 2147483647);
            Some(v as i32)
        },
        None => None,
    }
}

/// `i64::from_str`.
pub fn parse_i64(s: &str) -> (r: Option<i64>)
    ensures
        spec_parse_signed(s@, i64::MAX as int) matches Some(v) ==> i64::MIN <= v <= i64::MAX,
        match spec_parse_signed(s@, i64::MAX as int) {
            Some(v) => r == Some(v as i64),
            None => r is None,
        },
{
    match parse_signed(s, 9223372036854775807) {
        Some(v) => Some(v as i64),
        None => None,
    }
}

/// `-` and the digits of the magnitude for a negative number, the digits otherwise.
pub open spec fn signed_decimal_text(v: int) -> Seq<char> {
    if v < 0 {
        seq!['-'] + decimal_text((-v) as nat)
    } else {
        decimal_text(v as nat)
    }
}

/// Writes `v` in decimal, as `i64::to_string` does.
pub fn i64_to_text(v: i64) -> (r: String)
    ensures
        r@ == signed_decimal_text(v as int),
{
    if v < 0 {
        let m: u64 = (-(v as i128)) as u64;
        let digits = u64_to_text(m);
        let mut cs: Vec<char> = Vec::new();
        cs.push('-');
        let dc = chars_of(digits.as_str());
        let mut i: usize = 0;
        while i < dc.len()
            invariant
                i <= dc@.len(),
                cs@ == seq!['-'] + dc@.take(i as int),
            decreases dc@.len() - i,
        {
            cs.push(dc[i]);
            i += 1;
            assert(cs@ =~= seq!['-'] + dc@.take(i as int));
        }
        assert(dc@.take(dc@.len() as int) =~= dc@);
        string_of(cs.as_slice())
    } else {
        u64_to_text(v as u64)
    }
}

/// The upper-case hexadecimal digit of `d` (below 16).
pub open spec fn hex_upper(d: int) -> char {
    if d < 10 {
        ((d + 48) as u8) as char
    } else {
        ((d + 55) as u8) as char
    }
}

/// A byte as two upper-case hexadecimal digits (`format!("{:02X}", v)`).
pub open spec fn hex2_text(v: u8) -> Seq<char> {
    seq![hex_upper((v / 16) as int), hex_upper((v % 16) as int)]
}

fn hex_digit_char(d: u8) -> (r: char)
    requires
        d < 16,
    ensures
        r == hex_upper(d as int),
{
    if d < 10 {
        (d + 48) as char
    } else {
        (d + 55) as char
    }
}

/// Writes a byte as two upper-case hexadecimal digits.
pub fn u8_to_hex2(v: u8) -> (r: String)
    ensures
        r@ == hex2_text(v),
{
    let mut cs: Vec<char> = Vec::new();
    cs.push(hex_digit_char(v / 16));
    cs.push(hex_digit_char(v % 16));
    assert(cs@ =~= hex2_text(v));
    string_of(cs.as_slice())
}

/// Joins two strings.
pub fn concat(a: &str, b: &str) -> (r: String)
    ensures
        r@ == a@ + b@,
{
    let mut cs = chars_of(a);
    let bc = chars_of(b);
    let mut i: usize = 0;
    while i < bc.len()
        invariant
            i <= bc@.len(),
            bc@ == b@,
            cs@ == a@ + b@.take(i as int),
        decreases bc@.len() - i,
    {
        cs.push(bc[i]);
        i += 1;
        assert(cs@ =~= a@ + b@.take(i as int));
    }
    assert(b@.take(bc@.len() as int) =~= b@);
    string_of(cs.as_slice())
}

/// The decimal digits of `v`, most significant first, without leading zeros (`0` for zero).
pub open spec fn decimal_text(v: nat) -> Seq<char>
    decreases v,
{
    if v < 10 {
        seq![((v + 48) as u8) as char]
    } else {
        decimal_text(v / 10).push((((v % 10) + 48) as u8) as char)
    }
}

/// Writes `v` in decimal, as `u64::to_string` does.
pub fn u64_to_text(v: u64) -> (r: String)
    ensures
        r@ == decimal_text(v as nat),
    decreases v,
{
    let d: u8 = (v % 10) as u8 + 48;
    if v < 10 {
        let cs = vec![d as char];
        assert(cs@ =~= decimal_text(v as nat));
        string_of(cs.as_slice())
    } else {
        let head = u64_to_text(v / 10);
        let mut cs = chars_of(head.as_str());
        cs.push(d as char);
        assert(cs@ =~= decimal_text(v as nat));
        string_of(cs.as_slice())
    }
}

/// The text that `{:?}` gives for a string: the string in double quotes with escapes.
pub uninterp spec fn debug_text(s: Seq<char>) -> Seq<char>;

/// Formats a string with `{:?}` (the `Debug` impl of `str`).
#[verifier::external_body]
pub fn debug_quoted(s: &str) -> (r: String)
    ensures
        r@ == debug_text(s@),
{
    format!("{s:?}")
}

/// The first index from `i` of a character that is no white space.
pub open spec fn skip_ws(s: Seq<char>, i: int) -> int
    decreases s.len() - i,
{
    if i >= s.len() {
        s.len() as int
    } else if whitespace(s[i]) {
        skip_ws(s, i + 1)
    } else {
        i
    }
}

/// The first index from `i` of a white space character.
pub open spec fn word_end(s: Seq<char>, i: int) -> int
    decreases s.len() - i,
{
    if i >= s.len() {
        s.len() as int
    } else if whitespace(s[i]) {
        i
    } else {
        word_end(s, i + 1)
    }
}

/// The bounds of `skip_ws` and `word_end`.
pub proof fn lemma_ws_bounds(s: Seq<char>, i: int)
    requires
        0 <= i,
    ensures
        i <= s.len() ==> i <= skip_ws(s, i) <= s.len(),
        i <= s.len() ==> i <= word_end(s, i) <= s.len(),
        i < s.len() && !whitespace(s[i]) ==> word_end(s, i) > i,
        i <= s.len() && skip_ws(s, i) < s.len() ==> !whitespace(s[skip_ws(s, i)]),
    decreases s.len() - i,
{
    if i < s.len() {
        lemma_ws_bounds(s, i + 1);
    }
}

/// The words of `s` from index `i` on: the runs of characters that are no white space
/// (`str::split_whitespace`).
pub open spec fn words_from(s: Seq<char>, i: int) -> Seq<Seq<char>>
    decreases s.len() - i,
{
    if 0 <= i <= s.len() {
        let j = skip_ws(s, i);
        proof {
            lemma_ws_bounds(s, i);
            lemma_ws_bounds(s, j);
        }
        if j >= s.len() {
            seq![]
        } else {
            let k = word_end(s, j);
            seq![s.subrange(j, k)] + words_from(s, k)
        }
    } else {
        seq![]
    }
}

/// The words of `s`, as `str::split_whitespace` gives them.
pub open spec fn words(s: Seq<char>) -> Seq<Seq<char>> {
    words_from(s, 0)
}

fn words_from_exec(s: &Vec<char>, i: usize) -> (r: Vec<String>)
    requires
        i <= s@.len(),
    ensures
        r@.map_values(|w: String| w@) == words_from(s@, i as int),
    decreases s@.len() - i,
{
    let mut j = i;
    while j < s.len() && is_whitespace(s[j])
        invariant
            i <= j <= s@.len(),
            skip_ws(s@, i as int) == skip_ws(s@, j as int),
        decreases s@.len() - j,
    {
        j += 1;
    }
    proof {
        lemma_ws_bounds(s@, i as int);
        lemma_ws_bounds(s@, j as int);
    }
    if j >= s.len() {
        let r: Vec<String> = Vec::new();
        assert(r@.map_values(|w: String| w@) =~= words_from(s@, i as int));
        return r;
    }
    let mut k = j;
    while k < s.len() && !is_whitespace(s[k])
        invariant
            j <= k <= s@.len(),
            word_end(s@, j as int) == word_end(s@, k as int),
        decreases s@.len() - k,
    {
        k += 1;
    }
    let word = string_of(slice_range(s.as_slice(), j, k).as_slice());
    let mut r = words_from_exec(s, k);
    let ghost rest = r@;
    r.insert(0, word);
    assert(r@.map_values(|w: String| w@) =~= seq![s@.subrange(j as int, k as int)]
        + rest.map_values(|w: String| w@));
    r
}

/// Splits a text into its words (`str::split_whitespace`).
pub fn split_words(s: &str) -> (r: Vec<String>)
    ensures
        r@.map_values(|w: String| w@) == words(s@),
{
    let cs = chars_of(s);
    words_from_exec(&cs, 0)
}

/// The first index from `i` of the character `c`.
pub open spec fn index_of(s: Seq<char>, c: char, i: int) -> int
    decreases s.len() - i,
{
    if i >= s.len() {
        s.len() as int
    } else if s[i] == c {
        i
    } else {
        index_of(s, c, i + 1)
    }
}

pub proof fn lemma_index_of_bounds(s: Seq<char>, c: char, i: int)
    requires
        0 <= i <= s.len(),
    ensures
        i <= index_of(s, c, i) <= s.len(),
    decreases s.len() - i,
{
    if i < s.len() {
        lemma_index_of_bounds(s, c, i + 1);
    }
}

/// The pieces of `s` between the characters `c` (`str::split` on a character).
pub open spec fn split_on(s: Seq<char>, c: char) -> Seq<Seq<char>>
    decreases s.len(),
{
    let p = index_of(s, c, 0);
    proof {
        lemma_index_of_bounds(s, c, 0);
    }
    if p >= s.len() {
        seq![s]
    } else {
        seq![s.take(p)] + split_on(s.skip(p + 1), c)
    }
}

fn split_on_exec(s: &Vec<char>, c: char) -> (r: Vec<String>)
    ensures
        r@.map_values(|w: String| w@) == split_on(s@, c),
    decreases s@.len(),
{
    let mut p: usize = 0;
    while p < s.len() && s[p] != c
        invariant
            p <= s@.len(),
            index_of(s@, c, 0) == index_of(s@, c, p as int),
        decreases s@.len() - p,
    {
        p += 1;
    }
    if p >= s.len() {
        let r = vec![string_of(s.as_slice())];
        assert(r@.map_values(|w: String| w@) =~= split_on(s@, c));
        return r;
    }
    let head = string_of(slice_range(s.as_slice(), 0, p).as_slice());
    let tail = slice_skip(s.as_slice(), p + 1);
    let mut r = split_on_exec(&tail, c);
    let ghost rest = r@;
    r.insert(0, head);
    assert(r@.map_values(|w: String| w@) =~= seq![s@.take(p as int)] + rest.map_values(
        |w: String| w@,
    ));
    assert(s@.subrange(0, p as int) =~= s@.take(p as int));
    r
}

/// Splits a text at each character `c` (`str::split` on a character).
pub fn split_on_char(s: &str, c: char) -> (r: Vec<String>)
    ensures
        r@.map_values(|w: String| w@) == split_on(s@, c),
{
    let cs = chars_of(s);
    split_on_exec(&cs, c)
}

/// The text before and after the first `c` in `s`, if `c` occurs (`str::split_once`).
pub open spec fn split_once(s: Seq<char>, c: char) -> Option<(Seq<char>, Seq<char>)> {
    let p = index_of(s, c, 0);
    if p >= s.len() {
        None
    } else {
        Some((s.take(p), s.skip(p + 1)))
    }
}

/// Splits a text at the first character `c`, if it occurs.
pub fn split_once_char(s: &str, c: char) -> (r: Option<(String, String)>)
    ensures
        match split_once(s@, c) {
            None => r is None,
            Some((a, b)) => r matches Some((x, y)) && x@ == a && y@ == b,
        },
{
    let cs = chars_of(s);
    let mut p: usize = 0;
    while p < cs.len() && cs[p] != c
        invariant
            p <= cs@.len(),
            cs@ == s@,
            index_of(s@, c, 0) == index_of(s@, c, p as int),
        decreases cs@.len() - p,
    {
        p += 1;
    }
    if p >= cs.len() {
        return None;
    }
    let head = string_of(slice_range(cs.as_slice(), 0, p).as_slice());
    let tail = string_of(slice_skip(cs.as_slice(), p + 1).as_slice());
    assert(cs@.subrange(0, p as int) =~= s@.take(p as int));
    Some((head, tail))
}

/// The value of a hexadecimal digit, if `c` is one.
pub open spec fn hex_digit_of(c: char) -> Option<int> {
    if '0' <= c && c <= '9' {
        Some(c as int - '0' as int)
    } else if 'A' <= c && c <= 'F' {
        Some(c as int - 'A' as int + 10)
    } else if 'a' <= c && c <= 'f' {
        Some(c as int - 'a' as int + 10)
    } else {
        None
    }
}

/// Every character is a hexadecimal digit.
pub open spec fn all_hex(s: Seq<char>) -> bool {
    forall|i: int| 0 <= i < s.len() ==> #[trigger] hex_digit_of(s[i]) is Some
}

/// The value of a run of hexadecimal digits.
pub open spec fn hex_value(s: Seq<char>) -> int
    decreases s.len(),
{
    if s.len() == 0 {
        0
    } else {
        hex_value(s.drop_last()) * 16 + hex_digit_of(s.last())->0
    }
}

/// What `i32::from_str_radix(s, 16)` gives: an optional sign, one hexadecimal digit or more,
/// and the value within `i32`.
pub open spec fn spec_parse_hex_i32(s: Seq<char>) -> Option<int> {
    let neg = s.len() > 0 && s[0] == '-';
    let d = if s.len() > 0 && (s[0] == '-' || s[0] == '+') {
        s.drop_first()
    } else {
        s
    };
    if d.len() > 0 && all_hex(d) && (if neg {
        hex_value(d) <= 0x8000_0000
    } else {
        hex_value(d) <= 0x7fff_ffff
    }) {
        Some(
            if neg {
                -hex_value(d)
            } else {
                hex_value(d)
            },
        )
    } else {
        None
    }
}

proof fn lemma_hex_prefix(s: Seq<char>, k: int)
    requires
        all_hex(s),
        0 <= k <= s.len(),
    ensures
        0 <= hex_value(s.take(k)) <= hex_value(s),
    decreases s.len() - k,
{
    if k < s.len() {
        lemma_hex_prefix(s, k + 1);
        assert(s.take(k + 1).drop_last() =~= s.take(k));
        assert(hex_digit_of(s[k]) is Some);
    } else {
        assert(s.take(k) =~= s);
    }
    lemma_hex_nonneg(s.take(k));
}

proof fn lemma_hex_nonneg(s: Seq<char>)
    ensures
        all_hex(s) ==> hex_value(s) >= 0,
    decreases s.len(),
{
    if s.len() > 0 {
        lemma_hex_nonneg(s.drop_last());
        if all_hex(s) {
            assert(hex_digit_of(s[s.len() - 1]) is Some);
            assert(all_hex(s.drop_last()));
        }
    }
}

/// `i32::from_str_radix(s, 16)`.
pub fn parse_hex_i32(s: &str) -> (r: Option<i32>)
    ensures
        match spec_parse_hex_i32(s@) {
            Some(v) => r == Some(v as i32) && i32::MIN <= v <= i32::MAX,
            None => r is None,
        },
{
    let cs = chars_of(s);
    let neg = cs.len() > 0 && cs[0] == '-';
    let from: usize = if cs.len() > 0 && (cs[0] == '-' || cs[0] == '+') { 1 } else { 0 };
    let ghost d = cs@.skip(from as int);
    assert(d =~= (if s@.len() > 0 && (s@[0] == '-' || s@[0] == '+') {
        s@.drop_first()
    } else {
        s@
    }));
    if from >= cs.len() {
        return None;
    }
    let max: u64 = if neg { 0x8000_0000 } else { 0x7fff_ffff };
    let mut v: u64 = 0;
    let mut i: usize = from;
    while i < cs.len()
        invariant
            from <= i <= cs@.len(),
            d == cs@.skip(from as int),
            cs@ == s@,
            neg == (s@.len() > 0 && s@[0] == '-'),
            d == (if s@.len() > 0 && (s@[0] == '-' || s@[0] == '+') {
                s@.drop_first()
            } else {
                s@
            }),
            max == (if neg { 0x8000_0000u64 } else { 0x7fff_ffffu64 }),
            all_hex(d.take(i - from)),
            v == hex_value(d.take(i - from)),
            v <= max,
            max <= 0x8000_0000,
        decreases cs@.len() - i,
    {
        let c = cs[i];
        let ghost k = (i - from) as int;
        assert(d[k] == c);
        let dv: u64 = if '0' <= c && c <= '9' {
            ((c as u32) - 48) as u64
        } else if 'A' <= c && c <= 'F' {
            ((c as u32) - 55) as u64
        } else if 'a' <= c && c <= 'f' {
            ((c as u32) - 87) as u64
        } else {
            assert(hex_digit_of(d[k]) is None);
            assert(!all_hex(d));
            return None;
        };
        assert(d.take(k + 1).drop_last() =~= d.take(k));
        assert(d.take(k + 1).last() == c);
        if dv > max || v > (max - dv) / 16 {
            proof {
                assert(v * 16 + dv > max) by (nonlinear_arith)
                    requires
                        v > (max - dv) / 16 || dv > max,
                        dv < 16,
                ;
                if all_hex(d) {
                    lemma_hex_prefix(d, k + 1);
                }
            }
            return None;
        }
        proof {
            assert(v * 16 + dv <= max) by (nonlinear_arith)
                requires
                    v <= (max - dv) / 16,
                    dv <= max,
            ;
        }
        v = v * 16 + dv;
        i += 1;
        assert(all_hex(d.take(i - from))) by {
            assert forall|j: int| 0 <= j < i - from implies #[trigger] hex_digit_of(
                d.take(i - from)[j],
            ) is Some by {
                if j < k {
                    assert(d.take(i - from)[j] == d.take(k)[j]);
                }
            }
        }
    }
    assert(d.take(cs@.len() - from) =~= d);
    if neg {
        Some(-(v as i64) as i32)
    } else {
        Some(v as i32)
    }
}

/// The optional text holds `s`.
pub open spec fn holds_text(o: Option<String>, s: Seq<char>) -> bool {
    match o {
        Some(t) => t@ == s,
        None => false,
    }
}

/// Whether a text has no character (`str::is_empty`).
pub fn is_empty_text(s: &str) -> (r: bool)
    ensures
        r == (s@.len() == 0),
{
    chars_of(s).len() == 0
}

/// Whether two texts are equal.
pub fn text_eq(a: &str, b: &str) -> (r: bool)
    ensures
        r == (a@ == b@),
{
    let ac = chars_of(a);
    let bc = chars_of(b);
    if ac.len() != bc.len() {
        return false;
    }
    let mut i: usize = 0;
    while i < ac.len()
        invariant
            ac@ == a@,
            bc@ == b@,
            ac@.len() == bc@.len(),
            i <= ac@.len(),
            forall|j: int| 0 <= j < i ==> ac@[j] == bc@[j],
        decreases ac@.len() - i,
    {
        if ac[i] != bc[i] {
            return false;
        }
        i += 1;
    }
    assert(a@ =~= b@);
    true
}

/// The last index before `j` of a character that is no white space, plus one.
pub open spec fn trim_end_at(s: Seq<char>, j: int) -> int
    decreases j,
{
    if j <= 0 {
        0
    } else if whitespace(s[j - 1]) {
        trim_end_at(s, j - 1)
    } else {
        j
    }
}

proof fn lemma_trim_end_bounds(s: Seq<char>, j: int)
    requires
        0 <= j <= s.len(),
    ensures
        0 <= trim_end_at(s, j) <= j,
    decreases j,
{
    if j > 0 {
        lemma_trim_end_bounds(s, j - 1);
    }
}

/// The text without white space at either end (`str::trim`).
pub open spec fn trimmed(s: Seq<char>) -> Seq<char> {
    let a = skip_ws(s, 0);
    let b = trim_end_at(s, s.len() as int);
    if a < b {
        s.subrange(a, b)
    } else {
        seq![]
    }
}

/// Removes white space at either end (`str::trim`).
pub fn trim(s: &str) -> (r: String)
    ensures
        r@ == trimmed(s@),
{
    let cs = chars_of(s);
    let mut a: usize = 0;
    while a < cs.len() && is_whitespace(cs[a])
        invariant
            a <= cs@.len(),
            cs@ == s@,
            skip_ws(s@, 0) == skip_ws(s@, a as int),
        decreases cs@.len() - a,
    {
        a += 1;
    }
    proof {
        lemma_ws_bounds(s@, a as int);
    }
    let mut b: usize = cs.len();
    while b > 0 && is_whitespace(cs[b - 1])
        invariant
            b <= cs@.len(),
            cs@ == s@,
            trim_end_at(s@, s@.len() as int) == trim_end_at(s@, b as int),
        decreases b,
    {
        b -= 1;
    }
    proof {
        lemma_trim_end_bounds(s@, b as int);
    }
    if a < b {
        string_of(slice_range(cs.as_slice(), a, b).as_slice())
    } else {
        String::new()
    }
}

/// The text without every leading copy of `p` (`str::trim_start_matches` with a text).
pub open spec fn strip_all(s: Seq<char>, p: Seq<char>) -> Seq<char>
    decreases s.len(),
{
    if p.len() > 0 && p.len() <= s.len() && s.take(p.len() as int) == p {
        strip_all(s.skip(p.len() as int), p)
    } else {
        s
    }
}

/// Whether `s` starts with `p`.
pub open spec fn starts_with(s: Seq<char>, p: Seq<char>) -> bool {
    p.len() <= s.len() && s.take(p.len() as int) == p
}

fn starts_with_chars(s: &Vec<char>, from: usize, p: &Vec<char>) -> (r: bool)
    requires
        from <= s@.len(),
    ensures
        r == starts_with(s@.skip(from as int), p@),
{
    let n = s.len();
    if p.len() > n - from {
        return false;
    }
    let mut i: usize = 0;
    while i < p.len()
        invariant
            n == s@.len(),
            p@.len() <= s@.len() - from,
            from <= s@.len(),
            i <= p@.len(),
            forall|j: int| 0 <= j < i ==> s@[from + j] == p@[j],
        decreases p@.len() - i,
    {
        if s[from + i] != p[i] {
            assert(s@.skip(from as int).take(p@.len() as int)[i as int] != p@[i as int]);
            return false;
        }
        i += 1;
    }
    assert(s@.skip(from as int).take(p@.len() as int) =~= p@);
    true
}

/// Whether `s` starts with `p` (`str::starts_with`).
pub fn text_starts_with(s: &str, p: &str) -> (r: bool)
    ensures
        r == starts_with(s@, p@),
{
    let cs = chars_of(s);
    let pc = chars_of(p);
    assert(cs@.skip(0) =~= cs@);
    starts_with_chars(&cs, 0, &pc)
}

/// Removes every leading copy of `p` (`str::trim_start_matches`).
pub fn strip_all_prefix(s: &str, p: &str) -> (r: String)
    ensures
        r@ == strip_all(s@, p@),
{
    let cs = chars_of(s);
    let pc = chars_of(p);
    let mut from: usize = 0;
    if pc.len() == 0 {
        return string_of(cs.as_slice());
    }
    assert(s@.skip(0) =~= s@);
    while from <= cs.len() && starts_with_chars(&cs, from, &pc)
        invariant
            from <= cs@.len(),
            pc@.len() > 0,
            cs@ == s@,
            pc@ == p@,
            strip_all(s@, p@) == strip_all(s@.skip(from as int), p@),
        decreases cs@.len() - from,
    {
        assert(s@.skip(from as int).skip(pc@.len() as int) =~= s@.skip(from + pc@.len()));
        from = from + pc.len();
    }
    let rest = slice_skip(cs.as_slice(), from);
    string_of(rest.as_slice())
}

} // verus!
