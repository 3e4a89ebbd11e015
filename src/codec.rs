//! The chat wire format: a JSON request `{"message": "<text>"}` and a JSON
//! object response with optional `response` and `error` text fields.
use vstd::prelude::*;
use crate::text::{BoundedText, byte_len};

verus! {

/// Capacity of an encoded request, in bytes.
pub const REQUEST_CAPACITY: usize = 1024;

/// Capacity of a decoded `response` text, in bytes.
pub const RESPONSE_CAPACITY: usize = 2048;

/// Capacity of a decoded `error` text, in bytes.
pub const ERROR_CAPACITY: usize = 256;

/// Relies on `String::push`: appends one character.
#[verifier::external_body]
pub(crate) fn push_char(s: &mut String, c: char)
    ensures
        final(s)@ == old(s)@.push(c),
{
    s.push(c);
}

// ---------------------------------------------------------------------------
// Encoding
// ---------------------------------------------------------------------------

/// The hexadecimal digit for `d < 16`.
pub open spec fn hex_digit(d: u8) -> char {
    if d < 10 {
        ((48 + d) as u8) as char
    } else {
        ((87 + d) as u8) as char
    }
}

/// How one character stands inside a JSON string literal.
pub open spec fn escape_char(c: char) -> Seq<char> {
    if c == '"' {
        seq!['\\', '"']
    } else if c == '\\' {
        seq!['\\', '\\']
    } else if c == '\n' {
        seq!['\\', 'n']
    } else if c == '\r' {
        seq!['\\', 'r']
    } else if c == '\t' {
        seq!['\\', 't']
    } else if (c as u32) < 0x20 {
        seq!['\\', 'u', '0', '0', hex_digit(((c as u32) / 16) as u8), hex_digit(((c as u32) % 16) as u8)]
    } else {
        seq![c]
    }
}

/// The JSON string-literal body of `s` (without the quotes).
pub open spec fn escape(s: Seq<char>) -> Seq<char>
    decreases s.len(),
{
    if s.len() == 0 {
        Seq::empty()
    } else {
        escape(s.drop_last()) + escape_char(s.last())
    }
}

/// The wire text of a chat request carrying `message`.
pub open spec fn request_text(message: Seq<char>) -> Seq<char> {
    seq!['{', '"', 'm', 'e', 's', 's', 'a', 'g', 'e', '"', ':', ' ', '"'] + escape(message)
        + seq!['"', '}']
}

// ---------------------------------------------------------------------------
// Decoding
// ---------------------------------------------------------------------------

pub open spec fn is_ws(c: char) -> bool {
    c == ' ' || c == '\t' || c == '\n' || c == '\r'
}

/// The first position at or after `i` that holds no whitespace.
pub open spec fn skip_ws(s: Seq<char>, i: int) -> int
    decreases s.len() - i,
{
    if 0 <= i < s.len() && is_ws(s[i]) {
        skip_ws(s, i + 1)
    } else {
        i
    }
}

/// The value of a hexadecimal digit.
pub open spec fn hex_value(c: char) -> Option<nat> {
    if '0' <= c && c <= '9' {
        Some(((c as u32) - ('0' as u32)) as nat)
    } else if 'a' <= c && c <= 'f' {
        Some(((c as u32) - ('a' as u32) + 10) as nat)
    } else if 'A' <= c && c <= 'F' {
        Some(((c as u32) - ('A' as u32) + 10) as nat)
    } else {
        None
    }
}

/// The character that a one-letter escape `\e` stands for.
pub open spec fn simple_unescape(e: char) -> Option<char> {
    if e == '"' {
        Some('"')
    } else if e == '\\' {
        Some('\\')
    } else if e == '/' {
        Some('/')
    } else if e == 'b' {
        Some('\x08')
    } else if e == 'f' {
        Some('\x0c')
    } else if e == 'n' {
        Some('\n')
    } else if e == 'r' {
        Some('\r')
    } else if e == 't' {
        Some('\t')
    } else {
        None
    }
}

/// The value of the four hexadecimal digits from `j` on.
pub open spec fn hex4_at(s: Seq<char>, j: int) -> Option<nat> {
    if 0 <= j && j + 3 < s.len() && hex_value(s[j]) is Some && hex_value(s[j + 1]) is Some
        && hex_value(s[j + 2]) is Some && hex_value(s[j + 3]) is Some {
        Some(
            hex_value(s[j])->0 * 4096 + hex_value(s[j + 1])->0 * 256 + hex_value(s[j + 2])->0 * 16
                + hex_value(s[j + 3])->0,
        )
    } else {
        None
    }
}

pub open spec fn is_high_surrogate(v: nat) -> bool {
    0xD800 <= v && v < 0xDC00
}

pub open spec fn is_low_surrogate(v: nat) -> bool {
    0xDC00 <= v && v < 0xE000
}

/// The code point that a surrogate pair stands for.
pub open spec fn pair_code(high: nat, low: nat) -> nat {
    (0x10000 + (high - 0xD800) * 0x400 + (low - 0xDC00)) as nat
}

/// The escape sequence whose backslash stands at `i`: the character it stands
/// for and the position after it. `\uXXXX` gives that code point; a high
/// surrogate must be followed by `\uXXXX` with a low one, and the pair gives
/// one character; a lone low surrogate is refused.
pub open spec fn escape_at(s: Seq<char>, i: int) -> Option<(char, int)> {
    if !(0 <= i && i + 1 < s.len()) {
        None
    } else if s[i + 1] == 'u' {
        match hex4_at(s, i + 2) {
            None => None,
            Some(v) => if is_low_surrogate(v) {
                None
            } else if is_high_surrogate(v) {
                if i + 7 < s.len() && s[i + 6] == '\\' && s[i + 7] == 'u' {
                    match hex4_at(s, i + 8) {
                        Some(w) => if is_low_surrogate(w) {
                            Some(((pair_code(v, w) as u32) as char, i + 12))
                        } else {
                            None
                        },
                        None => None,
                    }
                } else {
                    None
                }
            } else {
                Some(((v as u32) as char, i + 6))
            },
        }
    } else {
        match simple_unescape(s[i + 1]) {
            Some(c) => Some((c, i + 2)),
            None => None,
        }
    }
}

/// Decodes the rest of a string literal from `i` on, after `acc` was read:
/// the whole text and the position after the closing quote.
pub open spec fn string_rest(s: Seq<char>, i: int, acc: Seq<char>) -> Option<(Seq<char>, int)>
    decreases s.len() - i,
{
    if !(0 <= i < s.len()) {
        None
    } else if s[i] == '"' {
        Some((acc, i + 1))
    } else if s[i] == '\\' {
        match escape_at(s, i) {
            Some((c, k)) => if i < k <= s.len() {
                string_rest(s, k, acc.push(c))
            } else {
                None
            },
            None => None,
        }
    } else if (s[i] as u32) < 0x20 {
        None
    } else {
        string_rest(s, i + 1, acc.push(s[i]))
    }
}

/// The string literal whose opening quote stands at `i`.
pub open spec fn string_at(s: Seq<char>, i: int) -> Option<(Seq<char>, int)> {
    if 0 <= i < s.len() && s[i] == '"' {
        string_rest(s, i + 1, Seq::empty())
    } else {
        None
    }
}

/// A JSON value as the decoder sees it: text, `null`, or anything else.
pub enum Scalar {
    Text(Seq<char>),
    Null,
    Other,
}

pub open spec fn is_digit(c: char) -> bool {
    '0' <= c && c <= '9'
}

/// The end of the run of digits that starts at `i`.
pub open spec fn digits_end(s: Seq<char>, i: int) -> int
    decreases s.len() - i,
{
    if 0 <= i < s.len() && is_digit(s[i]) {
        digits_end(s, i + 1)
    } else {
        i
    }
}

/// The end of the exponent part that may start at `c`, if well formed.
pub open spec fn exponent_end(s: Seq<char>, c: int) -> Option<int> {
    if 0 <= c < s.len() && (s[c] == 'e' || s[c] == 'E') {
        let e0 = if c + 1 < s.len() && (s[c + 1] == '+' || s[c + 1] == '-') {
            c + 2
        } else {
            c + 1
        };
        let e1 = digits_end(s, e0);
        if e1 == e0 {
            None
        } else {
            Some(e1)
        }
    } else {
        Some(c)
    }
}

/// The end of the JSON number that starts at `i`: an optional minus, `0` or
/// digits not starting with `0`, an optional fraction, an optional exponent.
pub open spec fn number_at(s: Seq<char>, i: int) -> Option<int> {
    let a = if 0 <= i < s.len() && s[i] == '-' {
        i + 1
    } else {
        i
    };
    if !(0 <= a < s.len() && is_digit(s[a])) {
        None
    } else {
        let b = if s[a] == '0' {
            a + 1
        } else {
            digits_end(s, a)
        };
        if 0 <= b < s.len() && s[b] == '.' {
            let d = digits_end(s, b + 1);
            if d == b + 1 {
                None
            } else {
                exponent_end(s, d)
            }
        } else {
            exponent_end(s, b)
        }
    }
}

/// Whether `word` stands in `s` at `i`.
pub open spec fn word_at(s: Seq<char>, i: int, word: Seq<char>) -> bool {
    0 <= i && i + word.len() <= s.len() && s.subrange(i, i + word.len()) == word
}

/// The end of the JSON value that starts at `i`: a string, `null`, `true`,
/// `false`, a number, or an array or object of such values.
pub open spec fn skip_value(s: Seq<char>, i: int) -> Option<int>
    decreases s.len() - i, 0int,
{
    if !(0 <= i < s.len()) {
        None
    } else if s[i] == '"' {
        match string_at(s, i) {
            Some((_, k)) => Some(k),
            None => None,
        }
    } else if s[i] == '[' || s[i] == '{' {
        let close = if s[i] == '[' {
            ']'
        } else {
            '}'
        };
        let j = skip_ws(s, i + 1);
        if !(i < j <= s.len()) {
            None
        } else if j < s.len() && s[j] == close {
            Some(j + 1)
        } else if s[i] == '[' {
            skip_elements(s, j)
        } else {
            skip_members(s, j)
        }
    } else if word_at(s, i, seq!['n', 'u', 'l', 'l']) || word_at(s, i, seq!['t', 'r', 'u', 'e']) {
        Some(i + 4)
    } else if word_at(s, i, seq!['f', 'a', 'l', 's', 'e']) {
        Some(i + 5)
    } else if s[i] == '-' || is_digit(s[i]) {
        number_at(s, i)
    } else {
        None
    }
}

/// The end of the elements of an array, from the element at `i` through `]`.
pub open spec fn skip_elements(s: Seq<char>, i: int) -> Option<int>
    decreases s.len() - i, 1int,
{
    if !(0 <= i <= s.len()) {
        None
    } else {
        match skip_value(s, i) {
            None => None,
            Some(k) => if !(i < k <= s.len()) {
                None
            } else {
                let d = skip_ws(s, k);
                if 0 <= d < s.len() && s[d] == ']' {
                    Some(d + 1)
                } else if 0 <= d < s.len() && s[d] == ',' {
                    let n = skip_ws(s, d + 1);
                    if i < n <= s.len() {
                        skip_elements(s, n)
                    } else {
                        None
                    }
                } else {
                    None
                }
            },
        }
    }
}

/// The end of the members of an object, from the key at `i` through `}`.
pub open spec fn skip_members(s: Seq<char>, i: int) -> Option<int>
    decreases s.len() - i, 1int,
{
    if !(0 <= i <= s.len()) {
        None
    } else {
        match string_at(s, i) {
            None => None,
            Some((_, j)) => {
                let c = skip_ws(s, j);
                if !(0 <= c < s.len() && s[c] == ':') {
                    None
                } else {
                    let v = skip_ws(s, c + 1);
                    if !(i < v <= s.len()) {
                        None
                    } else {
                        match skip_value(s, v) {
                            None => None,
                            Some(k) => {
                                let d = skip_ws(s, k);
                                if 0 <= d < s.len() && s[d] == '}' {
                                    Some(d + 1)
                                } else if 0 <= d < s.len() && s[d] == ',' {
                                    let n = skip_ws(s, d + 1);
                                    if i < n <= s.len() {
                                        skip_members(s, n)
                                    } else {
                                        None
                                    }
                                } else {
                                    None
                                }
                            },
                        }
                    }
                }
            },
        }
    }
}

/// The value that starts at `i` as the decoder sees it, and the position
/// after it: a string, `null`, or any other JSON value.
pub open spec fn value_at(s: Seq<char>, i: int) -> Option<(Scalar, int)> {
    if !(0 <= i < s.len()) {
        None
    } else if s[i] == '"' {
        match string_at(s, i) {
            Some((t, k)) => Some((Scalar::Text(t), k)),
            None => None,
        }
    } else if word_at(s, i, seq!['n', 'u', 'l', 'l']) {
        Some((Scalar::Null, i + 4))
    } else {
        match skip_value(s, i) {
            Some(k) => Some((Scalar::Other, k)),
            None => None,
        }
    }
}

/// The fields of a chat response that the client reads.
pub struct ResponseFields {
    pub response: Option<Seq<char>>,
    pub error: Option<Seq<char>>,
}

pub open spec fn response_key() -> Seq<char> {
    seq!['r', 'e', 's', 'p', 'o', 'n', 's', 'e']
}

pub open spec fn error_key() -> Seq<char> {
    seq!['e', 'r', 'r', 'o', 'r']
}

/// The text of an optional text field: `null` is absent, other non-text
/// values are refused.
pub open spec fn optional_text(v: Scalar) -> Option<Option<Seq<char>>> {
    match v {
        Scalar::Text(t) => Some(Some(t)),
        Scalar::Null => Some(None),
        Scalar::Other => None,
    }
}

/// `f` after reading member `key: v`. Unknown keys are ignored; a later
/// member replaces an earlier one of the same key.
pub open spec fn apply_member(f: ResponseFields, key: Seq<char>, v: Scalar) -> Option<
    ResponseFields,
> {
    if key == response_key() {
        match optional_text(v) {
            Some(t) => Some(ResponseFields { response: t, error: f.error }),
            None => None,
        }
    } else if key == error_key() {
        match optional_text(v) {
            Some(t) => Some(ResponseFields { response: f.response, error: t }),
            None => None,
        }
    } else {
        Some(f)
    }
}

/// Reads the members of an object from the key that starts at `i` through the
/// closing brace: the fields and the position after the brace.
pub open spec fn members_at(s: Seq<char>, i: int, f: ResponseFields) -> Option<(ResponseFields, int)>
    decreases s.len() - i,
{
    match string_at(s, i) {
        None => None,
        Some((key, j)) => {
            let c = skip_ws(s, j);
            if !(0 <= c < s.len() && s[c] == ':') {
                None
            } else {
                match value_at(s, skip_ws(s, c + 1)) {
                    None => None,
                    Some((v, k)) => match apply_member(f, key, v) {
                        None => None,
                        Some(g) => {
                            let d = skip_ws(s, k);
                            if 0 <= d < s.len() && s[d] == '}' {
                                Some((g, d + 1))
                            } else if 0 <= d < s.len() && s[d] == ',' {
                                let n = skip_ws(s, d + 1);
                                if i < n <= s.len() {
                                    members_at(s, n, g)
                                } else {
                                    None
                                }
                            } else {
                                None
                            }
                        },
                    },
                }
            }
        },
    }
}

/// The fields of the JSON object that makes up the whole of `s` (whitespace
/// around it aside), or `None` when `s` is no such object.
pub open spec fn wire_fields(s: Seq<char>) -> Option<ResponseFields> {
    let i = skip_ws(s, 0);
    let empty = ResponseFields { response: None, error: None };
    if !(0 <= i < s.len() && s[i] == '{') {
        None
    } else {
        let j = skip_ws(s, i + 1);
        let body = if 0 <= j < s.len() && s[j] == '}' {
            Some((empty, j + 1))
        } else {
            members_at(s, j, empty)
        };
        match body {
            Some((f, e)) => if skip_ws(s, e) == s.len() {
                Some(f)
            } else {
                None
            },
            None => None,
        }
    }
}

// ---------------------------------------------------------------------------
// Executable parser
// ---------------------------------------------------------------------------

fn chars_of(s: &str) -> (r: Vec<char>)
    ensures
        r@ == s@,
{
    let n = s.unicode_len();
    let mut r: Vec<char> = Vec::new();
    let mut i: usize = 0;
    while i < n
        invariant
            n == s@.len(),
            i <= n,
            r@ == s@.subrange(0, i as int),
        decreases n - i,
    {
        r.push(s.get_char(i));
        i = i + 1;
    }
    assert(r@ =~= s@);
    r
}

fn skip_ws_exec(s: &Vec<char>, i: usize) -> (r: usize)
    requires
        i <= s@.len(),
    ensures
        r == skip_ws(s@, i as int),
        i <= r <= s@.len(),
{
    let mut j = i;
    while j < s.len() && (s[j] == ' ' || s[j] == '\t' || s[j] == '\n' || s[j] == '\r')
        invariant
            i <= j <= s@.len(),
            skip_ws(s@, i as int) == skip_ws(s@, j as int),
        decreases s@.len() - j,
    {
        j = j + 1;
    }
    j
}

fn hex_value_exec(c: char) -> (r: Option<u32>)
    ensures
        r is Some <==> hex_value(c) is Some,
        r matches Some(v) ==> v == hex_value(c)->0 && v < 16,
{
    if '0' <= c && c <= '9' {
        Some((c as u32) - ('0' as u32))
    } else if 'a' <= c && c <= 'f' {
        Some((c as u32) - ('a' as u32) + 10)
    } else if 'A' <= c && c <= 'F' {
        Some((c as u32) - ('A' as u32) + 10)
    } else {
        None
    }
}

/// Relies on `char::from_u32`: the char with code point `v`, and `None`
/// exactly on surrogates and on values above U+10FFFF.
#[verifier::external_body]
fn char_from_u32(v: u32) -> (r: Option<char>)
    ensures
        r is Some <==> (v < 0xD800 || (0xE000 <= v && v <= 0x10FFFF)),
        r matches Some(c) ==> c == (v as char),
{
    char::from_u32(v)
}

fn hex4_exec(s: &Vec<char>, j: usize) -> (r: Option<u32>)
    requires
        j <= s@.len(),
    ensures
        r is Some <==> hex4_at(s@, j as int) is Some,
        r matches Some(v) ==> v == hex4_at(s@, j as int)->0 && v < 0x10000,
{
    if s.len() - j < 4 {
        return None;
    }
    let a = hex_value_exec(s[j]);
    let b = hex_value_exec(s[j + 1]);
    let c = hex_value_exec(s[j + 2]);
    let d = hex_value_exec(s[j + 3]);
    match (a, b, c, d) {
        (Some(a), Some(b), Some(c), Some(d)) => Some(a * 4096 + b * 256 + c * 16 + d),
        _ => None,
    }
}

fn escape_at_exec(s: &Vec<char>, i: usize) -> (r: Option<(char, usize)>)
    requires
        i < s@.len(),
    ensures
        r is Some <==> escape_at(s@, i as int) is Some,
        r matches Some((c, k)) ==> escape_at(s@, i as int) == Some((c, k as int)) && i < k <= s@.len(),
{
    if s.len() - i < 2 {
        return None;
    }
    if s[i + 1] == 'u' {
        let v = match hex4_exec(s, i + 2) {
            Some(v) => v,
            None => {
                return None;
            },
        };
        if 0xDC00 <= v && v < 0xE000 {
            return None;
        }
        if 0xD800 <= v && v < 0xDC00 {
            if !(s.len() - i >= 8 && s[i + 6] == '\\' && s[i + 7] == 'u') {
                return None;
            }
            let w = match hex4_exec(s, i + 8) {
                Some(w) => w,
                None => {
                    return None;
                },
            };
            if !(0xDC00 <= w && w < 0xE000) {
                return None;
            }
            let code = 0x10000 + (v - 0xD800) * 0x400 + (w - 0xDC00);
            assert(code as nat == pair_code(v as nat, w as nat));
            return match char_from_u32(code) {
                Some(c) => Some((c, i + 12)),
                None => None,
            };
        }
        match char_from_u32(v) {
            Some(c) => Some((c, i + 6)),
            None => None,
        }
    } else {
        let e = s[i + 1];
        let c = if e == '"' {
            '"'
        } else if e == '\\' {
            '\\'
        } else if e == '/' {
            '/'
        } else if e == 'b' {
            '\x08'
        } else if e == 'f' {
            '\x0c'
        } else if e == 'n' {
            '\n'
        } else if e == 'r' {
            '\r'
        } else if e == 't' {
            '\t'
        } else {
            return None;
        };
        Some((c, i + 2))
    }
}

/// Decodes the string literal whose opening quote stands at `i`.
fn string_at_exec(s: &Vec<char>, i: usize) -> (r: Option<(String, usize)>)
    requires
        i <= s@.len(),
    ensures
        r is Some <==> string_at(s@, i as int) is Some,
        r matches Some((t, k)) ==> string_at(s@, i as int) == Some((t@, k as int)) && i < k
            <= s@.len(),
{
    if i >= s.len() || s[i] != '"' {
        return None;
    }
    let mut out = String::new();
    let mut j = i + 1;
    while j < s.len()
        invariant
            i < j <= s@.len(),
            string_at(s@, i as int) == string_rest(s@, j as int, out@),
        decreases s@.len() - j,
    {
        let c = s[j];
        if c == '"' {
            return Some((out, j + 1));
        } else if c == '\\' {
            match escape_at_exec(s, j) {
                Some((e, k)) => {
                    push_char(&mut out, e);
                    j = k;
                },
                None => {
                    return None;
                },
            }
        } else if (c as u32) < 0x20 {
            return None;
        } else {
            push_char(&mut out, c);
            j = j + 1;
        }
    }
    None
}

enum WireScalar {
    Text(String),
    Null,
    Other,
}

spec fn scalar_of(v: WireScalar) -> Scalar {
    match v {
        WireScalar::Text(t) => Scalar::Text(t@),
        WireScalar::Null => Scalar::Null,
        WireScalar::Other => Scalar::Other,
    }
}

fn word_at_exec(s: &Vec<char>, i: usize, word: &Vec<char>) -> (r: bool)
    requires
        i <= s@.len(),
    ensures
        r == word_at(s@, i as int, word@),
{
    if s.len() - i < word.len() {
        return false;
    }
    let n = s.len();
    let mut k: usize = 0;
    while k < word.len()
        invariant
            n == s@.len(),
            i + word@.len() <= n,
            k <= word@.len(),
            forall|m: int| 0 <= m < k ==> s@[i + m] == word@[m],
        decreases word@.len() - k,
    {
        if s[i + k] != word[k] {
            assert(s@.subrange(i as int, i + word@.len())[k as int] != word@[k as int]);
            return false;
        }
        k = k + 1;
    }
    assert(s@.subrange(i as int, i + word@.len()) =~= word@);
    true
}

fn digits_end_exec(s: &Vec<char>, i: usize) -> (r: usize)
    requires
        i <= s@.len(),
    ensures
        r == digits_end(s@, i as int),
        i <= r <= s@.len(),
        i < s@.len() && is_digit(s@[i as int]) ==> i < r,
{
    let mut j = i;
    while j < s.len() && '0' <= s[j] && s[j] <= '9'
        invariant
            i <= j <= s@.len(),
            digits_end(s@, i as int) == digits_end(s@, j as int),
        decreases s@.len() - j,
    {
        j = j + 1;
    }
    j
}

fn exponent_end_exec(s: &Vec<char>, c: usize) -> (r: Option<usize>)
    requires
        c <= s@.len(),
    ensures
        r is Some <==> exponent_end(s@, c as int) is Some,
        r matches Some(k) ==> exponent_end(s@, c as int) == Some(k as int) && c <= k <= s@.len(),
{
    if c < s.len() && (s[c] == 'e' || s[c] == 'E') {
        let e0 = if c + 1 < s.len() && (s[c + 1] == '+' || s[c + 1] == '-') {
            c + 2
        } else {
            c + 1
        };
        let e1 = digits_end_exec(s, e0);
        if e1 == e0 {
            None
        } else {
            Some(e1)
        }
    } else {
        Some(c)
    }
}

fn number_at_exec(s: &Vec<char>, i: usize) -> (r: Option<usize>)
    requires
        i < s@.len(),
    ensures
        r is Some <==> number_at(s@, i as int) is Some,
        r matches Some(k) ==> number_at(s@, i as int) == Some(k as int) && i < k <= s@.len(),
{
    let n = s.len();
    let a = if s[i] == '-' {
        i + 1
    } else {
        i
    };
    if !(a < s.len() && '0' <= s[a] && s[a] <= '9') {
        return None;
    }
    let b = if s[a] == '0' {
        a + 1
    } else {
        digits_end_exec(s, a)
    };
    if b < s.len() && s[b] == '.' {
        let d = digits_end_exec(s, b + 1);
        if d == b + 1 {
            None
        } else {
            exponent_end_exec(s, d)
        }
    } else {
        exponent_end_exec(s, b)
    }
}

/// The end of the JSON value at `i`.
fn skip_value_exec(s: &Vec<char>, i: usize) -> (r: Option<usize>)
    requires
        i <= s@.len(),
    ensures
        r is Some <==> skip_value(s@, i as int) is Some,
        r matches Some(k) ==> skip_value(s@, i as int) == Some(k as int) && i < k <= s@.len(),
    decreases s@.len() - i, 0int,
{
    if i >= s.len() {
        return None;
    }
    let c = s[i];
    if c == '"' {
        return match string_at_exec(s, i) {
            Some((_, k)) => Some(k),
            None => None,
        };
    }
    if c == '[' || c == '{' {
        let close = if c == '[' {
            ']'
        } else {
            '}'
        };
        let j = skip_ws_exec(s, i + 1);
        if j < s.len() && s[j] == close {
            return Some(j + 1);
        }
        return if c == '[' {
            skip_elements_exec(s, j)
        } else {
            skip_members_exec(s, j)
        };
    }
    let null_word: Vec<char> = vec!['n', 'u', 'l', 'l'];
    let true_word: Vec<char> = vec!['t', 'r', 'u', 'e'];
    let false_word: Vec<char> = vec!['f', 'a', 'l', 's', 'e'];
    assert(null_word@ =~= seq!['n', 'u', 'l', 'l']);
    assert(true_word@ =~= seq!['t', 'r', 'u', 'e']);
    assert(false_word@ =~= seq!['f', 'a', 'l', 's', 'e']);
    if word_at_exec(s, i, &null_word) || word_at_exec(s, i, &true_word) {
        Some(i + 4)
    } else if word_at_exec(s, i, &false_word) {
        Some(i + 5)
    } else if c == '-' || ('0' <= c && c <= '9') {
        number_at_exec(s, i)
    } else {
        None
    }
}

/// The end of an array's elements, from the element at `i` through `]`.
fn skip_elements_exec(s: &Vec<char>, i: usize) -> (r: Option<usize>)
    requires
        i <= s@.len(),
    ensures
        r is Some <==> skip_elements(s@, i as int) is Some,
        r matches Some(k) ==> skip_elements(s@, i as int) == Some(k as int) && i < k <= s@.len(),
    decreases s@.len() - i, 1int,
{
    let k = match skip_value_exec(s, i) {
        Some(k) => k,
        None => {
            return None;
        },
    };
    let d = skip_ws_exec(s, k);
    if d < s.len() && s[d] == ']' {
        Some(d + 1)
    } else if d < s.len() && s[d] == ',' {
        let n = skip_ws_exec(s, d + 1);
        skip_elements_exec(s, n)
    } else {
        None
    }
}

/// The end of an object's members, from the key at `i` through `}`.
fn skip_members_exec(s: &Vec<char>, i: usize) -> (r: Option<usize>)
    requires
        i <= s@.len(),
    ensures
        r is Some <==> skip_members(s@, i as int) is Some,
        r matches Some(k) ==> skip_members(s@, i as int) == Some(k as int) && i < k <= s@.len(),
    decreases s@.len() - i, 1int,
{
    let j = match string_at_exec(s, i) {
        Some((_, j)) => j,
        None => {
            return None;
        },
    };
    let c = skip_ws_exec(s, j);
    if !(c < s.len() && s[c] == ':') {
        return None;
    }
    let v = skip_ws_exec(s, c + 1);
    let k = match skip_value_exec(s, v) {
        Some(k) => k,
        None => {
            return None;
        },
    };
    let d = skip_ws_exec(s, k);
    if d < s.len() && s[d] == '}' {
        Some(d + 1)
    } else if d < s.len() && s[d] == ',' {
        let n = skip_ws_exec(s, d + 1);
        skip_members_exec(s, n)
    } else {
        None
    }
}

fn value_at_exec(s: &Vec<char>, i: usize) -> (r: Option<(WireScalar, usize)>)
    requires
        i <= s@.len(),
    ensures
        r is Some <==> value_at(s@, i as int) is Some,
        r matches Some((v, k)) ==> value_at(s@, i as int) == Some((scalar_of(v), k as int)) && i
            < k <= s@.len(),
{
    if i >= s.len() {
        return None;
    }
    if s[i] == '"' {
        return match string_at_exec(s, i) {
            Some((t, k)) => Some((WireScalar::Text(t), k)),
            None => None,
        };
    }
    let null_word: Vec<char> = vec!['n', 'u', 'l', 'l'];
    assert(null_word@ =~= seq!['n', 'u', 'l', 'l']);
    if word_at_exec(s, i, &null_word) {
        return Some((WireScalar::Null, i + 4));
    }
    match skip_value_exec(s, i) {
        Some(k) => Some((WireScalar::Other, k)),
        None => None,
    }
}

struct WireFields {
    response: Option<String>,
    error: Option<String>,
}

spec fn fields_of(f: WireFields) -> ResponseFields {
    ResponseFields {
        response: match f.response {
            Some(t) => Some(t@),
            None => None,
        },
        error: match f.error {
            Some(t) => Some(t@),
            None => None,
        },
    }
}

fn chars_eq(a: &String, b: &Vec<char>) -> (r: bool)
    ensures
        r == (a@ == b@),
{
    let cs = chars_of(a.as_str());
    if cs.len() != b.len() {
        return false;
    }
    let mut k: usize = 0;
    while k < cs.len()
        invariant
            cs@ == a@,
            cs@.len() == b@.len(),
            k <= cs@.len(),
            forall|m: int| 0 <= m < k ==> cs@[m] == b@[m],
        decreases cs@.len() - k,
    {
        if cs[k] != b[k] {
            return false;
        }
        k = k + 1;
    }
    assert(cs@ =~= b@);
    true
}

fn apply_member_exec(f: WireFields, key: &String, v: WireScalar) -> (r: Option<WireFields>)
    ensures
        r is Some <==> apply_member(fields_of(f), key@, scalar_of(v)) is Some,
        r matches Some(g) ==> apply_member(fields_of(f), key@, scalar_of(v)) == Some(
            fields_of(g),
        ),
{
    let response_word: Vec<char> = vec!['r', 'e', 's', 'p', 'o', 'n', 's', 'e'];
    let error_word: Vec<char> = vec!['e', 'r', 'r', 'o', 'r'];
    assert(response_word@ =~= response_key());
    assert(error_word@ =~= error_key());
    let is_response = chars_eq(key, &response_word);
    let is_error = !is_response && chars_eq(key, &error_word);
    if !is_response && !is_error {
        return Some(f);
    }
    let t = match v {
        WireScalar::Text(t) => Some(t),
        WireScalar::Null => None,
        WireScalar::Other => {
            return None;
        },
    };
    if is_response {
        Some(WireFields { response: t, error: f.error })
    } else {
        Some(WireFields { response: f.response, error: t })
    }
}

/// Reads the members of an object from the key at `i` through its closing brace.
fn members_at_exec(s: &Vec<char>, i: usize) -> (r: Option<(WireFields, usize)>)
    requires
        i <= s@.len(),
    ensures
        r is Some <==> members_at(s@, i as int, ResponseFields { response: None, error: None })
            is Some,
        r matches Some((f, e)) ==> members_at(
            s@,
            i as int,
            ResponseFields { response: None, error: None },
        ) == Some((fields_of(f), e as int)) && e <= s@.len(),
{
    let mut f = WireFields { response: None, error: None };
    let mut j = i;
    loop
        invariant
            i <= j <= s@.len(),
            members_at(s@, i as int, ResponseFields { response: None, error: None })
                == members_at(s@, j as int, fields_of(f)),
        decreases s@.len() - j,
    {
        let (key, kj) = match string_at_exec(s, j) {
            Some(p) => p,
            None => {
                return None;
            },
        };
        let c = skip_ws_exec(s, kj);
        if !(c < s.len() && s[c] == ':') {
            return None;
        }
        let vs = skip_ws_exec(s, c + 1);
        let (v, k) = match value_at_exec(s, vs) {
            Some(p) => p,
            None => {
                return None;
            },
        };
        let g = match apply_member_exec(f, &key, v) {
            Some(g) => g,
            None => {
                return None;
            },
        };
        let d = skip_ws_exec(s, k);
        if d < s.len() && s[d] == '}' {
            return Some((g, d + 1));
        } else if d < s.len() && s[d] == ',' {
            let n = skip_ws_exec(s, d + 1);
            f = g;
            j = n;
        } else {
            return None;
        }
    }
}

/// Errors of the wire codec.
#[derive(Debug, Clone, Copy, PartialEq, Eq)]
pub enum CodecError {
    /// The encoded request does not fit in its buffer.
    MessageTooLong,
    /// The response is no JSON object of the expected shape.
    ParseError,
}

/// A decoded chat response.
#[derive(Debug)]
pub struct ChatResponse {
    pub response: Option<BoundedText<RESPONSE_CAPACITY>>,
    pub error: Option<BoundedText<ERROR_CAPACITY>>,
}

/// The text held by an optional buffer.
pub open spec fn opt_text<const N: usize>(t: Option<BoundedText<N>>) -> Option<Seq<char>> {
    match t {
        Some(b) => Some(b@),
        None => None,
    }
}

/// Whether an optional text fits in `n` bytes.
pub open spec fn text_fits(t: Option<Seq<char>>, n: nat) -> bool {
    match t {
        Some(x) => byte_len(x) <= n,
        None => true,
    }
}

/// What a response body decodes to: its fields, when it is a well-formed
/// object whose texts fit their buffers.
pub open spec fn decoded(s: Seq<char>) -> Option<ResponseFields> {
    match wire_fields(s) {
        Some(f) => if text_fits(f.response, RESPONSE_CAPACITY as nat) && text_fits(
            f.error,
            ERROR_CAPACITY as nat,
        ) {
            Some(f)
        } else {
            None
        },
        None => None,
    }
}

fn bounded_opt<const N: usize>(t: Option<String>) -> (r: Result<Option<BoundedText<N>>, CodecError>)
    ensures
        r is Ok <==> text_fits(
            match t {
                Some(x) => Some(x@),
                None => None,
            },
            N as nat,
        ),
        r matches Ok(b) ==> opt_text(b) == match t {
            Some(x) => Some(x@),
            None => None,
        },
{
    match t {
        Some(x) => match BoundedText::<N>::from_str(x.as_str()) {
            Ok(b) => Ok(Some(b)),
            Err(_) => Err(CodecError::ParseError),
        },
        None => Ok(None),
    }
}

/// Decodes a chat response body. Members with other keys are ignored,
/// whatever their value, and an absent or `null` field is `None`. A body
/// that is no JSON object, or whose `response` or `error` is neither text
/// nor `null` or does not fit its buffer, is a `ParseError`.
pub fn decode_chat_response(body: &str) -> (r: Result<ChatResponse, CodecError>)
    ensures
        r is Ok <==> decoded(body@) is Some,
        r is Err ==> r == Err::<ChatResponse, CodecError>(CodecError::ParseError),
        r matches Ok(c) ==> opt_text(c.response) == decoded(body@)->0.response && opt_text(
            c.error,
        ) == decoded(body@)->0.error,
{
    let s = chars_of(body);
    let i = skip_ws_exec(&s, 0);
    if !(i < s.len() && s[i] == '{') {
        return Err(CodecError::ParseError);
    }
    let j = skip_ws_exec(&s, i + 1);
    let (f, e) = if j < s.len() && s[j] == '}' {
        (WireFields { response: None, error: None }, j + 1)
    } else {
        match members_at_exec(&s, j) {
            Some(p) => p,
            None => {
                return Err(CodecError::ParseError);
            },
        }
    };
    if skip_ws_exec(&s, e) != s.len() {
        return Err(CodecError::ParseError);
    }
    let response = bounded_opt::<RESPONSE_CAPACITY>(f.response);
    let error = bounded_opt::<ERROR_CAPACITY>(f.error);
    match (response, error) {
        (Ok(response), Ok(error)) => Ok(ChatResponse { response, error }),
        _ => Err(CodecError::ParseError),
    }
}

fn hex_digit_exec(d: u8) -> (r: char)
    requires
        d < 16,
    ensures
        r == hex_digit(d),
{
    if d < 10 {
        (48u8 + d) as char
    } else {
        (87u8 + d) as char
    }
}

fn push_escaped(out: &mut String, c: char)
    ensures
        final(out)@ == old(out)@ + escape_char(c),
{
    let u = c as u32;
    if c == '"' || c == '\\' {
        push_char(out, '\\');
        push_char(out, c);
    } else if c == '\n' {
        push_char(out, '\\');
        push_char(out, 'n');
    } else if c == '\r' {
        push_char(out, '\\');
        push_char(out, 'r');
    } else if c == '\t' {
        push_char(out, '\\');
        push_char(out, 't');
    } else if u < 0x20 {
        push_char(out, '\\');
        push_char(out, 'u');
        push_char(out, '0');
        push_char(out, '0');
        push_char(out, hex_digit_exec((u / 16) as u8));
        push_char(out, hex_digit_exec((u % 16) as u8));
    } else {
        push_char(out, c);
    }
    assert(final(out)@ =~= old(out)@ + escape_char(c));
}

pub(crate) fn push_all(out: &mut String, cs: &Vec<char>)
    ensures
        final(out)@ == old(out)@ + cs@,
{
    let mut k: usize = 0;
    while k < cs.len()
        invariant
            k <= cs@.len(),
            out@ == old(out)@ + cs@.subrange(0, k as int),
        decreases cs@.len() - k,
    {
        push_char(out, cs[k]);
        k = k + 1;
        assert(out@ =~= old(out)@ + cs@.subrange(0, k as int));
    }
    assert(cs@.subrange(0, cs@.len() as int) =~= cs@);
}

/// Encodes a chat request carrying `message`: `{"message": "<message>"}`
/// with the message escaped as a JSON string. Fails with `MessageTooLong`
/// when the encoding exceeds the request buffer.
pub fn encode_chat_request(message: &str) -> (r: Result<BoundedText<REQUEST_CAPACITY>, CodecError>)
    ensures
        r is Ok <==> byte_len(request_text(message@)) <= REQUEST_CAPACITY,
        r matches Ok(t) ==> t@ == request_text(message@),
        r is Err ==> r == Err::<BoundedText<REQUEST_CAPACITY>, CodecError>(
            CodecError::MessageTooLong,
        ),
{
    let head: Vec<char> = vec!['{', '"', 'm', 'e', 's', 's', 'a', 'g', 'e', '"', ':', ' ', '"'];
    let tail: Vec<char> = vec!['"', '}'];
    let cs = chars_of(message);
    let mut out = String::new();
    push_all(&mut out, &head);
    let mut k: usize = 0;
    while k < cs.len()
        invariant
            k <= cs@.len(),
            cs@ == message@,
            out@ == head@ + escape(cs@.subrange(0, k as int)),
        decreases cs@.len() - k,
    {
        let ghost before = out@;
        push_escaped(&mut out, cs[k]);
        proof {
            let p = cs@.subrange(0, k + 1);
            assert(p.drop_last() =~= cs@.subrange(0, k as int));
            assert(p.last() == cs@[k as int]);
            assert(out@ =~= head@ + escape(p));
        }
        k = k + 1;
    }
    push_all(&mut out, &tail);
    proof {
        assert(cs@.subrange(0, cs@.len() as int) =~= cs@);
        assert(out@ =~= request_text(message@));
    }
    match BoundedText::<REQUEST_CAPACITY>::from_str(out.as_str()) {
        Ok(t) => Ok(t),
        Err(_) => Err(CodecError::MessageTooLong),
    }
}

// ---------------------------------------------------------------------------
// Round trip
// ---------------------------------------------------------------------------

/// The wire text of a response object carrying `response`, or `{}`.
pub open spec fn response_text(response: Option<Seq<char>>) -> Seq<char> {
    match response {
        Some(t) => seq!['{', '"', 'r', 'e', 's', 'p', 'o', 'n', 's', 'e', '"', ':', '"']
            + escape(t) + seq!['"', '}'],
        None => seq!['{', '}'],
    }
}

proof fn lemma_escape_front(c: char, t: Seq<char>)
    ensures
        escape(seq![c] + t) == escape_char(c) + escape(t),
    decreases t.len(),
{
    if t.len() == 0 {
        assert(seq![c] + t =~= seq![c]);
        assert(seq![c].drop_last() =~= Seq::<char>::empty());
        assert(escape(Seq::<char>::empty()) == Seq::<char>::empty());
        assert(escape(seq![c]) == escape(seq![c].drop_last()) + escape_char(seq![c].last()));
        assert(escape_char(c) + escape(t) =~= escape_char(c));
        assert(Seq::<char>::empty() + escape_char(c) =~= escape_char(c));
    } else {
        let u = seq![c] + t;
        assert(u.drop_last() =~= seq![c] + t.drop_last());
        assert(u.last() == t.last());
        lemma_escape_front(c, t.drop_last());
        assert(escape(u) == escape(u.drop_last()) + escape_char(u.last()));
        assert(escape(t) == escape(t.drop_last()) + escape_char(t.last()));
        assert(escape(u) =~= escape_char(c) + escape(t));
    }
}

proof fn lemma_hex_round_trip(d: u8)
    requires
        d < 16,
    ensures
        hex_value(hex_digit(d)) == Some(d as nat),
{
}

/// Reading the escape of `c` at `i` adds `c` and moves past the escape.
proof fn lemma_read_escaped_char(s: Seq<char>, i: int, acc: Seq<char>, c: char)
    requires
        0 <= i,
        i + escape_char(c).len() < s.len(),
        s.subrange(i, i + escape_char(c).len()) == escape_char(c),
    ensures
        string_rest(s, i, acc) == string_rest(s, i + escape_char(c).len(), acc.push(c)),
{
    let e = escape_char(c);
    assert forall|k: int| 0 <= k < e.len() implies s[i + k] == e[k] by {
        assert(s.subrange(i, i + e.len())[k] == e[k]);
    }
    let u = c as u32;
    if c == '"' || c == '\\' || c == '\n' || c == '\r' || c == '\t' {
        assert(s[i] == '\\');
        assert(escape_at(s, i) == Some((c, i + 2)));
    } else if u < 0x20 {
        let hi = (u / 16) as u8;
        let lo = (u % 16) as u8;
        lemma_hex_round_trip(hi);
        lemma_hex_round_trip(lo);
        assert(s[i] == '\\');
        assert(s[i + 1] == 'u');
        assert(hex_value(s[i + 2]) == Some(0nat));
        assert(hex_value(s[i + 3]) == Some(0nat));
        assert(s[i + 4] == hex_digit(hi));
        assert(s[i + 5] == hex_digit(lo));
        let v = 0nat * 4096 + 0nat * 256 + (hi as nat) * 16 + (lo as nat);
        assert(v == u);
        assert(hex4_at(s, i + 2) == Some(v));
        vstd::utf8::char_u32_cast(c, u);
        assert(((v as u32) as char) == c);
        assert(escape_at(s, i) == Some((c, i + 6)));
    } else {
        assert(e == seq![c]);
        assert(s[i + 0] == e[0]);
        assert(s[i] == c);
    }
}

/// Reading the escape of `t` followed by a quote yields `t`.
proof fn lemma_read_escaped(s: Seq<char>, i: int, acc: Seq<char>, t: Seq<char>)
    requires
        0 <= i,
        i + escape(t).len() < s.len(),
        s.subrange(i, i + escape(t).len()) == escape(t),
        s[i + escape(t).len()] == '"',
    ensures
        string_rest(s, i, acc) == Some((acc + t, i + escape(t).len() + 1)),
    decreases t.len(),
{
    if t.len() == 0 {
        assert(escape(t).len() == 0);
        assert(acc + t =~= acc);
    } else {
        let c = t[0];
        let rest = t.drop_first();
        assert(t =~= seq![c] + rest);
        lemma_escape_front(c, rest);
        let e = escape_char(c);
        let n = e.len();
        assert(s.subrange(i, i + n) =~= s.subrange(i, i + escape(t).len()).subrange(0, n as int));
        assert(s.subrange(i, i + escape(t).len()).subrange(0, n as int) =~= e);
        lemma_read_escaped_char(s, i, acc, c);
        assert(s.subrange(i + n, i + n + escape(rest).len()) =~= s.subrange(
            i,
            i + escape(t).len(),
        ).subrange(n as int, escape(t).len() as int));
        assert(escape(t).subrange(n as int, escape(t).len() as int) =~= escape(rest));
        lemma_read_escaped(s, i + n, acc.push(c), rest);
        assert(acc.push(c) + rest =~= acc + t);
    }
}

/// A request's message reads back from its wire text.
pub proof fn lemma_request_message(message: Seq<char>)
    ensures
        string_at(request_text(message), 12) == Some(
            (message, request_text(message).len() - 1),
        ),
{
    let s = request_text(message);
    let e = escape(message);
    assert(s.subrange(13, 13 + e.len() as int) =~= e);
    lemma_read_escaped(s, 13, Seq::empty(), message);
    assert(Seq::<char>::empty() + message =~= message);
}

proof fn lemma_escape_response_key()
    ensures
        escape(response_key()) == response_key(),
{
    let key = response_key();
    reveal_with_fuel(escape, 9);
    assert(key.drop_last() =~= seq!['r', 'e', 's', 'p', 'o', 'n', 's']);
    assert(key.drop_last().drop_last() =~= seq!['r', 'e', 's', 'p', 'o', 'n']);
    assert(key.drop_last().drop_last().drop_last() =~= seq!['r', 'e', 's', 'p', 'o']);
    assert(key.drop_last().drop_last().drop_last().drop_last() =~= seq!['r', 'e', 's', 'p']);
    assert(key.drop_last().drop_last().drop_last().drop_last().drop_last() =~= seq!['r', 'e', 's']);
    assert(key.drop_last().drop_last().drop_last().drop_last().drop_last().drop_last() =~= seq!['r', 'e']);
    assert(key.drop_last().drop_last().drop_last().drop_last().drop_last().drop_last().drop_last() =~= seq!['r']);
    assert(seq!['r'].drop_last() =~= Seq::<char>::empty());
    assert(escape(key) =~= key);
}

proof fn lemma_response_key_read(t: Seq<char>)
    ensures
        string_at(response_text(Some(t)), 1) == Some((response_key(), 11int)),
{
    let s = response_text(Some(t));
    let key = response_key();
    lemma_escape_response_key();
    assert(s.subrange(2, 10) =~= key);
    lemma_read_escaped(s, 2, Seq::empty(), key);
    assert(Seq::<char>::empty() + key =~= key);
}

proof fn lemma_response_value_read(t: Seq<char>)
    ensures
        value_at(response_text(Some(t)), 12) == Some(
            (Scalar::Text(t), 14 + escape(t).len() as int),
        ),
{
    let s = response_text(Some(t));
    let e = escape(t);
    assert(s.subrange(13, 13 + e.len() as int) =~= e);
    lemma_read_escaped(s, 13, Seq::empty(), t);
    assert(Seq::<char>::empty() + t =~= t);
    assert(string_at(s, 12) == Some((t, 13 + e.len() as int + 1)));
}

proof fn lemma_response_members(t: Seq<char>)
    ensures
        members_at(response_text(Some(t)), 1, ResponseFields { response: None, error: None })
            == Some(
            (
                ResponseFields { response: Some(t), error: None },
                response_text(Some(t)).len() as int,
            ),
        ),
{
    let s = response_text(Some(t));
    let d: int = 14 + escape(t).len() as int;
    lemma_response_key_read(t);
    lemma_response_value_read(t);
    assert(skip_ws(s, 11) == 11);
    assert(skip_ws(s, 12) == 12);
    assert(s[d] == '}');
    assert(skip_ws(s, d) == d);
}

/// A response object decodes to the response text it carries, and `{}` to
/// no response.
pub proof fn lemma_response_decodes(response: Option<Seq<char>>)
    requires
        text_fits(response, RESPONSE_CAPACITY as nat),
    ensures
        decoded(response_text(response)) == Some(
            ResponseFields { response: response, error: None },
        ),
{
    let s = response_text(response);
    assert(skip_ws(s, 0) == 0);
    assert(skip_ws(s, 1) == 1);
    match response {
        None => {
            assert(skip_ws(s, 2) == 2);
        },
        Some(t) => {
            lemma_response_members(t);
            assert(skip_ws(s, s.len() as int) == s.len());
        },
    }
}

} // verus!
