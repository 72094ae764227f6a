use vstd::prelude::*;
use crate::text::{char_from_u32, is_code_point, chars_of};

verus! {

/// A member value of a JSON object: a string (unescaped), a bare literal
/// (a number, `true`, `false` or `null`) as written, or an array or object,
/// which is skipped.
pub enum JsonValue {
    Text(Vec<char>),
    Literal(Vec<char>),
    Nested,
}

/// Mathematical view of a [`JsonValue`].
pub enum JsonValueView {
    Text(Seq<char>),
    Literal(Seq<char>),
    Nested,
}

impl View for JsonValue {
    type V = JsonValueView;

    open spec fn view(&self) -> JsonValueView {
        match self {
            JsonValue::Text(t) => JsonValueView::Text(t@),
            JsonValue::Literal(t) => JsonValueView::Literal(t@),
            JsonValue::Nested => JsonValueView::Nested,
        }
    }
}

/// One `"key": value` member of an object.
pub struct Member {
    pub key: Vec<char>,
    pub value: JsonValue,
}

/// Key and value of a member, as mathematical values.
pub open spec fn member_view(m: Member) -> (Seq<char>, JsonValueView) {
    (m.key@, m.value@)
}

/// The lower-case hexadecimal digit for `d`, taken in `0..16`.
pub open spec fn hex_digit(d: int) -> char {
    if d == 0 { '0' } else if d == 1 { '1' } else if d == 2 { '2' } else if d == 3 { '3' }
    else if d == 4 { '4' } else if d == 5 { '5' } else if d == 6 { '6' } else if d == 7 { '7' }
    else if d == 8 { '8' } else if d == 9 { '9' } else if d == 10 { 'a' } else if d == 11 { 'b' }
    else if d == 12 { 'c' } else if d == 13 { 'd' } else if d == 14 { 'e' } else { 'f' }
}

/// The value of a hexadecimal digit, either case.
pub open spec fn hex_value(c: char) -> Option<int> {
    if '0' <= c && c <= '9' {
        Some(c as int - '0' as int)
    } else if 'a' <= c && c <= 'f' {
        Some(c as int - 'a' as int + 10)
    } else if 'A' <= c && c <= 'F' {
        Some(c as int - 'A' as int + 10)
    } else {
        None
    }
}

/// How one character is written inside a JSON string literal.
pub open spec fn escape_char(c: char) -> Seq<char> {
    if c == '"' {
        seq!['\\', '"']
    } else if c == '\\' {
        seq!['\\', '\\']
    } else if (c as u32) < 0x20 {
        seq!['\\', 'u', '0', '0', hex_digit((c as u32) as int / 16), hex_digit((c as u32) as int % 16)]
    } else {
        seq![c]
    }
}

/// The characters of `s`, each written as inside a JSON string literal.
pub open spec fn escape(s: Seq<char>) -> Seq<char>
    decreases s.len(),
{
    if s.len() == 0 {
        Seq::empty()
    } else {
        escape_char(s[0]) + escape(s.drop_first())
    }
}

/// `s` as a JSON string literal.
pub open spec fn quoted(s: Seq<char>) -> Seq<char> {
    seq!['"'] + escape(s) + seq!['"']
}

/// The value of the four hexadecimal digits that follow a `\u`.
pub open spec fn hex4_value(e: Seq<char>) -> int {
    ((hex_value(e[1])->0 * 16 + hex_value(e[2])->0) * 16 + hex_value(e[3])->0) * 16 + hex_value(
        e[4],
    )->0
}

/// The value of the four hexadecimal digits at `e[i..i + 4]`, if they are such digits.
pub open spec fn hex4(e: Seq<char>, i: int) -> Option<int> {
    if 0 <= i && i + 4 <= e.len() && hex_value(e[i]) is Some && hex_value(e[i + 1]) is Some
        && hex_value(e[i + 2]) is Some && hex_value(e[i + 3]) is Some {
        Some(
            ((hex_value(e[i])->0 * 16 + hex_value(e[i + 1])->0) * 16 + hex_value(e[i + 2])->0) * 16
                + hex_value(e[i + 3])->0,
        )
    } else {
        None
    }
}

pub open spec fn is_high_surrogate(v: int) -> bool {
    0xD800 <= v && v <= 0xDBFF
}

pub open spec fn is_low_surrogate(v: int) -> bool {
    0xDC00 <= v && v <= 0xDFFF
}

/// The code point that a high and a low surrogate encode together.
pub open spec fn pair_value(hi: int, lo: int) -> int {
    (hi - 0xD800) * 1024 + (lo - 0xDC00) + 0x10000
}

/// `s`, which starts at a backslash, starts with an escaped high surrogate
/// followed by a second `\u` escape.
pub open spec fn pair_at(s: Seq<char>) -> bool {
    s.len() >= 12 && s[1] == 'u' && hex4(s, 2) is Some && is_high_surrogate(hex4(s, 2)->0) && s[6]
        == '\\' && s[7] == 'u'
}

/// The character an escape sequence stands for; `e` is what follows the backslash.
pub open spec fn unescape(e: Seq<char>) -> Option<char> {
    if e.len() == 1 {
        let c = e[0];
        if c == '"' || c == '\\' || c == '/' {
            Some(c)
        } else if c == 'b' {
            Some('\x08')
        } else if c == 'f' {
            Some('\x0c')
        } else if c == 'n' {
            Some('\n')
        } else if c == 'r' {
            Some('\r')
        } else if c == 't' {
            Some('\t')
        } else {
            None
        }
    } else if e.len() == 5 && e[0] == 'u' && hex_value(e[1]) is Some && hex_value(e[2]) is Some
        && hex_value(e[3]) is Some && hex_value(e[4]) is Some {
        if is_code_point(hex4_value(e) as u32) {
            Some((hex4_value(e) as u32) as char)
        } else {
            None
        }
    } else if e.len() == 11 && e[0] == 'u' && e[5] == '\\' && e[6] == 'u' && hex4(e, 1) is Some
        && hex4(e, 7) is Some && is_high_surrogate(hex4(e, 1)->0) && is_low_surrogate(
        hex4(e, 7)->0,
    ) {
        Some((pair_value(hex4(e, 1)->0, hex4(e, 7)->0) as u32) as char)
    } else {
        None
    }
}

/// Length of the escape sequence that follows a backslash at the start of `s`.
pub open spec fn escape_len(s: Seq<char>) -> int {
    if pair_at(s) {
        12
    } else if s.len() >= 2 && s[1] == 'u' {
        6
    } else {
        2
    }
}

/// Reads the rest of a JSON string literal whose opening quote is already
/// consumed: its unescaped content and what follows the closing quote.
pub open spec fn string_body(s: Seq<char>) -> Option<(Seq<char>, Seq<char>)>
    decreases s.len(),
{
    if s.len() == 0 {
        None
    } else if s[0] == '"' {
        Some((Seq::empty(), s.drop_first()))
    } else if s[0] == '\\' {
        let k = escape_len(s);
        if k <= s.len() && unescape(s.subrange(1, k)) is Some {
            match string_body(s.subrange(k, s.len() as int)) {
                Some((t, r)) => Some((seq![unescape(s.subrange(1, k))->0] + t, r)),
                None => None,
            }
        } else {
            None
        }
    } else if (s[0] as u32) < 0x20 {
        None
    } else {
        match string_body(s.drop_first()) {
            Some((t, r)) => Some((seq![s[0]] + t, r)),
            None => None,
        }
    }
}

pub open spec fn is_ws(c: char) -> bool {
    c == ' ' || c == '\t' || c == '\n' || c == '\r'
}

/// `s` without its leading whitespace.
pub open spec fn skip_ws(s: Seq<char>) -> Seq<char>
    decreases s.len(),
{
    if s.len() > 0 && is_ws(s[0]) {
        skip_ws(s.drop_first())
    } else {
        s
    }
}

/// Characters that make up a bare literal: numbers, `true`, `false`, `null`.
pub open spec fn is_literal_char(c: char) -> bool {
    ('0' <= c && c <= '9') || ('a' <= c && c <= 'z') || ('A' <= c && c <= 'Z') || c == '-' || c
        == '+' || c == '.'
}

/// Length of the run of literal characters that starts `s`.
pub open spec fn literal_len(s: Seq<char>) -> nat
    decreases s.len(),
{
    if s.len() > 0 && is_literal_char(s[0]) {
        1 + literal_len(s.drop_first())
    } else {
        0
    }
}

pub open spec fn is_digit(c: char) -> bool {
    '0' <= c && c <= '9'
}

/// Number of digits in `s` from position `i` on.
pub open spec fn digit_run(s: Seq<char>, i: int) -> int
    decreases s.len() - i,
{
    if 0 <= i < s.len() && is_digit(s[i]) {
        1 + digit_run(s, i + 1)
    } else {
        0
    }
}

/// End of a number's integer part (an optional minus, then `0` or a run of
/// digits not starting with `0`), or -1.
pub open spec fn int_end(s: Seq<char>) -> int {
    let a: int = if s.len() > 0 && s[0] == '-' { 1 } else { 0 };
    if a < s.len() && s[a] == '0' {
        a + 1
    } else if digit_run(s, a) > 0 {
        a + digit_run(s, a)
    } else {
        -1
    }
}

/// End of an optional fraction (`.` and digits) starting at `b`, or -1.
pub open spec fn frac_end(s: Seq<char>, b: int) -> int {
    if 0 <= b < s.len() && s[b] == '.' {
        if digit_run(s, b + 1) > 0 {
            b + 1 + digit_run(s, b + 1)
        } else {
            -1
        }
    } else {
        b
    }
}

/// End of an optional exponent (`e` or `E`, a sign, digits) starting at `c`, or -1.
pub open spec fn exp_end(s: Seq<char>, c: int) -> int {
    if 0 <= c < s.len() && (s[c] == 'e' || s[c] == 'E') {
        let e: int = if c + 1 < s.len() && (s[c + 1] == '+' || s[c + 1] == '-') {
            c + 2
        } else {
            c + 1
        };
        if digit_run(s, e) > 0 {
            e + digit_run(s, e)
        } else {
            -1
        }
    } else {
        c
    }
}

/// `s` is a JSON number.
pub open spec fn is_number(s: Seq<char>) -> bool {
    let b = int_end(s);
    let c = frac_end(s, b);
    b >= 0 && c >= 0 && exp_end(s, c) == s.len()
}

/// `s` is a JSON literal: `true`, `false`, `null` or a number.
pub open spec fn valid_literal(s: Seq<char>) -> bool {
    s == "true"@ || s == "false"@ || s == "null"@ || is_number(s)
}

/// After an object key at the start of `s`: what follows the colon and the
/// whitespace around it.
pub open spec fn after_key(s: Seq<char>) -> Option<Seq<char>> {
    if s.len() > 0 && s[0] == '"' {
        match string_body(s.drop_first()) {
            Some((_k, r1)) => {
                let r2 = skip_ws(r1);
                if r2.len() > 0 && r2[0] == ':' {
                    Some(skip_ws(r2.drop_first()))
                } else {
                    None
                }
            },
            None => None,
        }
    } else {
        None
    }
}

/// Skips one JSON value at the start of `s`: what follows it.
pub open spec fn skip_value(s: Seq<char>) -> Option<Seq<char>>
    decreases s.len(), 1int,
{
    if s.len() > 0 && s[0] == '"' {
        match string_body(s.drop_first()) {
            Some((_t, r)) => Some(r),
            None => None,
        }
    } else if s.len() > 0 && (s[0] == '[' || s[0] == '{') {
        let keyed = s[0] == '{';
        let u = skip_ws(s.drop_first());
        if u.len() > 0 && u[0] == (if keyed { '}' } else { ']' }) {
            Some(u.drop_first())
        } else {
            skip_items(u, s.len() as int, keyed)
        }
    } else if literal_len(s) > 0 && valid_literal(s.subrange(0, literal_len(s) as int)) {
        Some(s.subrange(literal_len(s) as int, s.len() as int))
    } else {
        None
    }
}

/// Skips the comma-separated items of an array, or the members of an object
/// when `keyed`, up to and including the closing bracket; `s` starts at the
/// first item and is shorter than `bound`.
pub open spec fn skip_items(s: Seq<char>, bound: int, keyed: bool) -> Option<Seq<char>>
    decreases bound, 0int,
{
    if s.len() >= bound {
        None
    } else {
        let t = if keyed { after_key(s) } else { Some(s) };
        match t {
            Some(t) => if t.len() < bound {
                match skip_value(t) {
                    Some(r0) => {
                        let r = skip_ws(r0);
                        if r.len() > 0 && r[0] == ',' {
                            let n = skip_ws(r.drop_first());
                            if n.len() < s.len() {
                                skip_items(n, s.len() as int, keyed)
                            } else {
                                None
                            }
                        } else if r.len() > 0 && r[0] == (if keyed { '}' } else { ']' }) {
                            Some(r.drop_first())
                        } else {
                            None
                        }
                    },
                    None => None,
                }
            } else {
                None
            },
            None => None,
        }
    }
}

/// Reads one member value at the start of `s`, and what follows it.
pub open spec fn value(s: Seq<char>) -> Option<(JsonValueView, Seq<char>)> {
    if s.len() > 0 && s[0] == '"' {
        match string_body(s.drop_first()) {
            Some((t, r)) => Some((JsonValueView::Text(t), r)),
            None => None,
        }
    } else if s.len() > 0 && (s[0] == '[' || s[0] == '{') {
        match skip_value(s) {
            Some(r) => Some((JsonValueView::Nested, r)),
            None => None,
        }
    } else if literal_len(s) > 0 && valid_literal(s.subrange(0, literal_len(s) as int)) {
        Some(
            (
                JsonValueView::Literal(s.subrange(0, literal_len(s) as int)),
                s.subrange(literal_len(s) as int, s.len() as int),
            ),
        )
    } else {
        None
    }
}

/// Reads one `"key": value` member at the start of `s`, and what follows it
/// once whitespace is skipped.
pub open spec fn member(s: Seq<char>) -> Option<((Seq<char>, JsonValueView), Seq<char>)> {
    if s.len() > 0 && s[0] == '"' {
        match string_body(s.drop_first()) {
            Some((key, r1)) => {
                let r2 = skip_ws(r1);
                if r2.len() > 0 && r2[0] == ':' {
                    match value(skip_ws(r2.drop_first())) {
                        Some((v, r3)) => Some(((key, v), skip_ws(r3))),
                        None => None,
                    }
                } else {
                    None
                }
            },
            None => None,
        }
    } else {
        None
    }
}

/// Reads the members of an object up to and including its closing brace; `s`
/// starts at the first key.
pub open spec fn members(s: Seq<char>) -> Option<(Seq<(Seq<char>, JsonValueView)>, Seq<char>)>
    decreases s.len(),
{
    match member(s) {
        Some((m, r)) => {
            if r.len() > 0 && r[0] == ',' {
                let t = skip_ws(r.drop_first());
                if t.len() < s.len() {
                    match members(t) {
                        Some((ms, rest)) => Some((seq![m] + ms, rest)),
                        None => None,
                    }
                } else {
                    None
                }
            } else if r.len() > 0 && r[0] == '}' {
                Some((seq![m], r.drop_first()))
            } else {
                None
            }
        },
        None => None,
    }
}

/// The members of the JSON object that `s` holds, with nothing but whitespace
/// around it; `None` when `s` is not such an object.
pub open spec fn object(s: Seq<char>) -> Option<Seq<(Seq<char>, JsonValueView)>> {
    let t = skip_ws(s);
    if t.len() > 0 && t[0] == '{' {
        let u = skip_ws(t.drop_first());
        let body = if u.len() > 0 && u[0] == '}' {
            Some((Seq::<(Seq<char>, JsonValueView)>::empty(), u.drop_first()))
        } else {
            members(u)
        };
        match body {
            Some((ms, r)) => if skip_ws(r).len() == 0 {
                Some(ms)
            } else {
                None
            },
            None => None,
        }
    } else {
        None
    }
}

pub open spec fn tail_from(text: Seq<char>, i: int) -> Seq<char> {
    text.subrange(i, text.len() as int)
}

fn skip_ws_at(text: &Vec<char>, i: usize) -> (j: usize)
    requires
        i <= text@.len(),
    ensures
        i <= j <= text@.len(),
        skip_ws(tail_from(text@, i as int)) == tail_from(text@, j as int),
{
    let mut j = i;
    while j < text.len() && (text[j] == ' ' || text[j] == '\t' || text[j] == '\n' || text[j] == '\r')
        invariant
            i <= j <= text@.len(),
            skip_ws(tail_from(text@, i as int)) == skip_ws(tail_from(text@, j as int)),
        decreases text@.len() - j,
    {
        assert(tail_from(text@, j as int).drop_first() =~= tail_from(text@, j as int + 1));
        j = j + 1;
    }
    j
}

fn hex_value_of(c: char) -> (r: Option<u32>)
    ensures
        r is Some <==> hex_value(c) is Some,
        r is Some ==> r->0 as int == hex_value(c)->0 && r->0 < 16,
{
    if '0' <= c && c <= '9' {
        Some(c as u32 - '0' as u32)
    } else if 'a' <= c && c <= 'f' {
        Some(c as u32 - 'a' as u32 + 10)
    } else if 'A' <= c && c <= 'F' {
        Some(c as u32 - 'A' as u32 + 10)
    } else {
        None
    }
}

/// Decodes the escape sequence at `text[i..k]` (after the backslash).
fn hex4_at(text: &Vec<char>, i: usize) -> (r: Option<u32>)
    ensures
        match r {
            Some(v) => hex4(text@, i as int) == Some(v as int) && v < 0x10000,
            None => hex4(text@, i as int) is None,
        },
{
    if i > text.len() || text.len() - i < 4 {
        return None;
    }
    match (
        hex_value_of(text[i]),
        hex_value_of(text[i + 1]),
        hex_value_of(text[i + 2]),
        hex_value_of(text[i + 3]),
    ) {
        (Some(a), Some(b), Some(c), Some(d)) => Some(((a * 16 + b) * 16 + c) * 16 + d),
        _ => None,
    }
}

fn pair_at_exec(text: &Vec<char>, j: usize) -> (r: bool)
    requires
        j <= text@.len(),
    ensures
        r == pair_at(tail_from(text@, j as int)),
{
    let ghost s = tail_from(text@, j as int);
    if text.len() - j < 12 || text[j + 1] != 'u' || text[j + 6] != '\\' || text[j + 7] != 'u' {
        return false;
    }
    let h = hex4_at(text, j + 2);
    assert(hex4(s, 2) == hex4(text@, j + 2));
    match h {
        Some(v) => 0xD800 <= v && v <= 0xDBFF,
        None => false,
    }
}

fn unescape_at(text: &Vec<char>, i: usize, k: usize) -> (r: Option<char>)
    requires
        i <= k <= text@.len(),
    ensures
        r == unescape(text@.subrange(i as int, k as int)),
{
    let ghost e = text@.subrange(i as int, k as int);
    if k - i == 1 {
        let c = text[i];
        if c == '"' || c == '\\' || c == '/' {
            Some(c)
        } else if c == 'b' {
            Some('\x08')
        } else if c == 'f' {
            Some('\x0c')
        } else if c == 'n' {
            Some('\n')
        } else if c == 'r' {
            Some('\r')
        } else if c == 't' {
            Some('\t')
        } else {
            None
        }
    } else if k - i == 5 && text[i] == 'u' {
        match (
            hex_value_of(text[i + 1]),
            hex_value_of(text[i + 2]),
            hex_value_of(text[i + 3]),
            hex_value_of(text[i + 4]),
        ) {
            (Some(a), Some(b), Some(c), Some(d)) => {
                let v: u32 = ((a * 16 + b) * 16 + c) * 16 + d;
                assert(v as int == hex4_value(e));
                char_from_u32(v)
            },
            _ => None,
        }
    } else if k - i == 11 && text[i] == 'u' && text[i + 5] == '\\' && text[i + 6] == 'u' {
        let hi = hex4_at(text, i + 1);
        let lo = hex4_at(text, i + 7);
        assert(hex4(e, 1) == hex4(text@, i + 1));
        assert(hex4(e, 7) == hex4(text@, i + 7));
        match (hi, lo) {
            (Some(h), Some(l)) => {
                if 0xD800 <= h && h <= 0xDBFF && 0xDC00 <= l && l <= 0xDFFF {
                    let v: u32 = (h - 0xD800) * 1024 + (l - 0xDC00) + 0x10000;
                    assert(v as int == pair_value(h as int, l as int));
                    char_from_u32(v)
                } else {
                    None
                }
            },
            _ => None,
        }
    } else {
        None
    }
}

pub open spec fn prefixed(p: Seq<char>, o: Option<(Seq<char>, Seq<char>)>) -> Option<
    (Seq<char>, Seq<char>),
> {
    match o {
        Some((t, r)) => Some((p + t, r)),
        None => None,
    }
}

/// Reads a string literal body starting at `text[i]` (after the opening quote):
/// its content and the index after the closing quote.
#[verifier::rlimit(80)]
fn string_body_at(text: &Vec<char>, i: usize) -> (r: Option<(Vec<char>, usize)>)
    requires
        i <= text@.len(),
    ensures
        match r {
            Some((t, j)) => i < j <= text@.len() && string_body(tail_from(text@, i as int)) == Some(
                (t@, tail_from(text@, j as int)),
            ),
            None => string_body(tail_from(text@, i as int)) is None,
        },
{
    let mut out: Vec<char> = Vec::new();
    let mut j = i;
    loop
        invariant
            i <= j <= text@.len(),
            string_body(tail_from(text@, i as int)) == prefixed(
                out@,
                string_body(tail_from(text@, j as int)),
            ),
        decreases text@.len() - j,
    {
        let ghost s = tail_from(text@, j as int);
        if j >= text.len() {
            return None;
        }
        let c = text[j];
        if c == '"' {
            assert(s.drop_first() =~= tail_from(text@, j as int + 1));
            assert(out@ + Seq::<char>::empty() =~= out@);
            return Some((out, j + 1));
        } else if c == '\\' {
            let k: usize = if pair_at_exec(text, j) {
                12
            } else if j + 1 < text.len() && text[j + 1] == 'u' {
                6
            } else {
                2
            };
            assert(k == escape_len(s));
            if k > text.len() - j {
                return None;
            }
            assert(s.subrange(1, k as int) =~= text@.subrange(j + 1, j + k));
            match unescape_at(text, j + 1, j + k) {
                Some(e) => {
                    assert(s.subrange(k as int, s.len() as int) =~= tail_from(text@, j + k));
                    let ghost before = out@;
                    out.push(e);
                    proof {
                        match string_body(tail_from(text@, (j + k) as int)) {
                            Some((t, r)) => {
                                assert(before + (seq![e] + t) =~= out@ + t);
                            },
                            None => {},
                        }
                    }
                    j = j + k;
                },
                None => {
                    return None;
                },
            }
        } else if (c as u32) < 0x20 {
            return None;
        } else {
            assert(s.drop_first() =~= tail_from(text@, j as int + 1));
            let ghost before = out@;
            out.push(c);
            proof {
                match string_body(tail_from(text@, j as int + 1)) {
                    Some((t, r)) => {
                        assert(before + (seq![c] + t) =~= out@ + t);
                    },
                    None => {},
                }
            }
            j = j + 1;
        }
    }
}

pub open spec fn members_view(v: Seq<Member>) -> Seq<(Seq<char>, JsonValueView)> {
    v.map_values(|m: Member| member_view(m))
}

fn digit_run_at(s: &Vec<char>, i: usize) -> (r: usize)
    requires
        i <= s@.len(),
    ensures
        r as int == digit_run(s@, i as int),
        i + r <= s@.len(),
{
    let mut j = i;
    while j < s.len() && '0' <= s[j] && s[j] <= '9'
        invariant
            i <= j <= s@.len(),
            digit_run(s@, i as int) == (j - i) + digit_run(s@, j as int),
        decreases s@.len() - j,
    {
        j = j + 1;
    }
    j - i
}

fn is_number_at(s: &Vec<char>) -> (r: bool)
    ensures
        r == is_number(s@),
{
    let n = s.len();
    let a: usize = if n > 0 && s[0] == '-' { 1 } else { 0 };
    let b: usize;
    if a < n && s[a] == '0' {
        b = a + 1;
    } else {
        let d = digit_run_at(s, a);
        if d == 0 {
            return false;
        }
        b = a + d;
    }
    assert(b as int == int_end(s@));
    let c: usize;
    if b < n && s[b] == '.' {
        let d = digit_run_at(s, b + 1);
        if d == 0 {
            return false;
        }
        c = b + 1 + d;
    } else {
        c = b;
    }
    assert(c as int == frac_end(s@, b as int));
    if c < n && (s[c] == 'e' || s[c] == 'E') {
        let e: usize = if c + 1 < n && (s[c + 1] == '+' || s[c + 1] == '-') { c + 2 } else { c + 1 };
        let d = digit_run_at(s, e);
        if d == 0 {
            return false;
        }
        e + d == n
    } else {
        c == n
    }
}

fn valid_literal_at(s: &Vec<char>) -> (r: bool)
    ensures
        r == valid_literal(s@),
{
    same_chars(s, &chars_of("true")) || same_chars(s, &chars_of("false")) || same_chars(
        s,
        &chars_of("null"),
    ) || is_number_at(s)
}

fn literal_end(text: &Vec<char>, i: usize) -> (j: usize)
    requires
        i <= text@.len(),
    ensures
        i <= j <= text@.len(),
        j - i == literal_len(tail_from(text@, i as int)),
{
    let mut j = i;
    while j < text.len() && (('0' <= text[j] && text[j] <= '9') || ('a' <= text[j] && text[j]
        <= 'z') || ('A' <= text[j] && text[j] <= 'Z') || text[j] == '-' || text[j] == '+'
        || text[j] == '.')
        invariant
            i <= j <= text@.len(),
            literal_len(tail_from(text@, i as int)) == (j - i) + literal_len(
                tail_from(text@, j as int),
            ),
        decreases text@.len() - j,
    {
        assert(tail_from(text@, j as int).drop_first() =~= tail_from(text@, j as int + 1));
        j = j + 1;
    }
    j
}

fn slice_of(text: &Vec<char>, i: usize, j: usize) -> (r: Vec<char>)
    requires
        i <= j <= text@.len(),
    ensures
        r@ == text@.subrange(i as int, j as int),
{
    let mut r: Vec<char> = Vec::new();
    let mut k = i;
    while k < j
        invariant
            i <= k <= j <= text@.len(),
            r@ == text@.subrange(i as int, k as int),
        decreases j - k,
    {
        r.push(text[k]);
        k = k + 1;
        assert(r@ =~= text@.subrange(i as int, k as int));
    }
    r
}

fn after_key_at(text: &Vec<char>, i: usize) -> (r: Option<usize>)
    requires
        i <= text@.len(),
    ensures
        match r {
            Some(j) => i < j <= text@.len() && after_key(tail_from(text@, i as int)) == Some(
                tail_from(text@, j as int),
            ),
            None => after_key(tail_from(text@, i as int)) is None,
        },
{
    let ghost s = tail_from(text@, i as int);
    if i < text.len() && text[i] == '"' {
        assert(s.drop_first() =~= tail_from(text@, i as int + 1));
        match string_body_at(text, i + 1) {
            Some((_k, j1)) => {
                let j2 = skip_ws_at(text, j1);
                if j2 < text.len() && text[j2] == ':' {
                    assert(tail_from(text@, j2 as int).drop_first() =~= tail_from(
                        text@,
                        j2 as int + 1,
                    ));
                    Some(skip_ws_at(text, j2 + 1))
                } else {
                    None
                }
            },
            None => None,
        }
    } else {
        None
    }
}

fn skip_value_at(text: &Vec<char>, i: usize) -> (r: Option<usize>)
    requires
        i <= text@.len(),
    ensures
        match r {
            Some(j) => i < j <= text@.len() && skip_value(tail_from(text@, i as int)) == Some(
                tail_from(text@, j as int),
            ),
            None => skip_value(tail_from(text@, i as int)) is None,
        },
    decreases text@.len() - i, 1int,
{
    let ghost s = tail_from(text@, i as int);
    if i < text.len() && text[i] == '"' {
        assert(s.drop_first() =~= tail_from(text@, i as int + 1));
        match string_body_at(text, i + 1) {
            Some((_t, j)) => Some(j),
            None => None,
        }
    } else if i < text.len() && (text[i] == '[' || text[i] == '{') {
        let keyed = text[i] == '{';
        let closer = if keyed { '}' } else { ']' };
        assert(s.drop_first() =~= tail_from(text@, i as int + 1));
        let u = skip_ws_at(text, i + 1);
        if u < text.len() && text[u] == closer {
            assert(tail_from(text@, u as int).drop_first() =~= tail_from(text@, u as int + 1));
            Some(u + 1)
        } else {
            skip_items_at(text, u, i, keyed)
        }
    } else {
        let j = literal_end(text, i);
        if j > i {
            assert(s.subrange(0, (j - i) as int) =~= text@.subrange(i as int, j as int));
            assert(s.subrange((j - i) as int, s.len() as int) =~= tail_from(text@, j as int));
            let lit = slice_of(text, i, j);
            if valid_literal_at(&lit) {
                Some(j)
            } else {
                None
            }
        } else {
            None
        }
    }
}

fn skip_items_at(text: &Vec<char>, i: usize, start: usize, keyed: bool) -> (r: Option<usize>)
    requires
        start < i <= text@.len(),
    ensures
        match r {
            Some(j) => i < j <= text@.len() && skip_items(
                tail_from(text@, i as int),
                text@.len() - start,
                keyed,
            ) == Some(tail_from(text@, j as int)),
            None => skip_items(tail_from(text@, i as int), text@.len() - start, keyed) is None,
        },
    decreases text@.len() - start, 0int,
{
    let ghost s = tail_from(text@, i as int);
    let closer = if keyed { '}' } else { ']' };
    let t = if keyed {
        match after_key_at(text, i) {
            Some(t) => t,
            None => {
                return None;
            },
        }
    } else {
        i
    };
    match skip_value_at(text, t) {
        Some(r0) => {
            let r = skip_ws_at(text, r0);
            if r < text.len() && text[r] == ',' {
                assert(tail_from(text@, r as int).drop_first() =~= tail_from(text@, r as int + 1));
                let n = skip_ws_at(text, r + 1);
                skip_items_at(text, n, i, keyed)
            } else if r < text.len() && text[r] == closer {
                assert(tail_from(text@, r as int).drop_first() =~= tail_from(text@, r as int + 1));
                Some(r + 1)
            } else {
                None
            }
        },
        None => None,
    }
}

fn value_at(text: &Vec<char>, i: usize) -> (r: Option<(JsonValue, usize)>)
    requires
        i <= text@.len(),
    ensures
        match r {
            Some((v, j)) => i < j <= text@.len() && value(tail_from(text@, i as int)) == Some(
                (v@, tail_from(text@, j as int)),
            ),
            None => value(tail_from(text@, i as int)) is None,
        },
{
    let ghost s = tail_from(text@, i as int);
    if i < text.len() && text[i] == '"' {
        assert(s.drop_first() =~= tail_from(text@, i as int + 1));
        match string_body_at(text, i + 1) {
            Some((t, j)) => Some((JsonValue::Text(t), j)),
            None => None,
        }
    } else if i < text.len() && (text[i] == '[' || text[i] == '{') {
        assert(s.drop_first() =~= tail_from(text@, i as int + 1));
        match skip_value_at(text, i) {
            Some(j) => Some((JsonValue::Nested, j)),
            None => None,
        }
    } else {
        let j = literal_end(text, i);
        if j > i {
            assert(s.subrange(0, (j - i) as int) =~= text@.subrange(i as int, j as int));
            assert(s.subrange((j - i) as int, s.len() as int) =~= tail_from(text@, j as int));
            let lit = slice_of(text, i, j);
            if valid_literal_at(&lit) {
                Some((JsonValue::Literal(lit), j))
            } else {
                None
            }
        } else {
            None
        }
    }
}

fn member_at(text: &Vec<char>, i: usize) -> (r: Option<(Member, usize)>)
    requires
        i <= text@.len(),
    ensures
        match r {
            Some((m, j)) => i < j <= text@.len() && member(tail_from(text@, i as int)) == Some(
                (member_view(m), tail_from(text@, j as int)),
            ),
            None => member(tail_from(text@, i as int)) is None,
        },
{
    let ghost s = tail_from(text@, i as int);
    if i < text.len() && text[i] == '"' {
        assert(s.drop_first() =~= tail_from(text@, i as int + 1));
        match string_body_at(text, i + 1) {
            Some((key, j1)) => {
                let j2 = skip_ws_at(text, j1);
                if j2 < text.len() && text[j2] == ':' {
                    assert(tail_from(text@, j2 as int).drop_first() =~= tail_from(
                        text@,
                        j2 as int + 1,
                    ));
                    let j3 = skip_ws_at(text, j2 + 1);
                    match value_at(text, j3) {
                        Some((v, j4)) => {
                            let j5 = skip_ws_at(text, j4);
                            Some((Member { key, value: v }, j5))
                        },
                        None => None,
                    }
                } else {
                    None
                }
            },
            None => None,
        }
    } else {
        None
    }
}

fn members_at(text: &Vec<char>, i: usize) -> (r: Option<(Vec<Member>, usize)>)
    requires
        i <= text@.len(),
    ensures
        match r {
            Some((ms, j)) => j <= text@.len() && members(tail_from(text@, i as int)) == Some(
                (members_view(ms@), tail_from(text@, j as int)),
            ),
            None => members(tail_from(text@, i as int)) is None,
        },
    decreases text@.len() - i,
{
    let ghost s = tail_from(text@, i as int);
    match member_at(text, i) {
        Some((m, j)) => {
            let ghost r = tail_from(text@, j as int);
            if j < text.len() && text[j] == ',' {
                assert(r.drop_first() =~= tail_from(text@, j as int + 1));
                let k = skip_ws_at(text, j + 1);
                if k > i {
                    match members_at(text, k) {
                        Some((ms, e)) => {
                            let mut out: Vec<Member> = Vec::new();
                            out.push(m);
                            let mut rest = ms;
                            out.append(&mut rest);
                            assert(members_view(out@) =~= seq![member_view(m)] + members_view(
                                ms@,
                            ));
                            Some((out, e))
                        },
                        None => None,
                    }
                } else {
                    None
                }
            } else if j < text.len() && text[j] == '}' {
                assert(r.drop_first() =~= tail_from(text@, j as int + 1));
                let mut out: Vec<Member> = Vec::new();
                out.push(m);
                assert(members_view(out@) =~= seq![member_view(m)]);
                Some((out, j + 1))
            } else {
                None
            }
        },
        None => None,
    }
}

/// Reads a JSON object: the strings and literals among its member values are
/// kept, nested arrays and objects are checked and skipped.
#[verifier::rlimit(40)]
pub fn parse_object(text: &Vec<char>) -> (r: Option<Vec<Member>>)
    ensures
        match r {
            Some(ms) => object(text@) == Some(members_view(ms@)),
            None => object(text@) is None,
        },
{
    assert(tail_from(text@, 0) =~= text@);
    let t = skip_ws_at(text, 0);
    if t < text.len() && text[t] == '{' {
        assert(tail_from(text@, t as int).drop_first() =~= tail_from(text@, t as int + 1));
        let u = skip_ws_at(text, t + 1);
        let body = if u < text.len() && text[u] == '}' {
            assert(tail_from(text@, u as int).drop_first() =~= tail_from(text@, u as int + 1));
            let empty: Vec<Member> = Vec::new();
            assert(members_view(empty@) =~= Seq::<(Seq<char>, JsonValueView)>::empty());
            Some((empty, u + 1))
        } else {
            members_at(text, u)
        };
        match body {
            Some((ms, e)) => {
                let f = skip_ws_at(text, e);
                if f == text.len() {
                    Some(ms)
                } else {
                    None
                }
            },
            None => None,
        }
    } else {
        None
    }
}

/// A `"key":"value"` member with a string value.
pub open spec fn member_text(k: Seq<char>, v: Seq<char>) -> Seq<char> {
    quoted(k) + seq![':'] + quoted(v)
}

/// The members of an object, comma separated, followed by its closing brace.
pub open spec fn members_text(ms: Seq<(Seq<char>, Seq<char>)>) -> Seq<char>
    decreases ms.len(),
{
    if ms.len() == 0 {
        seq!['}']
    } else if ms.len() == 1 {
        member_text(ms[0].0, ms[0].1) + seq!['}']
    } else {
        member_text(ms[0].0, ms[0].1) + seq![','] + members_text(ms.drop_first())
    }
}

/// The JSON object whose members map each key of `ms` to its string value, in order.
pub open spec fn object_text(ms: Seq<(Seq<char>, Seq<char>)>) -> Seq<char> {
    seq!['{'] + members_text(ms)
}

/// The members that reading [`object_text`] gives back.
pub open spec fn text_members(ms: Seq<(Seq<char>, Seq<char>)>) -> Seq<(Seq<char>, JsonValueView)> {
    ms.map_values(|p: (Seq<char>, Seq<char>)| (p.0, JsonValueView::Text(p.1)))
}

/// The value of the first member named `key`.
pub open spec fn lookup(ms: Seq<(Seq<char>, JsonValueView)>, key: Seq<char>) -> Option<JsonValueView>
    decreases ms.len(),
{
    if ms.len() == 0 {
        None
    } else if ms[0].0 == key {
        Some(ms[0].1)
    } else {
        lookup(ms.drop_first(), key)
    }
}

/// The string value of the first member named `key`, if it is a string.
pub open spec fn text_field(ms: Seq<(Seq<char>, JsonValueView)>, key: Seq<char>) -> Option<Seq<char>> {
    match lookup(ms, key) {
        Some(JsonValueView::Text(t)) => Some(t),
        _ => None,
    }
}

/// The bare literal of the first member named `key`, if it is one.
pub open spec fn literal_field(ms: Seq<(Seq<char>, JsonValueView)>, key: Seq<char>) -> Option<Seq<char>> {
    match lookup(ms, key) {
        Some(JsonValueView::Literal(t)) => Some(t),
        _ => None,
    }
}

pub proof fn lemma_escape_append(a: Seq<char>, b: Seq<char>)
    ensures
        escape(a + b) == escape(a) + escape(b),
    decreases a.len(),
{
    if a.len() == 0 {
        assert(a + b =~= b);
        assert(escape(a) + escape(b) =~= escape(b));
    } else {
        assert((a + b).drop_first() =~= a.drop_first() + b);
        lemma_escape_append(a.drop_first(), b);
        assert(escape(a + b) =~= escape(a) + escape(b));
    }
}

proof fn lemma_hex_round_trip(d: int)
    requires
        0 <= d < 16,
    ensures
        hex_value(hex_digit(d)) == Some(d),
{
}

proof fn lemma_control_escape(c: char, e: Seq<char>)
    requires
        (c as u32) < 0x20,
        e == seq!['u', '0', '0', hex_digit((c as u32) as int / 16), hex_digit((c as u32) as int % 16)],
    ensures
        unescape(e) == Some(c),
        hex4(e, 1) == Some((c as u32) as int),
{
    let u = c as u32;
    lemma_hex_round_trip(u as int / 16);
    lemma_hex_round_trip(u as int % 16);
    assert(hex4_value(e) == u as int);
    vstd::utf8::char_u32_cast(c, u);
}

/// Reading the body of a string literal written by [`quoted`] gives back the
/// same characters and leaves what follows the closing quote.
#[verifier::rlimit(60)]
pub proof fn lemma_string_body_escape(x: Seq<char>, r: Seq<char>)
    ensures
        string_body(escape(x) + seq!['"'] + r) == Some((x, r)),
    decreases x.len(),
{
    let s = escape(x) + seq!['"'] + r;
    if x.len() == 0 {
        assert(s =~= seq!['"'] + r);
        assert(s.drop_first() =~= r);
    } else {
        let c = x[0];
        let rest = x.drop_first();
        let tail = escape(rest) + seq!['"'] + r;
        lemma_string_body_escape(rest, r);
        assert(s =~= escape_char(c) + tail);
        assert(seq![c] + rest =~= x);
        if c == '"' || c == '\\' {
            assert(s[1] == c);
            assert(escape_len(s) == 2);
            assert(s.subrange(1, 2) =~= seq![c]);
            assert(s.subrange(2, s.len() as int) =~= tail);
        } else if (c as u32) < 0x20 {
            let e = s.subrange(1, 6);
            assert(e =~= seq!['u', '0', '0', hex_digit((c as u32) as int / 16), hex_digit((c as u32) as int % 16)]);
            lemma_control_escape(c, e);
            assert(s[2] == e[1] && s[3] == e[2] && s[4] == e[3] && s[5] == e[4]);
            assert(hex4(s, 2) == hex4(e, 1));
            assert(!pair_at(s));
            assert(escape_len(s) == 6);
            assert(s.subrange(6, s.len() as int) =~= tail);
        } else {
            assert(s.drop_first() =~= tail);
        }
    }
}

proof fn lemma_skip_ws_none(s: Seq<char>)
    requires
        s.len() > 0,
        !is_ws(s[0]),
    ensures
        skip_ws(s) == s,
{
}

proof fn lemma_member_text(k: Seq<char>, v: Seq<char>, r: Seq<char>)
    requires
        r.len() > 0,
        r[0] == ',' || r[0] == '}',
    ensures
        member(member_text(k, v) + r) == Some(((k, JsonValueView::Text(v)), r)),
{
    let s = member_text(k, v) + r;
    let r1 = seq![':'] + quoted(v) + r;
    assert(s.drop_first() =~= escape(k) + seq!['"'] + r1);
    lemma_string_body_escape(k, r1);
    lemma_skip_ws_none(r1);
    let r2 = r1.drop_first();
    assert(r2 =~= seq!['"'] + (escape(v) + seq!['"'] + r));
    lemma_skip_ws_none(r2);
    assert(r2.drop_first() =~= escape(v) + seq!['"'] + r);
    lemma_string_body_escape(v, r);
    lemma_skip_ws_none(r);
}

proof fn lemma_members_text(ms: Seq<(Seq<char>, Seq<char>)>, r: Seq<char>)
    requires
        ms.len() >= 1,
    ensures
        members(members_text(ms) + r) == Some((text_members(ms), r)),
    decreases ms.len(),
{
    let k = ms[0].0;
    let v = ms[0].1;
    let m = (k, JsonValueView::Text(v));
    let s = members_text(ms) + r;
    if ms.len() == 1 {
        let r3 = seq!['}'] + r;
        assert(s =~= member_text(k, v) + r3);
        lemma_member_text(k, v, r3);
        assert(r3.drop_first() =~= r);
        assert(text_members(ms) =~= seq![m]);
    } else {
        let next = ms.drop_first();
        let after = members_text(next) + r;
        let r3 = seq![','] + after;
        assert(s =~= member_text(k, v) + r3);
        lemma_member_text(k, v, r3);
        assert(r3.drop_first() =~= after);
        lemma_members_text(next, r);
        assert(after[0] == '"');
        lemma_skip_ws_none(after);
        assert(text_members(ms) =~= seq![m] + text_members(next));
    }
}

/// Reading the text written by [`object_text`] gives back its members.
pub proof fn lemma_object_text(ms: Seq<(Seq<char>, Seq<char>)>)
    ensures
        object(object_text(ms)) == Some(text_members(ms)),
{
    let s = object_text(ms);
    assert(skip_ws(s) == s);
    if ms.len() == 0 {
        assert(s.drop_first() =~= seq!['}']);
        assert(skip_ws(s.drop_first()) == s.drop_first());
        assert(seq!['}'].drop_first() =~= Seq::<char>::empty());
        assert(text_members(ms) =~= Seq::<(Seq<char>, JsonValueView)>::empty());
    } else {
        assert(s.drop_first() =~= members_text(ms) + Seq::<char>::empty());
        lemma_members_text(ms, Seq::<char>::empty());
        assert(members_text(ms)[0] == '"');
        lemma_skip_ws_none(s.drop_first());
    }
}

fn hex_char(d: u32) -> (c: char)
    requires
        d < 16,
    ensures
        c == hex_digit(d as int),
{
    if d == 0 { '0' } else if d == 1 { '1' } else if d == 2 { '2' } else if d == 3 { '3' }
    else if d == 4 { '4' } else if d == 5 { '5' } else if d == 6 { '6' } else if d == 7 { '7' }
    else if d == 8 { '8' } else if d == 9 { '9' } else if d == 10 { 'a' } else if d == 11 { 'b' }
    else if d == 12 { 'c' } else if d == 13 { 'd' } else if d == 14 { 'e' } else { 'f' }
}

fn push_escaped(out: &mut Vec<char>, c: char)
    ensures
        final(out)@ == old(out)@ + escape_char(c),
{
    let ghost start = out@;
    if c == '"' || c == '\\' {
        out.push('\\');
        out.push(c);
        assert(out@ =~= start + escape_char(c));
    } else if (c as u32) < 0x20 {
        let u = c as u32;
        out.push('\\');
        out.push('u');
        out.push('0');
        out.push('0');
        out.push(hex_char(u / 16));
        out.push(hex_char(u % 16));
        assert(out@ =~= start + escape_char(c));
    } else {
        out.push(c);
        assert(out@ =~= start + escape_char(c));
    }
}

/// Appends `s` written as a JSON string literal.
pub fn push_quoted(out: &mut Vec<char>, s: &Vec<char>)
    ensures
        final(out)@ == old(out)@ + quoted(s@),
{
    let ghost start = out@;
    out.push('"');
    let mut i: usize = 0;
    while i < s.len()
        invariant
            i <= s@.len(),
            out@ == start + seq!['"'] + escape(s@.subrange(0, i as int)),
        decreases s@.len() - i,
    {
        let ghost done = s@.subrange(0, i as int);
        push_escaped(out, s[i]);
        proof {
            lemma_escape_append(done, seq![s@[i as int]]);
            assert(seq![s@[i as int]].drop_first() =~= Seq::<char>::empty());
            assert(escape(Seq::<char>::empty()) == Seq::<char>::empty());
            assert(escape_char(s@[i as int]) + Seq::<char>::empty() =~= escape_char(s@[i as int]));
            assert(escape(seq![s@[i as int]]) =~= escape_char(s@[i as int]));
            assert(done + seq![s@[i as int]] =~= s@.subrange(0, i + 1));
        }
        i = i + 1;
    }
    out.push('"');
    assert(s@.subrange(0, s@.len() as int) =~= s@);
    assert(out@ =~= start + quoted(s@));
}

/// Appends the member `"k":"v"` followed by `sep`.
pub fn push_member(out: &mut Vec<char>, k: &Vec<char>, v: &Vec<char>, sep: char)
    ensures
        final(out)@ == old(out)@ + member_text(k@, v@) + seq![sep],
{
    let ghost start = out@;
    push_quoted(out, k);
    out.push(':');
    push_quoted(out, v);
    out.push(sep);
    assert(out@ =~= start + member_text(k@, v@) + seq![sep]);
}

pub(crate) fn same_chars(a: &Vec<char>, b: &Vec<char>) -> (r: bool)
    ensures
        r == (a@ == b@),
{
    if a.len() != b.len() {
        return false;
    }
    let mut i: usize = 0;
    while i < a.len()
        invariant
            a@.len() == b@.len(),
            i <= a@.len(),
            forall|k: int| 0 <= k < i ==> a@[k] == b@[k],
        decreases a@.len() - i,
    {
        if a[i] != b[i] {
            return false;
        }
        i = i + 1;
    }
    assert(a@ =~= b@);
    true
}

fn copy_chars(a: &Vec<char>) -> (r: Vec<char>)
    ensures
        r@ == a@,
{
    slice_of(a, 0, a.len())
}

/// The value of the first member of `ms` named `key`.
pub fn find_member(ms: &Vec<Member>, key: &Vec<char>) -> (r: Option<JsonValue>)
    ensures
        match r {
            Some(v) => lookup(members_view(ms@), key@) == Some(v@),
            None => lookup(members_view(ms@), key@) is None,
        },
{
    let mut i: usize = 0;
    assert(ms@.subrange(0, ms@.len() as int) =~= ms@);
    while i < ms.len()
        invariant
            i <= ms@.len(),
            lookup(members_view(ms@), key@) == lookup(members_view(ms@.subrange(i as int, ms@.len() as int)), key@),
        decreases ms@.len() - i,
    {
        let ghost rest = members_view(ms@.subrange(i as int, ms@.len() as int));
        assert(rest.drop_first() =~= members_view(ms@.subrange(i + 1, ms@.len() as int)));
        if same_chars(&ms[i].key, key) {
            let v = match &ms[i].value {
                JsonValue::Text(t) => JsonValue::Text(copy_chars(t)),
                JsonValue::Literal(t) => JsonValue::Literal(copy_chars(t)),
                JsonValue::Nested => JsonValue::Nested,
            };
            return Some(v);
        }
        i = i + 1;
    }
    assert(members_view(ms@.subrange(i as int, ms@.len() as int)).len() == 0);
    None
}

} // verus!
