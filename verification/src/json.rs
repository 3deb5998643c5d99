//! A small JSON document model with a verified parser and writer.
//!
//! Both upstream services speak JSON.  The payload shapes this gateway
//! understands are described over the mathematical model `Json`; the
//! executable parser produces a `JsonValue` whose view is exactly what the
//! specification-level grammar assigns to the input text.
use vstd::prelude::*;

verus! {

/// The mathematical model of a JSON document.  A number is kept as its
/// lexeme, so no floating point is involved anywhere.
pub enum Json {
    Null,
    Bool(bool),
    Num(Seq<char>),
    Str(Seq<char>),
    Arr(Seq<Json>),
    Obj(Seq<(Seq<char>, Json)>),
}

/// The executable JSON document tree.
#[derive(Debug, PartialEq, Eq)]
pub enum JsonValue {
    Null,
    Bool(bool),
    Num(String),
    Str(String),
    Arr(Vec<JsonValue>),
    Obj(Vec<(String, JsonValue)>),
}

broadcast use vstd::std_specs::vec::group_vec_axioms;

impl JsonValue {
    /// The model of this document tree.
    pub open spec fn jm(self) -> Json
        decreases self,
    {
        match self {
            JsonValue::Null => Json::Null,
            JsonValue::Bool(b) => Json::Bool(b),
            JsonValue::Num(t) => Json::Num(t@),
            JsonValue::Str(t) => Json::Str(t@),
            JsonValue::Arr(items) => Json::Arr(jm_items(items)),
            JsonValue::Obj(fields) => Json::Obj(jm_fields(fields)),
        }
    }
}

/// The models of the documents in `items`, in order.
pub open spec fn jm_items(items: Vec<JsonValue>) -> Seq<Json>
    decreases items,
{
    Seq::new(
        items@.len(),
        |i: int|
            if 0 <= i < items@.len() {
                items[i].jm()
            } else {
                Json::Null
            },
    )
}

/// The model of one object member.
pub open spec fn jm_member(m: (String, JsonValue)) -> (Seq<char>, Json)
    decreases m,
{
    (m.0@, m.1.jm())
}

/// The models of the members in `fields`, in order.
pub open spec fn jm_fields(fields: Vec<(String, JsonValue)>) -> Seq<(Seq<char>, Json)>
    decreases fields,
{
    Seq::new(
        fields@.len(),
        |i: int|
            if 0 <= i < fields@.len() {
                jm_member(fields[i])
            } else {
                (Seq::empty(), Json::Null)
            },
    )
}

impl View for JsonValue {
    type V = Json;

    open spec fn view(&self) -> Json {
        self.jm()
    }
}

/// JSON insignificant whitespace.
pub open spec fn is_ws(c: char) -> bool {
    c == ' ' || c == '\n' || c == '\r' || c == '\t'
}

/// The first index at or after `pos` that does not hold whitespace.
pub open spec fn spec_skip_ws(s: Seq<char>, pos: int) -> int
    decreases s.len() - pos,
{
    if 0 <= pos < s.len() && is_ws(s[pos]) {
        spec_skip_ws(s, pos + 1)
    } else {
        pos
    }
}

pub open spec fn is_digit(c: char) -> bool {
    '0' <= c && c <= '9'
}

/// The end of the run of decimal digits that starts at `pos`.
pub open spec fn spec_skip_digits(s: Seq<char>, pos: int) -> int
    decreases s.len() - pos,
{
    if 0 <= pos < s.len() && is_digit(s[pos]) {
        spec_skip_digits(s, pos + 1)
    } else {
        pos
    }
}

/// The lexeme of the JSON number that starts at `pos`, with the index just
/// past it.
pub open spec fn spec_parse_number(s: Seq<char>, pos: int) -> Option<(Seq<char>, int)> {
    if pos < 0 {
        None
    } else {
        let p1 = if pos < s.len() && s[pos] == '-' {
            pos + 1
        } else {
            pos
        };
        if !(p1 < s.len() && is_digit(s[p1])) {
            None
        } else {
            let p2 = if s[p1] == '0' {
                p1 + 1
            } else {
                spec_skip_digits(s, p1)
            };
            let p3 = if p2 < s.len() && s[p2] == '.' {
                let d = spec_skip_digits(s, p2 + 1);
                if d > p2 + 1 {
                    d
                } else {
                    -1
                }
            } else {
                p2
            };
            if p3 < 0 {
                None
            } else {
                let p4 = if p3 < s.len() && (s[p3] == 'e' || s[p3] == 'E') {
                    let q = if p3 + 1 < s.len() && (s[p3 + 1] == '+' || s[p3 + 1] == '-') {
                        p3 + 2
                    } else {
                        p3 + 1
                    };
                    let d = spec_skip_digits(s, q);
                    if d > q {
                        d
                    } else {
                        -1
                    }
                } else {
                    p3
                };
                if p4 < 0 {
                    None
                } else {
                    Some((s.subrange(pos, p4), p4))
                }
            }
        }
    }
}

/// The value of a hexadecimal digit, or -1.
pub open spec fn spec_hex_val(c: char) -> int {
    if '0' <= c && c <= '9' {
        c as int - '0' as int
    } else if 'a' <= c && c <= 'f' {
        c as int - 'a' as int + 10
    } else if 'A' <= c && c <= 'F' {
        c as int - 'A' as int + 10
    } else {
        -1
    }
}

/// The value of the four hexadecimal digits at `pos`, or -1.
pub open spec fn spec_hex4(s: Seq<char>, pos: int) -> int {
    if 0 <= pos && pos + 4 <= s.len() && spec_hex_val(s[pos]) >= 0 && spec_hex_val(s[pos + 1]) >= 0
        && spec_hex_val(s[pos + 2]) >= 0 && spec_hex_val(s[pos + 3]) >= 0 {
        spec_hex_val(s[pos]) * 4096 + spec_hex_val(s[pos + 1]) * 256 + spec_hex_val(s[pos + 2]) * 16
            + spec_hex_val(s[pos + 3])
    } else {
        -1
    }
}

/// The character denoted by the escape whose introducing backslash stands
/// just before `pos`, with the index just past the escape.
pub open spec fn spec_parse_escape(s: Seq<char>, pos: int) -> Option<(char, int)> {
    if !(0 <= pos < s.len()) {
        None
    } else {
        let c = s[pos];
        if c == '"' {
            Some(('"', pos + 1))
        } else if c == '\\' {
            Some(('\\', pos + 1))
        } else if c == '/' {
            Some(('/', pos + 1))
        } else if c == 'b' {
            Some(('\u{8}', pos + 1))
        } else if c == 'f' {
            Some(('\u{c}', pos + 1))
        } else if c == 'n' {
            Some(('\n', pos + 1))
        } else if c == 'r' {
            Some(('\r', pos + 1))
        } else if c == 't' {
            Some(('\t', pos + 1))
        } else if c == 'u' {
            let h = spec_hex4(s, pos + 1);
            if h < 0 {
                None
            } else if 0xD800 <= h && h <= 0xDBFF {
                // A high surrogate must be followed by an escaped low
                // surrogate; together they denote one supplementary
                // character.
                if pos + 6 < s.len() && s[pos + 5] == '\\' && s[pos + 6] == 'u' {
                    let l = spec_hex4(s, pos + 7);
                    if 0xDC00 <= l && l <= 0xDFFF {
                        Some((((0x10000 + (h - 0xD800) * 0x400 + (l - 0xDC00)) as char), pos + 11))
                    } else {
                        None
                    }
                } else {
                    None
                }
            } else if 0xDC00 <= h && h <= 0xDFFF {
                None
            } else {
                Some(((h as char), pos + 5))
            }
        } else {
            None
        }
    }
}

/// The content of the string literal whose opening quote stands just before
/// `pos`, with the index just past the closing quote.
pub open spec fn spec_parse_string_body(s: Seq<char>, pos: int) -> Option<(Seq<char>, int)>
    decreases s.len() - pos,
{
    if !(0 <= pos < s.len()) {
        None
    } else if s[pos] == '"' {
        Some((Seq::empty(), pos + 1))
    } else if s[pos] == '\\' {
        match spec_parse_escape(s, pos + 1) {
            None => None,
            Some((c, q)) => if q <= pos + 1 || q > s.len() {
                None
            } else {
                match spec_parse_string_body(s, q) {
                    None => None,
                    Some((t, e)) => Some((seq![c] + t, e)),
                }
            },
        }
    } else if (s[pos] as int) < 0x20 {
        None
    } else {
        match spec_parse_string_body(s, pos + 1) {
            None => None,
            Some((t, e)) => Some((seq![s[pos]] + t, e)),
        }
    }
}

/// The JSON value that starts exactly at `pos`, with the index just past it.
pub open spec fn spec_parse_value(s: Seq<char>, pos: int) -> Option<(Json, int)>
    decreases s.len() - pos, 3int,
{
    if !(0 <= pos < s.len()) {
        None
    } else {
        let c = s[pos];
        if c == '{' {
            match spec_parse_obj_items(s, pos + 1) {
                None => None,
                Some((fs, e)) => Some((Json::Obj(fs), e)),
            }
        } else if c == '[' {
            match spec_parse_arr_items(s, pos + 1) {
                None => None,
                Some((vs, e)) => Some((Json::Arr(vs), e)),
            }
        } else if c == '"' {
            match spec_parse_string_body(s, pos + 1) {
                None => None,
                Some((t, e)) => Some((Json::Str(t), e)),
            }
        } else if c == 't' {
            if pos + 4 <= s.len() && s[pos + 1] == 'r' && s[pos + 2] == 'u' && s[pos + 3] == 'e' {
                Some((Json::Bool(true), pos + 4))
            } else {
                None
            }
        } else if c == 'f' {
            if pos + 5 <= s.len() && s[pos + 1] == 'a' && s[pos + 2] == 'l' && s[pos + 3] == 's'
                && s[pos + 4] == 'e' {
                Some((Json::Bool(false), pos + 5))
            } else {
                None
            }
        } else if c == 'n' {
            if pos + 4 <= s.len() && s[pos + 1] == 'u' && s[pos + 2] == 'l' && s[pos + 3] == 'l' {
                Some((Json::Null, pos + 4))
            } else {
                None
            }
        } else if c == '-' || is_digit(c) {
            match spec_parse_number(s, pos) {
                None => None,
                Some((t, e)) => Some((Json::Num(t), e)),
            }
        } else {
            None
        }
    }
}

/// The items of the array whose opening bracket stands just before `pos`,
/// with the index just past the closing bracket.
pub open spec fn spec_parse_arr_items(s: Seq<char>, pos: int) -> Option<(Seq<Json>, int)>
    decreases s.len() - pos, 5int,
{
    if !(0 <= pos <= s.len()) {
        None
    } else {
        let p = spec_skip_ws(s, pos);
        if !(pos <= p < s.len()) {
            None
        } else if s[p] == ']' {
            Some((Seq::empty(), p + 1))
        } else {
            spec_parse_arr_rest(s, p)
        }
    }
}

/// A non-empty tail of array items, the first of which starts at `pos`,
/// possibly after whitespace.
pub open spec fn spec_parse_arr_rest(s: Seq<char>, pos: int) -> Option<(Seq<Json>, int)>
    decreases s.len() - pos, 4int,
{
    if !(0 <= pos <= s.len()) {
        None
    } else {
        let p0 = spec_skip_ws(s, pos);
        if !(pos <= p0 < s.len()) {
            None
        } else {
            match spec_parse_value(s, p0) {
                None => None,
                Some((v, q)) => {
                    if !(p0 < q <= s.len()) {
                        None
                    } else {
                        let r = spec_skip_ws(s, q);
                        if !(q <= r < s.len()) {
                            None
                        } else if s[r] == ']' {
                            Some((seq![v], r + 1))
                        } else if s[r] == ',' {
                            match spec_parse_arr_rest(s, r + 1) {
                                None => None,
                                Some((vs, e)) => Some((seq![v] + vs, e)),
                            }
                        } else {
                            None
                        }
                    }
                },
            }
        }
    }
}

/// One `"key": value` member starting exactly at `pos`.
pub open spec fn spec_parse_member(s: Seq<char>, pos: int) -> Option<((Seq<char>, Json), int)>
    decreases s.len() - pos, 4int,
{
    if !(0 <= pos < s.len() && s[pos] == '"') {
        None
    } else {
        match spec_parse_string_body(s, pos + 1) {
            None => None,
            Some((k, q)) => {
                if !(pos + 1 < q <= s.len()) {
                    None
                } else {
                    let r = spec_skip_ws(s, q);
                    if !(q <= r < s.len() && s[r] == ':') {
                        None
                    } else {
                        let p = spec_skip_ws(s, r + 1);
                        if !(r + 1 <= p <= s.len()) {
                            None
                        } else {
                            match spec_parse_value(s, p) {
                                None => None,
                                Some((v, e)) => Some(((k, v), e)),
                            }
                        }
                    }
                }
            },
        }
    }
}

/// The members of the object whose opening brace stands just before `pos`,
/// with the index just past the closing brace.
pub open spec fn spec_parse_obj_items(s: Seq<char>, pos: int) -> Option<
    (Seq<(Seq<char>, Json)>, int),
>
    decreases s.len() - pos, 6int,
{
    if !(0 <= pos <= s.len()) {
        None
    } else {
        let p = spec_skip_ws(s, pos);
        if !(pos <= p < s.len()) {
            None
        } else if s[p] == '}' {
            Some((Seq::empty(), p + 1))
        } else {
            spec_parse_obj_rest(s, p)
        }
    }
}

/// A non-empty tail of object members, the first of which starts at
/// `pos`, possibly after whitespace.
pub open spec fn spec_parse_obj_rest(s: Seq<char>, pos: int) -> Option<
    (Seq<(Seq<char>, Json)>, int),
>
    decreases s.len() - pos, 5int,
{
    if !(0 <= pos <= s.len()) {
        None
    } else {
        let p0 = spec_skip_ws(s, pos);
        if !(pos <= p0 < s.len()) {
            None
        } else {
            match spec_parse_member(s, p0) {
                None => None,
                Some((kv, q)) => {
                    if !(p0 < q <= s.len()) {
                        None
                    } else {
                        let r = spec_skip_ws(s, q);
                        if !(q <= r < s.len()) {
                            None
                        } else if s[r] == '}' {
                            Some((seq![kv], r + 1))
                        } else if s[r] == ',' {
                            match spec_parse_obj_rest(s, r + 1) {
                                None => None,
                                Some((fs, e)) => Some((seq![kv] + fs, e)),
                            }
                        } else {
                            None
                        }
                    }
                },
            }
        }
    }
}

/// A complete JSON document: one value, possibly surrounded by whitespace.
pub open spec fn spec_parse_json(s: Seq<char>) -> Option<Json> {
    let p = spec_skip_ws(s, 0);
    match spec_parse_value(s, p) {
        None => None,
        Some((v, e)) => if spec_skip_ws(s, e) == s.len() {
            Some(v)
        } else {
            None
        },
    }
}

fn is_ws_x(c: char) -> (r: bool)
    ensures
        r == is_ws(c),
{
    c == ' ' || c == '\n' || c == '\r' || c == '\t'
}

fn is_digit_x(c: char) -> (r: bool)
    ensures
        r == is_digit(c),
{
    '0' <= c && c <= '9'
}

fn skip_ws(s: &Vec<char>, pos: usize) -> (r: usize)
    requires
        pos <= s@.len(),
    ensures
        r as int == spec_skip_ws(s@, pos as int),
        pos <= r <= s@.len(),
{
    let mut i: usize = pos;
    while i < s.len() && is_ws_x(s[i])
        invariant
            pos <= i <= s@.len(),
            spec_skip_ws(s@, pos as int) == spec_skip_ws(s@, i as int),
        decreases s@.len() - i,
    {
        i = i + 1;
    }
    i
}

fn skip_digits(s: &Vec<char>, pos: usize) -> (r: usize)
    requires
        pos <= s@.len(),
    ensures
        r as int == spec_skip_digits(s@, pos as int),
        pos <= r <= s@.len(),
{
    let mut i: usize = pos;
    while i < s.len() && is_digit_x(s[i])
        invariant
            pos <= i <= s@.len(),
            spec_skip_digits(s@, pos as int) == spec_skip_digits(s@, i as int),
        decreases s@.len() - i,
    {
        i = i + 1;
    }
    i
}

fn hex_val(c: char) -> (r: i32)
    ensures
        r as int == spec_hex_val(c),
{
    if '0' <= c && c <= '9' {
        ((c as u32) - ('0' as u32)) as i32
    } else if 'a' <= c && c <= 'f' {
        ((c as u32) - ('a' as u32) + 10) as i32
    } else if 'A' <= c && c <= 'F' {
        ((c as u32) - ('A' as u32) + 10) as i32
    } else {
        -1
    }
}

fn hex4(s: &Vec<char>, pos: usize) -> (r: i32)
    requires
        pos <= s@.len(),
    ensures
        r as int == spec_hex4(s@, pos as int),
{
    if s.len() - pos >= 4 {
        let h0 = hex_val(s[pos]);
        let h1 = hex_val(s[pos + 1]);
        let h2 = hex_val(s[pos + 2]);
        let h3 = hex_val(s[pos + 3]);
        if h0 >= 0 && h1 >= 0 && h2 >= 0 && h3 >= 0 {
            h0 * 4096 + h1 * 256 + h2 * 16 + h3
        } else {
            -1
        }
    } else {
        -1
    }
}

fn parse_escape(s: &Vec<char>, pos: usize) -> (r: Option<(char, usize)>)
    requires
        pos <= s@.len(),
    ensures
        match r {
            Some(cq) => spec_parse_escape(s@, pos as int) == Some((cq.0, cq.1 as int)) && pos
                < cq.1 <= s@.len(),
            None => spec_parse_escape(s@, pos as int) is None,
        },
{
    if pos >= s.len() {
        return None;
    }
    let c = s[pos];
    if c == '"' {
        Some(('"', pos + 1))
    } else if c == '\\' {
        Some(('\\', pos + 1))
    } else if c == '/' {
        Some(('/', pos + 1))
    } else if c == 'b' {
        Some(('\u{8}', pos + 1))
    } else if c == 'f' {
        Some(('\u{c}', pos + 1))
    } else if c == 'n' {
        Some(('\n', pos + 1))
    } else if c == 'r' {
        Some(('\r', pos + 1))
    } else if c == 't' {
        Some(('\t', pos + 1))
    } else if c == 'u' {
        let h = hex4(s, pos + 1);
        if h < 0 {
            None
        } else if 0xD800 <= h && h <= 0xDBFF {
            if s.len() - pos > 6 && s[pos + 5] == '\\' && s[pos + 6] == 'u' {
                let l = hex4(s, pos + 7);
                if 0xDC00 <= l && l <= 0xDFFF {
                    let v: u32 = 0x10000 + ((h as u32) - 0xD800) * 0x400 + ((l as u32) - 0xDC00);
                    let c2 = crate::text::char_from_u32(v).unwrap();
                    proof {
                        let x: int = 0x10000 + (spec_hex4(s@, pos + 1 as int) - 0xD800) * 0x400 + (
                        spec_hex4(s@, pos + 7 as int) - 0xDC00);
                        assert(c2 as int == x);
                        assert((x as char) as int == x);
                        assert(c2 == (x as char));
                    }
                    Some((c2, pos + 11))
                } else {
                    None
                }
            } else {
                None
            }
        } else if 0xDC00 <= h && h <= 0xDFFF {
            None
        } else {
            let c2 = crate::text::char_from_u32(h as u32).unwrap();
            proof {
                let x: int = spec_hex4(s@, pos + 1 as int);
                assert(c2 as int == x);
                assert((x as char) as int == x);
                assert(c2 == (x as char));
            }
            Some((c2, pos + 5))
        }
    } else {
        None
    }
}

fn parse_string_body(s: &Vec<char>, pos: usize) -> (r: Option<(Vec<char>, usize)>)
    requires
        pos <= s@.len(),
    ensures
        match r {
            Some(te) => spec_parse_string_body(s@, pos as int) == Some((te.0@, te.1 as int)) && pos
                < te.1 <= s@.len(),
            None => spec_parse_string_body(s@, pos as int) is None,
        },
{
    let mut acc: Vec<char> = Vec::new();
    let mut i: usize = pos;
    loop
        invariant
            pos <= i <= s@.len(),
            (match spec_parse_string_body(s@, i as int) {
                Some((t, e)) => spec_parse_string_body(s@, pos as int) == Some((acc@ + t, e)),
                None => spec_parse_string_body(s@, pos as int) is None,
            }),
        decreases s@.len() - i,
    {
        if i == s.len() {
            proof {
                assert(spec_parse_string_body(s@, i as int) is None);
            }
            return None;
        }
        let c = s[i];
        let space: char = ' ';
        if c == '"' {
            proof {
                assert(spec_parse_string_body(s@, i as int) == Some(
                    (Seq::<char>::empty(), i + 1 as int),
                ));
                assert(acc@ + Seq::<char>::empty() =~= acc@);
            }
            return Some((acc, i + 1));
        } else if c == '\\' {
            match parse_escape(s, i + 1) {
                None => {
                    proof {
                        assert(spec_parse_string_body(s@, i as int) is None);
                    }
                    return None;
                },
                Some((ec, q)) => {
                    proof {
                        let w = spec_parse_string_body(s@, q as int);
                        assert(spec_parse_string_body(s@, i as int) == (match w {
                            None => None::<(Seq<char>, int)>,
                            Some((t, e)) => Some((seq![ec] + t, e)),
                        }));
                        if w is Some {
                            assert(acc@ + (seq![ec] + (w->0).0) =~= acc@.push(ec) + (w->0).0);
                        }
                    }
                    acc.push(ec);
                    i = q;
                },
            }
        } else if c < space {
            proof {
                assert(spec_parse_string_body(s@, i as int) is None);
            }
            return None;
        } else {
            proof {
                let w = spec_parse_string_body(s@, i + 1 as int);
                assert(spec_parse_string_body(s@, i as int) == (match w {
                    None => None::<(Seq<char>, int)>,
                    Some((t, e)) => Some((seq![c] + t, e)),
                }));
                if w is Some {
                    assert(acc@ + (seq![c] + (w->0).0) =~= acc@.push(c) + (w->0).0);
                }
            }
            acc.push(c);
            i = i + 1;
        }
    }
}

fn parse_number(s: &Vec<char>, pos: usize) -> (r: Option<(Vec<char>, usize)>)
    requires
        pos <= s@.len(),
    ensures
        match r {
            Some(te) => spec_parse_number(s@, pos as int) == Some((te.0@, te.1 as int)) && pos
                < te.1 <= s@.len(),
            None => spec_parse_number(s@, pos as int) is None,
        },
{
    let p1: usize = if pos < s.len() && s[pos] == '-' {
        pos + 1
    } else {
        pos
    };
    if !(p1 < s.len() && is_digit_x(s[p1])) {
        return None;
    }
    let p2: usize = if s[p1] == '0' {
        p1 + 1
    } else {
        let d = skip_digits(s, p1 + 1);
        proof {
            assert(spec_skip_digits(s@, p1 as int) == spec_skip_digits(s@, p1 + 1 as int));
        }
        d
    };
    let mut fail: bool = false;
    let mut p3: usize = p2;
    if p2 < s.len() && s[p2] == '.' {
        let d = skip_digits(s, p2 + 1);
        if d > p2 + 1 {
            p3 = d;
        } else {
            fail = true;
        }
    }
    if fail {
        return None;
    }
    let mut p4: usize = p3;
    if p3 < s.len() && (s[p3] == 'e' || s[p3] == 'E') {
        let q: usize = if p3 + 1 < s.len() && (s[p3 + 1] == '+' || s[p3 + 1] == '-') {
            p3 + 2
        } else {
            p3 + 1
        };
        if q <= s.len() {
            let d = skip_digits(s, q);
            if d > q {
                p4 = d;
            } else {
                fail = true;
            }
        } else {
            fail = true;
        }
    }
    if fail {
        return None;
    }
    let mut lex: Vec<char> = Vec::new();
    let mut i: usize = pos;
    while i < p4
        invariant
            pos <= i <= p4 <= s@.len(),
            lex@ == s@.subrange(pos as int, i as int),
        decreases p4 - i,
    {
        lex.push(s[i]);
        proof {
            assert(s@.subrange(pos as int, i + 1 as int) =~= s@.subrange(pos as int, i as int).push(
                s@[i as int],
            ));
        }
        i = i + 1;
    }
    proof {
        assert(spec_parse_number(s@, pos as int) == Some(
            (s@.subrange(pos as int, p4 as int), p4 as int),
        ));
    }
    Some((lex, p4))
}

fn parse_value(s: &Vec<char>, pos: usize) -> (r: Option<(JsonValue, usize)>)
    requires
        pos <= s@.len(),
    ensures
        match r {
            Some(ve) => spec_parse_value(s@, pos as int) == Some((ve.0.jm(), ve.1 as int)) && pos
                < ve.1 <= s@.len(),
            None => spec_parse_value(s@, pos as int) is None,
        },
    decreases s@.len() - pos, 3int,
{
    if pos >= s.len() {
        return None;
    }
    let c = s[pos];
    if c == '{' {
        match parse_obj_items(s, pos + 1) {
            None => None,
            Some((fs, e)) => {
                let jv = JsonValue::Obj(fs);
                Some((jv, e))
            },
        }
    } else if c == '[' {
        match parse_arr_items(s, pos + 1) {
            None => None,
            Some((vs, e)) => {
                let jv = JsonValue::Arr(vs);
                Some((jv, e))
            },
        }
    } else if c == '"' {
        match parse_string_body(s, pos + 1) {
            None => None,
            Some((t, e)) => {
                let jv = JsonValue::Str(crate::text::chars_to_string(&t));
                Some((jv, e))
            },
        }
    } else if c == 't' {
        if s.len() - pos >= 4 && s[pos + 1] == 'r' && s[pos + 2] == 'u' && s[pos + 3] == 'e' {
            Some((JsonValue::Bool(true), pos + 4))
        } else {
            None
        }
    } else if c == 'f' {
        if s.len() - pos >= 5 && s[pos + 1] == 'a' && s[pos + 2] == 'l' && s[pos + 3] == 's' && s[pos
            + 4] == 'e' {
            Some((JsonValue::Bool(false), pos + 5))
        } else {
            None
        }
    } else if c == 'n' {
        if s.len() - pos >= 4 && s[pos + 1] == 'u' && s[pos + 2] == 'l' && s[pos + 3] == 'l' {
            Some((JsonValue::Null, pos + 4))
        } else {
            None
        }
    } else if c == '-' || is_digit_x(c) {
        match parse_number(s, pos) {
            None => None,
            Some((t, e)) => {
                let jv = JsonValue::Num(crate::text::chars_to_string(&t));
                Some((jv, e))
            },
        }
    } else {
        None
    }
}

fn parse_arr_items(s: &Vec<char>, pos: usize) -> (r: Option<(Vec<JsonValue>, usize)>)
    requires
        pos <= s@.len(),
    ensures
        match r {
            Some(ve) => spec_parse_arr_items(s@, pos as int) == Some(
                (jm_items(ve.0), ve.1 as int),
            ) && pos < ve.1 <= s@.len(),
            None => spec_parse_arr_items(s@, pos as int) is None,
        },
    decreases s@.len() - pos, 5int,
{
    let p = skip_ws(s, pos);
    if p >= s.len() {
        return None;
    }
    if s[p] == ']' {
        let out: Vec<JsonValue> = Vec::new();
        proof {
            assert(jm_items(out) =~= Seq::<Json>::empty());
        }
        Some((out, p + 1))
    } else {
        parse_arr_rest(s, p)
    }
}

fn parse_arr_rest(s: &Vec<char>, pos: usize) -> (r: Option<(Vec<JsonValue>, usize)>)
    requires
        pos <= s@.len(),
    ensures
        match r {
            Some(ve) => spec_parse_arr_rest(s@, pos as int) == Some((jm_items(ve.0), ve.1 as int))
                && pos < ve.1 <= s@.len(),
            None => spec_parse_arr_rest(s@, pos as int) is None,
        },
    decreases s@.len() - pos, 4int,
{
    let p0 = skip_ws(s, pos);
    if p0 >= s.len() {
        return None;
    }
    match parse_value(s, p0) {
        None => None,
        Some((v, q)) => {
            let r2 = skip_ws(s, q);
            if r2 >= s.len() {
                return None;
            }
            let ch = s[r2];
            if ch == ']' {
                let mut out: Vec<JsonValue> = Vec::new();
                let ghost vm = v.jm();
                out.push(v);
                proof {
                    assert(jm_items(out) =~= seq![vm]);
                }
                Some((out, r2 + 1))
            } else if ch == ',' {
                match parse_arr_rest(s, r2 + 1) {
                    None => None,
                    Some((vs, e)) => {
                        let ghost before = vs;
                        let ghost vm = v.jm();
                        let mut vs2 = vs;
                        vs2.insert(0, v);
                        proof {
                            assert forall|j: int| 0 <= j < vs2@.len() implies jm_items(vs2)[j] == (
                            seq![vm] + jm_items(before))[j] by {
                                if j == 0 {
                                    assert(vs2@[0] == vs2@.index(0));
                                } else {
                                    assert(vs2@[j] == before@[j - 1]);
                                }
                            }
                            assert(jm_items(vs2) =~= seq![vm] + jm_items(before));
                        }
                        Some((vs2, e))
                    },
                }
            } else {
                None
            }
        },
    }
}

fn parse_member(s: &Vec<char>, pos: usize) -> (r: Option<((String, JsonValue), usize)>)
    requires
        pos <= s@.len(),
    ensures
        match r {
            Some(kve) => spec_parse_member(s@, pos as int) == Some(
                (jm_member(kve.0), kve.1 as int),
            ) && pos < kve.1 <= s@.len(),
            None => spec_parse_member(s@, pos as int) is None,
        },
    decreases s@.len() - pos, 4int,
{
    if pos >= s.len() {
        return None;
    }
    if s[pos] != '"' {
        return None;
    }
    match parse_string_body(s, pos + 1) {
        None => None,
        Some((k, q)) => {
            let r2 = skip_ws(s, q);
            if r2 >= s.len() {
                return None;
            }
            if s[r2] != ':' {
                return None;
            }
            let p = skip_ws(s, r2 + 1);
            match parse_value(s, p) {
                None => None,
                Some((v, e)) => {
                    let key = crate::text::chars_to_string(&k);
                    Some(((key, v), e))
                },
            }
        },
    }
}

fn parse_obj_items(s: &Vec<char>, pos: usize) -> (r: Option<(Vec<(String, JsonValue)>, usize)>)
    requires
        pos <= s@.len(),
    ensures
        match r {
            Some(ve) => spec_parse_obj_items(s@, pos as int) == Some(
                (jm_fields(ve.0), ve.1 as int),
            ) && pos < ve.1 <= s@.len(),
            None => spec_parse_obj_items(s@, pos as int) is None,
        },
    decreases s@.len() - pos, 6int,
{
    let p = skip_ws(s, pos);
    if p >= s.len() {
        return None;
    }
    if s[p] == '}' {
        let out: Vec<(String, JsonValue)> = Vec::new();
        proof {
            assert(jm_fields(out) =~= Seq::<(Seq<char>, Json)>::empty());
        }
        Some((out, p + 1))
    } else {
        parse_obj_rest(s, p)
    }
}

fn parse_obj_rest(s: &Vec<char>, pos: usize) -> (r: Option<(Vec<(String, JsonValue)>, usize)>)
    requires
        pos <= s@.len(),
    ensures
        match r {
            Some(ve) => spec_parse_obj_rest(s@, pos as int) == Some((jm_fields(ve.0), ve.1 as int))
                && pos < ve.1 <= s@.len(),
            None => spec_parse_obj_rest(s@, pos as int) is None,
        },
    decreases s@.len() - pos, 5int,
{
    let p0 = skip_ws(s, pos);
    if p0 >= s.len() {
        return None;
    }
    match parse_member(s, p0) {
        None => None,
        Some((kv, q)) => {
            let r2 = skip_ws(s, q);
            if r2 >= s.len() {
                return None;
            }
            let ch = s[r2];
            if ch == '}' {
                let mut out: Vec<(String, JsonValue)> = Vec::new();
                let ghost kvm = jm_member(kv);
                out.push(kv);
                proof {
                    assert(jm_fields(out) =~= seq![kvm]);
                }
                Some((out, r2 + 1))
            } else if ch == ',' {
                match parse_obj_rest(s, r2 + 1) {
                    None => None,
                    Some((fs, e)) => {
                        let ghost before = fs;
                        let ghost kvm = jm_member(kv);
                        let mut fs2 = fs;
                        fs2.insert(0, kv);
                        proof {
                            assert forall|j: int| 0 <= j < fs2@.len() implies jm_fields(fs2)[j] == (
                            seq![kvm] + jm_fields(before))[j] by {
                                if j == 0 {
                                    assert(fs2@[0] == fs2@.index(0));
                                } else {
                                    assert(fs2@[j] == before@[j - 1]);
                                }
                            }
                            assert(jm_fields(fs2) =~= seq![kvm] + jm_fields(before));
                        }
                        Some((fs2, e))
                    },
                }
            } else {
                None
            }
        },
    }
}

/// Parse a complete JSON document: one value, possibly surrounded by
/// whitespace, spanning the whole input.
pub fn parse_json(text: &str) -> (r: Option<JsonValue>)
    ensures
        match r {
            Some(v) => spec_parse_json(text@) == Some(v.jm()),
            None => spec_parse_json(text@) is None,
        },
{
    let s = crate::text::str_to_chars(text);
    let p = skip_ws(&s, 0);
    match parse_value(&s, p) {
        None => None,
        Some((v, e)) => {
            let q = skip_ws(&s, e);
            if q == s.len() {
                Some(v)
            } else {
                None
            }
        },
    }
}

/// The value of the first member of `fields` whose key is `key`.
pub open spec fn spec_obj_get(fields: Seq<(Seq<char>, Json)>, key: Seq<char>) -> Option<Json>
    decreases fields.len(),
{
    if fields.len() == 0 {
        None
    } else if fields[0].0 == key {
        Some(fields[0].1)
    } else {
        spec_obj_get(fields.drop_first(), key)
    }
}

/// Look a key up among an object's members; the first match wins.
pub fn obj_get<'a>(fields: &'a Vec<(String, JsonValue)>, key: &str) -> (r: Option<&'a JsonValue>)
    ensures
        match r {
            Some(v) => spec_obj_get(jm_fields(*fields), key@) == Some(v.jm()),
            None => spec_obj_get(jm_fields(*fields), key@) is None,
        },
{
    let mut i: usize = 0;
    proof {
        assert(jm_fields(*fields).skip(0) =~= jm_fields(*fields));
    }
    while i < fields.len()
        invariant
            i <= fields@.len(),
            spec_obj_get(jm_fields(*fields), key@) == spec_obj_get(
                jm_fields(*fields).skip(i as int),
                key@,
            ),
        decreases fields@.len() - i,
    {
        if crate::text::str_eq(fields[i].0.as_str(), key) {
            proof {
                let fv = jm_fields(*fields);
                assert(fv.skip(i as int)[0] == fv[i as int]);
            }
            return Some(&fields[i].1);
        }
        proof {
            let fv = jm_fields(*fields);
            assert(fv.skip(i as int)[0] == fv[i as int]);
            assert(fv.skip(i as int).drop_first() =~= fv.skip(i + 1 as int));
        }
        i = i + 1;
    }
    proof {
        assert(jm_fields(*fields).skip(fields@.len() as int) =~= Seq::<(Seq<char>, Json)>::empty());
    }
    None
}

/// The hexadecimal digit for `v`, lower case.
pub open spec fn spec_hex_digit(v: int) -> char {
    if v < 10 {
        (('0' as int) + v) as char
    } else {
        (('a' as int) + v - 10) as char
    }
}

/// The escaped form of one character inside a JSON string literal.
pub open spec fn spec_escape_char(c: char) -> Seq<char> {
    if c == '"' {
        seq!['\\', '"']
    } else if c == '\\' {
        seq!['\\', '\\']
    } else if c == '\n' {
        seq!['\\', 'n']
    } else if c == '\r' {
        seq!['\\', 'r']
    } else if c == '\t' {
        seq!['\\', 't']
    } else if c == '\u{8}' {
        seq!['\\', 'b']
    } else if c == '\u{c}' {
        seq!['\\', 'f']
    } else if (c as int) < 0x20 {
        seq!['\\', 'u', '0', '0', spec_hex_digit(c as int / 16), spec_hex_digit(c as int % 16)]
    } else {
        seq![c]
    }
}

/// The body of the JSON string literal for `s`.
pub open spec fn spec_escape(s: Seq<char>) -> Seq<char>
    decreases s.len(),
{
    if s.len() == 0 {
        Seq::empty()
    } else {
        spec_escape(s.drop_last()) + spec_escape_char(s.last())
    }
}

/// The JSON string literal for `s`, quotes included.
pub open spec fn spec_quote(s: Seq<char>) -> Seq<char> {
    seq!['"'] + spec_escape(s) + seq!['"']
}

/// Escaping distributes over concatenation.
pub proof fn lemma_escape_concat(a: Seq<char>, b: Seq<char>)
    ensures
        spec_escape(a + b) == spec_escape(a) + spec_escape(b),
    decreases b.len(),
{
    if b.len() == 0 {
        assert(a + b =~= a);
        assert(spec_escape(a) + spec_escape(b) =~= spec_escape(a));
    } else {
        lemma_escape_concat(a, b.drop_last());
        assert((a + b).drop_last() =~= a + b.drop_last());
        assert((a + b).last() == b.last());
        assert(spec_escape(a) + (spec_escape(b.drop_last()) + spec_escape_char(b.last())) =~= (
        spec_escape(a) + spec_escape(b.drop_last())) + spec_escape_char(b.last()));
    }
}

/// The escaped form of a text, followed by a closing quote, parses back to
/// exactly that text: the writer's output reads as itself.
pub proof fn lemma_parse_escaped_at(s: Seq<char>, pos: int, t: Seq<char>)
    requires
        0 <= pos,
        pos + spec_escape(t).len() + 1 <= s.len(),
        s.subrange(pos, pos + spec_escape(t).len() + 1) == spec_escape(t) + seq!['"'],
    ensures
        spec_parse_string_body(s, pos) == Some((t, pos + spec_escape(t).len() + 1)),
    decreases t.len(),
{
    let w = spec_escape(t) + seq!['"'];
    assert forall|j: int| 0 <= j < w.len() implies s[pos + j] == w[j] by {
        assert(s.subrange(pos, pos + spec_escape(t).len() + 1)[j] == s[pos + j]);
    }
    if t.len() == 0 {
        assert(s[pos + 0] == w[0]);
        assert(s[pos] == '"');
        assert(t =~= Seq::<char>::empty());
    } else {
        let c = t[0];
        let t2 = t.drop_first();
        assert(t =~= seq![c] + t2);
        lemma_escape_concat(seq![c], t2);
        assert(seq![c].drop_last() =~= Seq::<char>::empty());
        assert(seq![c].last() == c);
        assert(spec_escape(seq![c]) == spec_escape(Seq::<char>::empty()) + spec_escape_char(c));
        assert(spec_escape(Seq::<char>::empty()) + spec_escape_char(c) =~= spec_escape_char(c));
        let ec = spec_escape_char(c);
        let e2 = spec_escape(t2);
        assert(spec_escape(t) == ec + e2);
        let k = ec.len() as int;
        assert(w =~= ec + (e2 + seq!['"']));
        // The window opens with this character's escape ...
        assert forall|j: int| 0 <= j < k implies s[pos + j] == ec[j] by {
            assert(s[pos + j] == w[j]);
            assert(w[j] == (ec + (e2 + seq!['"']))[j]);
            assert((ec + (e2 + seq!['"']))[j] == ec[j]);
        }
        // ... and what follows it is the escaped tail with the closing
        // quote.
        assert forall|j: int| 0 <= j < e2.len() + 1 implies s[pos + k + j] == (e2 + seq!['"'])[j] by {
            assert(s[pos + (k + j)] == w[k + j]);
            assert(w[k + j] == (ec + (e2 + seq!['"']))[k + j]);
            assert((ec + (e2 + seq!['"']))[k + j] == (e2 + seq!['"'])[j]);
        }
        assert forall|j: int| 0 <= j < e2.len() + 1 implies s.subrange(
            pos + k,
            pos + k + e2.len() + 1,
        )[j] == (e2 + seq!['"'])[j] by {
            assert(s.subrange(pos + k, pos + k + e2.len() + 1)[j] == s[pos + k + j]);
        }
        assert(s.subrange(pos + k, pos + k + e2.len() + 1) =~= e2 + seq!['"']);
        lemma_parse_escaped_at(s, pos + k, t2);
        if k == 1 {
            // The character stands as it is: it is none of the escaped
            // ones and no control character.
            assert(s[pos + 0] == ec[0]);
            assert(s[pos] == c);
            assert(spec_parse_string_body(s, pos) == Some((seq![c] + t2, pos + k + e2.len() + 1)));
        } else if c == '"' || c == '\\' || c == '\n' || c == '\r' || c == '\t' || c == '\u{8}' || c
            == '\u{c}' {
            // A two-character escape.
            assert(s[pos + 0] == ec[0]);
            assert(s[pos + 1] == ec[1]);
            assert(s[pos] == '\\');
            assert(spec_parse_escape(s, pos + 1) == Some((c, pos + 2)));
            assert(spec_parse_string_body(s, pos) == Some((seq![c] + t2, pos + k + e2.len() + 1)));
        } else {
            // A six-character escape of a control character.
            assert((c as int) < 0x20);
            assert(s[pos + 0] == ec[0]);
            assert(s[pos + 1] == ec[1]);
            assert(s[pos + 2] == ec[2]);
            assert(s[pos + 3] == ec[3]);
            assert(s[pos + 4] == ec[4]);
            assert(s[pos + 5] == ec[5]);
            assert(s[pos] == '\\');
            assert(s[pos + 1] == 'u');
            let u = c as u32;
            vstd::utf8::char_is_scalar(c);
            vstd::utf8::char_u32_cast(c, u);
            assert((u as char) as int == u as int);
            assert(c as int == u as int);
            assert(0 <= c as int);
            assert(0 <= c as int / 16 < 16);
            assert(0 <= c as int % 16 < 16);
            lemma_hex_digit_val(c as int / 16);
            lemma_hex_digit_val(c as int % 16);
            assert(spec_hex_val('0') == 0);
            assert(spec_hex4(s, pos + 2) == (c as int / 16) * 16 + c as int % 16);
            assert(spec_hex4(s, pos + 2) == c as int);
            assert(((c as int) as char) == c);
            assert(spec_parse_escape(s, pos + 1) == Some((c, pos + 6)));
            assert(spec_parse_string_body(s, pos) == Some((seq![c] + t2, pos + k + e2.len() + 1)));
        }
    }
}

/// A hexadecimal digit written by the writer reads back as its value.
proof fn lemma_hex_digit_val(v: int)
    requires
        0 <= v < 16,
    ensures
        spec_hex_val(spec_hex_digit(v)) == v,
{
    if v < 10 {
        assert((('0' as int) + v) as char as int == ('0' as int) + v);
    } else {
        assert((('a' as int) + v - 10) as char as int == ('a' as int) + v - 10);
    }
}

/// A quoted text followed by anything parses as a string value holding
/// exactly that text.
pub proof fn lemma_quote_round_trip(t: Seq<char>, rest: Seq<char>)
    ensures
        spec_parse_value(spec_quote(t) + rest, 0) == Some(
            (Json::Str(t), spec_quote(t).len() as int),
        ),
{
    let s = spec_quote(t) + rest;
    assert(s[0] == '"');
    assert(s.subrange(1, 1 + spec_escape(t).len() as int + 1) =~= spec_escape(t) + seq!['"']);
    lemma_parse_escaped_at(s, 1, t);
}

/// A quoted text on its own is a complete JSON document denoting exactly
/// that text: what `json_quote` writes, `parse_json` reads back unchanged.
pub proof fn lemma_quote_parses_as_document(t: Seq<char>)
    ensures
        spec_parse_json(spec_quote(t)) == Some(Json::Str(t)),
{
    let s = spec_quote(t);
    assert(s =~= s + Seq::<char>::empty());
    lemma_quote_round_trip(t, Seq::empty());
    assert(s[0] == '"');
    assert(spec_skip_ws(s, 0) == 0);
    assert(spec_skip_ws(s, s.len() as int) == s.len());
}

fn hex_digit(v: u32) -> (r: char)
    requires
        v < 16,
    ensures
        r == spec_hex_digit(v as int),
{
    if v < 10 {
        let c = crate::text::char_from_u32(('0' as u32) + v).unwrap();
        proof {
            let x: int = ('0' as int) + v as int;
            assert(c as int == x);
            assert((x as char) as int == x);
            assert(c == (x as char));
        }
        c
    } else {
        let c = crate::text::char_from_u32(('a' as u32) + v - 10).unwrap();
        proof {
            let x: int = ('a' as int) + v as int - 10;
            assert(c as int == x);
            assert((x as char) as int == x);
            assert(c == (x as char));
        }
        c
    }
}

fn push_escaped(out: &mut Vec<char>, c: char)
    ensures
        final(out)@ == old(out)@ + spec_escape_char(c),
{
    let space: char = ' ';
    if c == '"' {
        out.push('\\');
        out.push('"');
    } else if c == '\\' {
        out.push('\\');
        out.push('\\');
    } else if c == '\n' {
        out.push('\\');
        out.push('n');
    } else if c == '\r' {
        out.push('\\');
        out.push('r');
    } else if c == '\t' {
        out.push('\\');
        out.push('t');
    } else if c == '\u{8}' {
        out.push('\\');
        out.push('b');
    } else if c == '\u{c}' {
        out.push('\\');
        out.push('f');
    } else if c < space {
        out.push('\\');
        out.push('u');
        out.push('0');
        out.push('0');
        let v: u32 = c as u32;
        out.push(hex_digit(v / 16));
        out.push(hex_digit(v % 16));
    } else {
        out.push(c);
    }
    proof {
        assert(final(out)@ =~= old(out)@ + spec_escape_char(c));
    }
}

/// Write `s` as a JSON string literal, quotes included.
pub fn json_quote(s: &str) -> (r: String)
    ensures
        r@ == spec_quote(s@),
{
    let n: usize = s.unicode_len();
    let mut out: Vec<char> = Vec::new();
    out.push('"');
    proof {
        assert(out@ =~= seq!['"'] + spec_escape(s@.take(0)));
    }
    let mut i: usize = 0;
    while i < n
        invariant
            n == s@.len(),
            i <= n,
            out@ == seq!['"'] + spec_escape(s@.take(i as int)),
        decreases n - i,
    {
        let c = s.get_char(i);
        push_escaped(&mut out, c);
        proof {
            assert(s@.take(i + 1 as int).drop_last() =~= s@.take(i as int));
            assert(s@.take(i + 1 as int).last() == s@[i as int]);
            assert(spec_escape(s@.take(i + 1 as int)) == spec_escape(s@.take(i as int))
                + spec_escape_char(s@[i as int]));
            assert(out@ =~= seq!['"'] + spec_escape(s@.take(i + 1 as int)));
        }
        i = i + 1;
    }
    out.push('"');
    proof {
        assert(s@.take(n as int) =~= s@);
        assert(out@ =~= spec_quote(s@));
    }
    crate::text::chars_to_string(&out)
}

} // verus!
