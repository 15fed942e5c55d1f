use vstd::prelude::*;
use vstd::string::StrSliceExecFns;
use vstd::string::StringExecFns;

verus! {

broadcast use {
    vstd::seq::axiom_seq_index_decreases,
    vstd::std_specs::vec::axiom_vec_decreases_to_view,
    vstd::std_specs::vec::axiom_vec_index_decreases,
};

/// A JSON document, the payload language of both gateway channels.
/// Numbers keep their decimal source text, so any value read off the wire
/// can be written back unchanged.  Object members keep their order; a
/// lookup returns the first member with the asked-for key.
#[derive(Debug)]
pub enum JsonValue {
    Null,
    Bool(bool),
    Num(String),
    Str(String),
    Arr(Vec<JsonValue>),
    Obj(Vec<(String, JsonValue)>),
}

/// The mathematical shape of a `JsonValue`.
pub enum JsonSpec {
    Null,
    Bool(bool),
    Num(Seq<char>),
    Str(Seq<char>),
    Arr(Seq<JsonSpec>),
    Obj(Seq<(Seq<char>, JsonSpec)>),
}

pub open spec fn view_json(v: JsonValue) -> JsonSpec
    decreases v,
{
    match v {
        JsonValue::Null => JsonSpec::Null,
        JsonValue::Bool(b) => JsonSpec::Bool(b),
        JsonValue::Num(s) => JsonSpec::Num(s@),
        JsonValue::Str(s) => JsonSpec::Str(s@),
        JsonValue::Arr(a) => JsonSpec::Arr(view_arr(a@)),
        JsonValue::Obj(o) => JsonSpec::Obj(view_obj(o@)),
    }
}

pub open spec fn view_arr(s: Seq<JsonValue>) -> Seq<JsonSpec>
    decreases s,
{
    if s.len() == 0 {
        Seq::empty()
    } else {
        view_arr(s.drop_last()).push(view_json(s.last()))
    }
}

pub open spec fn view_obj(s: Seq<(String, JsonValue)>) -> Seq<(Seq<char>, JsonSpec)>
    decreases s,
{
    if s.len() == 0 {
        Seq::empty()
    } else {
        view_obj(s.drop_last()).push((s.last().0@, view_json(s.last().1)))
    }
}

impl View for JsonValue {
    type V = JsonSpec;

    open spec fn view(&self) -> JsonSpec {
        view_json(*self)
    }
}

pub proof fn lemma_view_arr(s: Seq<JsonValue>)
    ensures
        view_arr(s).len() == s.len(),
        forall|i: int| 0 <= i < s.len() ==> view_arr(s)[i] == view_json(s[i]),
    decreases s.len(),
{
    if s.len() > 0 {
        lemma_view_arr(s.drop_last());
    }
}

pub proof fn lemma_view_obj(s: Seq<(String, JsonValue)>)
    ensures
        view_obj(s).len() == s.len(),
        forall|i: int|
            0 <= i < s.len() ==> view_obj(s)[i] == (s[i].0@, view_json(s[i].1)),
    decreases s.len(),
{
    if s.len() > 0 {
        lemma_view_obj(s.drop_last());
    }
}

/// The first member with the given key, starting the search at `i`.
pub open spec fn lookup_from(
    fs: Seq<(Seq<char>, JsonSpec)>,
    key: Seq<char>,
    i: int,
) -> Option<JsonSpec>
    decreases fs.len() - i,
{
    if i < 0 || i >= fs.len() {
        Option::None
    } else if fs[i].0 == key {
        Option::Some(fs[i].1)
    } else {
        lookup_from(fs, key, i + 1)
    }
}

impl JsonSpec {
    /// The member named `key` of an object; `None` on any other shape.
    pub open spec fn get_field(self, key: Seq<char>) -> Option<JsonSpec> {
        match self {
            JsonSpec::Obj(fs) => lookup_from(fs, key, 0),
            _ => Option::None,
        }
    }

    /// The member named `key` when it is a string.
    pub open spec fn field_str(self, key: Seq<char>) -> Option<Seq<char>> {
        match self.get_field(key) {
            Option::Some(JsonSpec::Str(s)) => Option::Some(s),
            _ => Option::None,
        }
    }

    /// The member named `key` when it is a boolean.
    pub open spec fn field_bool(self, key: Seq<char>) -> Option<bool> {
        match self.get_field(key) {
            Option::Some(JsonSpec::Bool(b)) => Option::Some(b),
            _ => Option::None,
        }
    }
}

/// The hexadecimal digit for `n`.
pub open spec fn hexd(n: int) -> char {
    seq!['0', '1', '2', '3', '4', '5', '6', '7', '8', '9', 'a', 'b', 'c', 'd', 'e', 'f'][n]
}

/// How one character of a JSON string is written: quotes and backslashes
/// gain a backslash, control characters become `\u00XX`, everything else
/// stands as itself.
pub open spec fn esc(c: char) -> Seq<char> {
    if c == '"' {
        seq!['\\', '"']
    } else if c == '\\' {
        seq!['\\', '\\']
    } else if (c as u32) < 32 {
        seq!['\\', 'u', '0', '0', hexd((c as u32) as int / 16), hexd((c as u32) as int % 16)]
    } else {
        seq![c]
    }
}

pub open spec fn ser_str_from(s: Seq<char>, i: int) -> Seq<char>
    decreases s.len() - i,
{
    if i < 0 || i >= s.len() {
        Seq::empty()
    } else {
        esc(s[i]) + ser_str_from(s, i + 1)
    }
}

/// A JSON string literal: the escaped body between double quotes.
pub open spec fn ser_string(s: Seq<char>) -> Seq<char> {
    seq!['"'] + ser_str_from(s, 0) + seq!['"']
}

/// The canonical written form of a JSON value: no whitespace, object
/// members in stored order, numbers written as their stored text.
pub open spec fn ser(j: JsonSpec) -> Seq<char>
    decreases j, 0int,
{
    match j {
        JsonSpec::Null => seq!['n', 'u', 'l', 'l'],
        JsonSpec::Bool(b) => if b {
            seq!['t', 'r', 'u', 'e']
        } else {
            seq!['f', 'a', 'l', 's', 'e']
        },
        JsonSpec::Num(s) => s,
        JsonSpec::Str(s) => ser_string(s),
        JsonSpec::Arr(items) => seq!['['] + ser_items(items, 0) + seq![']'],
        JsonSpec::Obj(fields) => seq!['{'] + ser_fields(fields, 0) + seq!['}'],
    }
}

pub open spec fn ser_items(items: Seq<JsonSpec>, i: int) -> Seq<char>
    decreases items, items.len() - i,
{
    if i < 0 || i >= items.len() {
        Seq::empty()
    } else {
        (if i > 0 {
            seq![',']
        } else {
            Seq::<char>::empty()
        }) + ser(items[i]) + ser_items(items, i + 1)
    }
}

pub open spec fn ser_fields(fields: Seq<(Seq<char>, JsonSpec)>, i: int) -> Seq<char>
    decreases fields, fields.len() - i,
{
    if i < 0 || i >= fields.len() {
        Seq::empty()
    } else {
        (if i > 0 {
            seq![',']
        } else {
            Seq::<char>::empty()
        }) + ser_string(fields[i].0) + seq![':'] + ser(fields[i].1) + ser_fields(fields, i + 1)
    }
}

fn hex_digit(n: u32) -> (c: char)
    requires
        n < 16,
    ensures
        c == hexd(n as int),
{
    match n {
        0 => '0',
        1 => '1',
        2 => '2',
        3 => '3',
        4 => '4',
        5 => '5',
        6 => '6',
        7 => '7',
        8 => '8',
        9 => '9',
        10 => 'a',
        11 => 'b',
        12 => 'c',
        13 => 'd',
        14 => 'e',
        _ => 'f',
    }
}

/// Appends the characters of `s` to `out`.
fn push_str_chars(out: &mut Vec<char>, s: &str)
    ensures
        final(out)@ == old(out)@ + s@,
{
    let n: usize = s.unicode_len();
    let mut i: usize = 0;
    while i < n
        invariant
            n == s@.len(),
            0 <= i <= n,
            out@ == old(out)@ + s@.subrange(0, i as int),
        decreases n - i,
    {
        out.push(s.get_char(i));
        proof {
            assert(old(out)@ + s@.subrange(0, i as int + 1) =~= (old(out)@ + s@.subrange(
                0,
                i as int,
            )).push(s@[i as int]));
        }
        i = i + 1;
    }
    proof {
        assert(old(out)@ + s@.subrange(0, n as int) =~= old(out)@ + s@);
    }
}

/// Appends a JSON string literal for `s` to `out`.
fn write_json_string(s: &str, out: &mut Vec<char>)
    ensures
        final(out)@ == old(out)@ + ser_string(s@),
{
    out.push('"');
    let n: usize = s.unicode_len();
    let mut i: usize = 0;
    while i < n
        invariant
            n == s@.len(),
            0 <= i <= n,
            out@ + ser_str_from(s@, i as int) == old(out)@ + seq!['"'] + ser_str_from(s@, 0),
        decreases n - i,
    {
        let ghost pre = out@;
        let c = s.get_char(i);
        if c == '"' {
            out.push('\\');
            out.push('"');
        } else if c == '\\' {
            out.push('\\');
            out.push('\\');
        } else if (c as u32) < 32 {
            out.push('\\');
            out.push('u');
            out.push('0');
            out.push('0');
            out.push(hex_digit((c as u32) / 16));
            out.push(hex_digit((c as u32) % 16));
        } else {
            out.push(c);
        }
        proof {
            assert(out@ =~= pre + esc(s@[i as int]));
            assert(pre + esc(s@[i as int]) + ser_str_from(s@, i as int + 1) =~= pre + ser_str_from(
                s@,
                i as int,
            ));
        }
        i = i + 1;
    }
    out.push('"');
    proof {
        assert(out@ =~= old(out)@ + ser_string(s@));
    }
}

/// Appends the canonical written form of `v` to `out`.
#[verifier::loop_isolation(false)]
#[verifier::rlimit(100)]
pub fn write_json(v: &JsonValue, out: &mut Vec<char>)
    ensures
        final(out)@ == old(out)@ + ser(v@),
    decreases v,
{
    match v {
        JsonValue::Null => {
            push_str_chars(out, "null");
            proof {
                reveal_strlit("null");
                assert(old(out)@ + "null"@ =~= old(out)@ + ser(v@));
            }
        },
        JsonValue::Bool(b) => {
            if *b {
                push_str_chars(out, "true");
                proof {
                    reveal_strlit("true");
                    assert(old(out)@ + "true"@ =~= old(out)@ + ser(v@));
                }
            } else {
                push_str_chars(out, "false");
                proof {
                    reveal_strlit("false");
                    assert(old(out)@ + "false"@ =~= old(out)@ + ser(v@));
                }
            }
        },
        JsonValue::Num(s) => {
            push_str_chars(out, s.as_str());
        },
        JsonValue::Str(s) => {
            write_json_string(s.as_str(), out);
        },
        JsonValue::Arr(items) => {
            proof {
                lemma_view_arr(items@);
            }
            let ghost va = view_arr(items@);
            out.push('[');
            let n = items.len();
            let mut i: usize = 0;
            while i < n
                invariant
                    n == items.len(),
                    0 <= i <= n,
                    va == view_arr(items@),
                    va.len() == n,
                    forall|j: int| 0 <= j < n ==> va[j] == view_json(items@[j]),
                    out@ + ser_items(va, i as int) == old(out)@ + seq!['['] + ser_items(va, 0),
                decreases n - i,
            {
                let ghost pre = out@;
                if i > 0 {
                    out.push(',');
                }
                proof {
                    assert(decreases_to!(*v => *items));
                    assert(decreases_to!(*items => items@[i as int]));
                }
                write_json(&items[i], out);
                proof {
                    let comma: Seq<char> = if i > 0 {
                        seq![',']
                    } else {
                        Seq::empty()
                    };
                    assert(out@ =~= pre + comma + ser(va[i as int]));
                    assert(pre + comma + ser(va[i as int]) + ser_items(va, i as int + 1) =~= pre
                        + ser_items(va, i as int));
                }
                i = i + 1;
            }
            out.push(']');
            proof {
                assert(out@ =~= old(out)@ + ser(v@));
            }
        },
        JsonValue::Obj(fields) => {
            proof {
                lemma_view_obj(fields@);
            }
            let ghost vo = view_obj(fields@);
            out.push('{');
            let n = fields.len();
            let mut i: usize = 0;
            while i < n
                invariant
                    n == fields.len(),
                    0 <= i <= n,
                    vo == view_obj(fields@),
                    vo.len() == n,
                    forall|j: int|
                        0 <= j < n ==> vo[j] == (fields@[j].0@, view_json(fields@[j].1)),
                    out@ + ser_fields(vo, i as int) == old(out)@ + seq!['{'] + ser_fields(vo, 0),
                decreases n - i,
            {
                let ghost pre = out@;
                if i > 0 {
                    out.push(',');
                }
                let pair = &fields[i];
                write_json_string(pair.0.as_str(), out);
                out.push(':');
                proof {
                    assert(decreases_to!(*v => *fields));
                    assert(decreases_to!(*fields => fields@[i as int]));
                    assert(decreases_to!(fields@[i as int] => fields@[i as int].1));
                }
                write_json(&pair.1, out);
                proof {
                    let comma: Seq<char> = if i > 0 {
                        seq![',']
                    } else {
                        Seq::empty()
                    };
                    assert(out@ =~= pre + comma + ser_string(vo[i as int].0) + seq![':'] + ser(
                        vo[i as int].1,
                    ));
                    assert(pre + comma + ser_string(vo[i as int].0) + seq![':'] + ser(
                        vo[i as int].1,
                    ) + ser_fields(vo, i as int + 1) =~= pre + ser_fields(vo, i as int));
                }
                i = i + 1;
            }
            out.push('}');
            proof {
                assert(out@ =~= old(out)@ + ser(v@));
            }
        },
    }
}

/// The canonical written form of `v` as a string.
pub fn to_json_string(v: &JsonValue) -> (r: String)
    ensures
        r@ == ser(v@),
{
    let mut out: Vec<char> = Vec::new();
    write_json(v, &mut out);
    crate::text::string_from_chars(&out)
}

/// JSON inter-token whitespace.
pub open spec fn is_jws(c: char) -> bool {
    c == ' ' || c == '\t' || c == '\n' || c == '\r'
}

/// The first position at or after `i` that does not hold whitespace.
pub open spec fn skip_ws(s: Seq<char>, i: int) -> int
    decreases s.len() - i,
{
    if 0 <= i < s.len() && is_jws(s[i]) {
        skip_ws(s, i + 1)
    } else {
        i
    }
}

pub open spec fn is_digit(c: char) -> bool {
    48 <= (c as u32) && (c as u32) <= 57
}

/// The first position at or after `i` that does not hold a digit.
pub open spec fn digits_end(s: Seq<char>, i: int) -> int
    decreases s.len() - i,
{
    if 0 <= i < s.len() && is_digit(s[i]) {
        digits_end(s, i + 1)
    } else {
        i
    }
}

proof fn lemma_digits_end(s: Seq<char>, i: int)
    requires
        0 <= i <= s.len(),
    ensures
        i <= digits_end(s, i) <= s.len(),
    decreases s.len() - i,
{
    if i < s.len() && is_digit(s[i]) {
        lemma_digits_end(s, i + 1);
    }
}

/// A number token starting at `i`: optional minus, an integer part with
/// no leading zero, an optional fraction and an optional exponent.  The
/// token keeps its source text.
pub open spec fn p_number(s: Seq<char>, i: int) -> Option<(JsonSpec, int)> {
    let a = if i < s.len() && s[i] == '-' {
        i + 1
    } else {
        i
    };
    if !(0 <= i && a < s.len() && is_digit(s[a])) {
        Option::None
    } else {
        let b = if s[a] == '0' {
            a + 1
        } else {
            digits_end(s, a)
        };
        let c = if b < s.len() && s[b] == '.' {
            if b + 1 < s.len() && is_digit(s[b + 1]) {
                digits_end(s, b + 1)
            } else {
                -1
            }
        } else {
            b
        };
        if c < 0 {
            Option::None
        } else {
            let d = if c < s.len() && (s[c] == 'e' || s[c] == 'E') {
                let e0 = if c + 1 < s.len() && (s[c + 1] == '+' || s[c + 1] == '-') {
                    c + 2
                } else {
                    c + 1
                };
                if e0 < s.len() && is_digit(s[e0]) {
                    digits_end(s, e0)
                } else {
                    -1
                }
            } else {
                c
            };
            if d < 0 {
                Option::None
            } else {
                Option::Some((JsonSpec::Num(s.subrange(i, d)), d))
            }
        }
    }
}

/// The value of a hexadecimal digit.
pub open spec fn hex_val(c: char) -> Option<int> {
    if 48 <= (c as u32) && (c as u32) <= 57 {
        Option::Some((c as u32) - 48)
    } else if 97 <= (c as u32) && (c as u32) <= 102 {
        Option::Some((c as u32) - 87)
    } else if 65 <= (c as u32) && (c as u32) <= 70 {
        Option::Some((c as u32) - 55)
    } else {
        Option::None
    }
}

/// The scalar value of a character.
pub open spec fn char_value(c: char) -> int {
    c as int
}

/// The character with scalar value `n`.
pub open spec fn scalar_char(n: int) -> char {
    choose|c: char| #[trigger] char_value(c) == n
}

/// Four hexadecimal digits starting at `i`, as a value.
pub open spec fn hex4_val(s: Seq<char>, i: int) -> Option<int> {
    if !(0 <= i && i + 4 <= s.len()) {
        Option::None
    } else {
        match (hex_val(s[i]), hex_val(s[i + 1]), hex_val(s[i + 2]), hex_val(s[i + 3])) {
            (Option::Some(h0), Option::Some(h1), Option::Some(h2), Option::Some(h3)) => {
                Option::Some(h0 * 4096 + h1 * 256 + h2 * 16 + h3)
            },
            _ => Option::None,
        }
    }
}

/// One escape sequence whose backslash stands at `i`: the decoded
/// character and the position after the sequence.  A `\uXXXX` high
/// surrogate must pair with a following low surrogate.
pub open spec fn p_escape(s: Seq<char>, i: int) -> Option<(char, int)> {
    if !(0 <= i && i + 2 <= s.len()) {
        Option::None
    } else {
        let e = s[i + 1];
        if e == 'u' {
            if i + 6 > s.len() {
                Option::None
            } else {
                match hex4_val(s, i + 2) {
                    Option::Some(code) => {
                        if 0xD800 <= code && code <= 0xDBFF {
                            if i + 12 <= s.len() && s[i + 6] == '\\' && s[i + 7] == 'u' {
                                match hex4_val(s, i + 8) {
                                    Option::Some(lo) => {
                                        if 0xDC00 <= lo && lo <= 0xDFFF {
                                            Option::Some(
                                                (
                                                    scalar_char(
                                                        0x10000 + (code - 0xD800) * 0x400 + (lo
                                                            - 0xDC00),
                                                    ),
                                                    i + 12,
                                                ),
                                            )
                                        } else {
                                            Option::None
                                        }
                                    },
                                    Option::None => Option::None,
                                }
                            } else {
                                Option::None
                            }
                        } else if 0xDC00 <= code && code <= 0xDFFF {
                            Option::None
                        } else {
                            Option::Some((scalar_char(code), i + 6))
                        }
                    },
                    Option::None => Option::None,
                }
            }
        } else if e == '"' {
            Option::Some(('"', i + 2))
        } else if e == '\\' {
            Option::Some(('\\', i + 2))
        } else if e == '/' {
            Option::Some(('/', i + 2))
        } else if e == 'b' {
            Option::Some(('\u{0008}', i + 2))
        } else if e == 'f' {
            Option::Some(('\u{000C}', i + 2))
        } else if e == 'n' {
            Option::Some(('\n', i + 2))
        } else if e == 'r' {
            Option::Some(('\r', i + 2))
        } else if e == 't' {
            Option::Some(('\t', i + 2))
        } else {
            Option::None
        }
    }
}

/// The body of a string token, read from just after the opening quote to
/// just after the closing one; escape sequences are decoded.
pub open spec fn p_str_body(s: Seq<char>, i: int) -> Option<(Seq<char>, int)>
    decreases s.len() - i,
{
    if !(0 <= i < s.len()) {
        Option::None
    } else {
        let c = s[i];
        if c == '"' {
            Option::Some((Seq::empty(), i + 1))
        } else if c == '\\' {
            match p_escape(s, i) {
                Option::Some((ch, j)) => {
                    if i < j <= s.len() {
                        match p_str_body(s, j) {
                            Option::Some((rest, k)) => Option::Some((seq![ch] + rest, k)),
                            Option::None => Option::None,
                        }
                    } else {
                        Option::None
                    }
                },
                Option::None => Option::None,
            }
        } else if (c as u32) < 32 {
            Option::None
        } else {
            match p_str_body(s, i + 1) {
                Option::Some((rest, j)) => Option::Some((seq![c] + rest, j)),
                Option::None => Option::None,
            }
        }
    }
}

/// A fixed token of `n` characters standing for the value `v`.
pub open spec fn p_lit(s: Seq<char>, i: int, lit: Seq<char>, v: JsonSpec) -> Option<
    (JsonSpec, int),
> {
    if 0 <= i && i + lit.len() <= s.len() && s.subrange(i, i + lit.len() as int) == lit {
        Option::Some((v, i + lit.len() as int))
    } else {
        Option::None
    }
}

/// A JSON value starting exactly at `i` (no leading whitespace).
pub open spec fn p_value(s: Seq<char>, i: int) -> Option<(JsonSpec, int)>
    decreases s.len() - i, 2int,
{
    if !(0 <= i < s.len()) {
        Option::None
    } else {
        let c = s[i];
        if c == 'n' {
            p_lit(s, i, seq!['n', 'u', 'l', 'l'], JsonSpec::Null)
        } else if c == 't' {
            p_lit(s, i, seq!['t', 'r', 'u', 'e'], JsonSpec::Bool(true))
        } else if c == 'f' {
            p_lit(s, i, seq!['f', 'a', 'l', 's', 'e'], JsonSpec::Bool(false))
        } else if c == '"' {
            match p_str_body(s, i + 1) {
                Option::Some((content, j)) => Option::Some((JsonSpec::Str(content), j)),
                Option::None => Option::None,
            }
        } else if c == '-' || is_digit(c) {
            p_number(s, i)
        } else if c == '[' {
            match p_items(s, i + 1, true) {
                Option::Some((items, j)) => Option::Some((JsonSpec::Arr(items), j)),
                Option::None => Option::None,
            }
        } else if c == '{' {
            match p_fields(s, i + 1, true) {
                Option::Some((fields, j)) => Option::Some((JsonSpec::Obj(fields), j)),
                Option::None => Option::None,
            }
        } else {
            Option::None
        }
    }
}

/// The members of an array, read from just after `[` (when `first`) or
/// just after a `,`.
pub open spec fn p_items(s: Seq<char>, i: int, first: bool) -> Option<(Seq<JsonSpec>, int)>
    decreases s.len() - i, 3int,
{
    if !(0 <= i <= s.len()) {
        Option::None
    } else {
        let j = skip_ws(s, i);
        if !(i <= j <= s.len()) {
            Option::None
        } else if first && j < s.len() && s[j] == ']' {
            Option::Some((Seq::empty(), j + 1))
        } else {
            match p_value(s, j) {
                Option::Some((v, k)) => if !(j < k <= s.len()) {
                    Option::None
                } else {
                    let m = skip_ws(s, k);
                    if !(k <= m <= s.len()) {
                        Option::None
                    } else if m < s.len() && s[m] == ',' {
                        match p_items(s, m + 1, false) {
                            Option::Some((rest, e)) => Option::Some((seq![v] + rest, e)),
                            Option::None => Option::None,
                        }
                    } else if m < s.len() && s[m] == ']' {
                        Option::Some((seq![v], m + 1))
                    } else {
                        Option::None
                    }
                },
                Option::None => Option::None,
            }
        }
    }
}

/// The members of an object, read from just after `{` (when `first`) or
/// just after a `,`.
pub open spec fn p_fields(s: Seq<char>, i: int, first: bool) -> Option<
    (Seq<(Seq<char>, JsonSpec)>, int),
>
    decreases s.len() - i, 3int,
{
    if !(0 <= i <= s.len()) {
        Option::None
    } else {
        let j = skip_ws(s, i);
        if !(i <= j <= s.len()) {
            Option::None
        } else if first && j < s.len() && s[j] == '}' {
            Option::Some((Seq::empty(), j + 1))
        } else if j < s.len() && s[j] == '"' {
            match p_str_body(s, j + 1) {
                Option::Some((key, k)) => if !(j < k <= s.len()) {
                    Option::None
                } else {
                    let m = skip_ws(s, k);
                    if !(k <= m <= s.len()) {
                        Option::None
                    } else if m < s.len() && s[m] == ':' {
                        let w = skip_ws(s, m + 1);
                        if !(m < w <= s.len()) {
                            Option::None
                        } else {
                        match p_value(s, w) {
                            Option::Some((v, e)) => if !(m < e <= s.len()) {
                                Option::None
                            } else {
                                let f = skip_ws(s, e);
                                if !(e <= f <= s.len()) {
                                    Option::None
                                } else if f < s.len() && s[f] == ',' {
                                    match p_fields(s, f + 1, false) {
                                        Option::Some((rest, g)) => Option::Some(
                                            (seq![(key, v)] + rest, g),
                                        ),
                                        Option::None => Option::None,
                                    }
                                } else if f < s.len() && s[f] == '}' {
                                    Option::Some((seq![(key, v)], f + 1))
                                } else {
                                    Option::None
                                }
                            },
                            Option::None => Option::None,
                        }
                        }
                    } else {
                        Option::None
                    }
                },
                Option::None => Option::None,
            }
        } else {
            Option::None
        }
    }
}

/// A complete JSON document: one value, possibly surrounded by
/// whitespace, covering the whole input.
pub open spec fn parse_spec(s: Seq<char>) -> Option<JsonSpec> {
    let i = skip_ws(s, 0);
    match p_value(s, i) {
        Option::Some((v, j)) => if skip_ws(s, j) == s.len() {
            Option::Some(v)
        } else {
            Option::None
        },
        Option::None => Option::None,
    }
}

fn is_jws_char(c: char) -> (b: bool)
    ensures
        b == is_jws(c),
{
    matches!(c, ' ' | '\t' | '\n' | '\r')
}

fn is_digit_char(c: char) -> (b: bool)
    ensures
        b == is_digit(c),
{
    let u = c as u32;
    48 <= u && u <= 57
}

fn skip_ws_exec(s: &Vec<char>, i: usize) -> (r: usize)
    requires
        i <= s@.len(),
    ensures
        r as int == skip_ws(s@, i as int),
        i <= r <= s@.len(),
{
    let n = s.len();
    let mut j = i;
    while j < n && is_jws_char(s[j])
        invariant
            i <= j <= n,
            n == s@.len(),
            skip_ws(s@, i as int) == skip_ws(s@, j as int),
        decreases n - j,
    {
        j = j + 1;
    }
    j
}

fn digits_end_exec(s: &Vec<char>, i: usize) -> (r: usize)
    requires
        i <= s@.len(),
    ensures
        r as int == digits_end(s@, i as int),
        i <= r <= s@.len(),
{
    let n = s.len();
    let mut j = i;
    while j < n && is_digit_char(s[j])
        invariant
            i <= j <= n,
            n == s@.len(),
            digits_end(s@, i as int) == digits_end(s@, j as int),
        decreases n - j,
    {
        j = j + 1;
    }
    j
}

fn hex_val_exec(c: char) -> (r: Option<u32>)
    ensures
        match r {
            Option::Some(h) => hex_val(c) == Option::Some(h as int) && h < 16,
            Option::None => hex_val(c) is None,
        },
{
    let u = c as u32;
    if 48 <= u && u <= 57 {
        Option::Some(u - 48)
    } else if 97 <= u && u <= 102 {
        Option::Some(u - 87)
    } else if 65 <= u && u <= 70 {
        Option::Some(u - 55)
    } else {
        Option::None
    }
}

/// Relies on `char::from_u32`: it returns `Some` exactly for Unicode
/// scalar values (not a surrogate, at most 0x10FFFF), carrying the
/// character with that value.
#[verifier::external_body]
fn char_from_u32(n: u32) -> (r: Option<char>)
    ensures
        match r {
            Option::Some(c) => c as u32 == n && char_value(c) == n as int,
            Option::None => !(n < 0xD800 || (0xE000 <= n && n <= 0x10FFFF)),
        },
{
    char::from_u32(n)
}

/// The characters of `s` between `a` and `b`, as a string.
fn range_string(s: &Vec<char>, a: usize, b: usize) -> (r: String)
    requires
        a <= b <= s@.len(),
    ensures
        r@ == s@.subrange(a as int, b as int),
{
    let mut out: Vec<char> = Vec::new();
    let mut i = a;
    while i < b
        invariant
            a <= i <= b <= s@.len(),
            out@ == s@.subrange(a as int, i as int),
        decreases b - i,
    {
        out.push(s[i]);
        proof {
            assert(s@.subrange(a as int, i as int + 1) =~= s@.subrange(a as int, i as int).push(
                s@[i as int],
            ));
        }
        i = i + 1;
    }
    crate::text::string_from_chars(&out)
}

fn match4(s: &Vec<char>, i: usize, c0: char, c1: char, c2: char, c3: char) -> (b: bool)
    requires
        i <= s@.len(),
    ensures
        b == (i + 4 <= s@.len() && s@.subrange(i as int, i as int + 4) == seq![c0, c1, c2, c3]),
{
    let n = s.len();
    let r = n - i >= 4 && s[i] == c0 && s[i + 1] == c1 && s[i + 2] == c2 && s[i + 3] == c3;
    proof {
        if r {
            assert(s@.subrange(i as int, i as int + 4) =~= seq![c0, c1, c2, c3]);
        } else if i + 4 <= s@.len() && s@.subrange(i as int, i as int + 4) == seq![c0, c1, c2, c3] {
            assert(s@[i as int] == s@.subrange(i as int, i as int + 4)[0]);
            assert(s@[i as int + 1] == s@.subrange(i as int, i as int + 4)[1]);
            assert(s@[i as int + 2] == s@.subrange(i as int, i as int + 4)[2]);
            assert(s@[i as int + 3] == s@.subrange(i as int, i as int + 4)[3]);
        }
    }
    r
}

fn match5(s: &Vec<char>, i: usize, c0: char, c1: char, c2: char, c3: char, c4: char) -> (b: bool)
    requires
        i <= s@.len(),
    ensures
        b == (i + 5 <= s@.len() && s@.subrange(i as int, i as int + 5) == seq![c0, c1, c2, c3, c4]),
{
    let n = s.len();
    let r = n - i >= 5 && s[i] == c0 && s[i + 1] == c1 && s[i + 2] == c2 && s[i + 3] == c3 && s[i
        + 4] == c4;
    proof {
        if r {
            assert(s@.subrange(i as int, i as int + 5) =~= seq![c0, c1, c2, c3, c4]);
        } else if i + 5 <= s@.len() && s@.subrange(i as int, i as int + 5) == seq![
            c0,
            c1,
            c2,
            c3,
            c4,
        ] {
            assert(s@[i as int] == s@.subrange(i as int, i as int + 5)[0]);
            assert(s@[i as int + 1] == s@.subrange(i as int, i as int + 5)[1]);
            assert(s@[i as int + 2] == s@.subrange(i as int, i as int + 5)[2]);
            assert(s@[i as int + 3] == s@.subrange(i as int, i as int + 5)[3]);
            assert(s@[i as int + 4] == s@.subrange(i as int, i as int + 5)[4]);
        }
    }
    r
}

/// Reads four hexadecimal digits at `i`.
fn hex4(s: &Vec<char>, i: usize) -> (r: Option<u32>)
    requires
        i + 4 <= s@.len(),
    ensures
        match r {
            Option::Some(code) => hex4_val(s@, i as int) == Option::Some(code as int) && code
                <= 0xFFFF,
            Option::None => hex4_val(s@, i as int) is None,
        },
{
    let n = s.len();
    proof {
        assert(i + 4 <= n);
    }
    let h0 = hex_val_exec(s[i]);
    let h1 = hex_val_exec(s[i + 1]);
    let h2 = hex_val_exec(s[i + 2]);
    let h3 = hex_val_exec(s[i + 3]);
    match (h0, h1, h2, h3) {
        (Option::Some(a), Option::Some(b), Option::Some(c), Option::Some(d)) => Option::Some(
            a * 4096 + b * 256 + c * 16 + d,
        ),
        _ => Option::None,
    }
}

/// One escape sequence at `i`; see `p_escape`.
fn p_escape_exec(s: &Vec<char>, i: usize) -> (r: Option<(char, usize)>)
    requires
        i <= s@.len(),
    ensures
        match r {
            Option::Some(p) => p_escape(s@, i as int) == Option::Some((p.0, p.1 as int)) && i
                < p.1 <= s@.len(),
            Option::None => p_escape(s@, i as int) is None,
        },
{
    let n = s.len();
    if n - i < 2 {
        return Option::None;
    }
    let e = s[i + 1];
    if e == 'u' {
        if n - i < 6 {
            return Option::None;
        }
        let code = match hex4(s, i + 2) {
            Option::Some(code) => code,
            Option::None => {
                return Option::None;
            },
        };
        if 0xD800 <= code && code <= 0xDBFF {
            if !(n - i >= 12 && s[i + 6] == '\\' && s[i + 7] == 'u') {
                return Option::None;
            }
            let lo = match hex4(s, i + 8) {
                Option::Some(lo) => lo,
                Option::None => {
                    return Option::None;
                },
            };
            if !(0xDC00 <= lo && lo <= 0xDFFF) {
                return Option::None;
            }
            let code2: u32 = 0x10000 + (code - 0xD800) * 0x400 + (lo - 0xDC00);
            match char_from_u32(code2) {
                Option::Some(ch) => {
                    proof {
                        assert(char_value(scalar_char(code2 as int)) == code2 as int);
                        assert(ch == scalar_char(code2 as int));
                    }
                    Option::Some((ch, i + 12))
                },
                Option::None => {
                    proof {
                        assert(false);
                    }
                    Option::None
                },
            }
        } else if 0xDC00 <= code && code <= 0xDFFF {
            Option::None
        } else {
            match char_from_u32(code) {
                Option::Some(ch) => {
                    proof {
                        assert(char_value(scalar_char(code as int)) == code as int);
                        assert(ch == scalar_char(code as int));
                    }
                    Option::Some((ch, i + 6))
                },
                Option::None => {
                    proof {
                        assert(false);
                    }
                    Option::None
                },
            }
        }
    } else if e == '"' {
        Option::Some(('"', i + 2))
    } else if e == '\\' {
        Option::Some(('\\', i + 2))
    } else if e == '/' {
        Option::Some(('/', i + 2))
    } else if e == 'b' {
        Option::Some(('\u{0008}', i + 2))
    } else if e == 'f' {
        Option::Some(('\u{000C}', i + 2))
    } else if e == 'n' {
        Option::Some(('\n', i + 2))
    } else if e == 'r' {
        Option::Some(('\r', i + 2))
    } else if e == 't' {
        Option::Some(('\t', i + 2))
    } else {
        Option::None
    }
}

/// The body of a string token, decoded; see `p_str_body`.
#[verifier::rlimit(50)]
fn p_str_body_exec(s: &Vec<char>, i: usize) -> (r: Option<(String, usize)>)
    requires
        i <= s@.len(),
    ensures
        match r {
            Option::Some(p) => p_str_body(s@, i as int) == Option::Some((p.0@, p.1 as int)) && i
                < p.1 <= s@.len(),
            Option::None => p_str_body(s@, i as int) is None,
        },
{
    let n = s.len();
    let mut cur = i;
    let mut acc: Vec<char> = Vec::new();
    proof {
        if p_str_body(s@, i as int) is Some {
            let p0 = p_str_body(s@, i as int)->0;
            assert(Seq::<char>::empty() + p0.0 =~= p0.0);
        }
    }
    loop
        invariant
            i <= cur <= n,
            n == s@.len(),
            match p_str_body(s@, cur as int) {
                Option::Some(p) => p_str_body(s@, i as int) == Option::Some((acc@ + p.0, p.1)),
                Option::None => p_str_body(s@, i as int) is None,
            },
        decreases n - cur,
    {
        if cur >= n {
            return Option::None;
        }
        let c = s[cur];
        if c == '"' {
            proof {
                assert(acc@ + Seq::<char>::empty() =~= acc@);
            }
            return Option::Some((crate::text::string_from_chars(&acc), cur + 1));
        } else if c == '\\' {
            match p_escape_exec(s, cur) {
                Option::None => {
                    return Option::None;
                },
                Option::Some((ch, j)) => {
                    let ghost pre = acc@;
                    acc.push(ch);
                    proof {
                        let stepped = p_str_body(s@, j as int);
                        if stepped is Some {
                            assert(pre + (seq![ch] + (stepped->0).0) =~= acc@ + (stepped->0).0);
                        }
                    }
                    cur = j;
                },
            }
        } else if (c as u32) < 32 {
            return Option::None;
        } else {
            let ghost pre = acc@;
            acc.push(c);
            proof {
                let stepped = p_str_body(s@, cur as int + 1);
                if stepped is Some {
                    assert(pre + (seq![c] + (stepped->0).0) =~= acc@ + (stepped->0).0);
                }
            }
            cur = cur + 1;
        }
    }
}

/// A number token; see `p_number`.
fn p_number_exec(s: &Vec<char>, i: usize) -> (r: Option<(JsonValue, usize)>)
    requires
        i < s@.len(),
    ensures
        match r {
            Option::Some(p) => p_number(s@, i as int) == Option::Some((p.0@, p.1 as int)) && i
                < p.1 <= s@.len(),
            Option::None => p_number(s@, i as int) is None,
        },
{
    let n = s.len();
    let a: usize = if s[i] == '-' {
        i + 1
    } else {
        i
    };
    if !(a < n && is_digit_char(s[a])) {
        return Option::None;
    }
    let b: usize = if s[a] == '0' {
        a + 1
    } else {
        proof {
            lemma_digits_end(s@, a as int + 1);
        }
        digits_end_exec(s, a)
    };
    proof {
        assert(b > a);
    }
    let c: usize = if b < n && s[b] == '.' {
        if b + 1 < n && is_digit_char(s[b + 1]) {
            digits_end_exec(s, b + 1)
        } else {
            return Option::None;
        }
    } else {
        b
    };
    let d: usize = if c < n && (s[c] == 'e' || s[c] == 'E') {
        let e0: usize = if c + 1 < n && (s[c + 1] == '+' || s[c + 1] == '-') {
            c + 2
        } else {
            c + 1
        };
        if e0 < n && is_digit_char(s[e0]) {
            digits_end_exec(s, e0)
        } else {
            return Option::None;
        }
    } else {
        c
    };
    let lexeme = range_string(s, i, d);
    Option::Some((JsonValue::Num(lexeme), d))
}

/// A JSON value starting exactly at `i`; see `p_value`.
fn p_value_exec(s: &Vec<char>, i: usize) -> (r: Option<(JsonValue, usize)>)
    requires
        i <= s@.len(),
    ensures
        match r {
            Option::Some(p) => p_value(s@, i as int) == Option::Some((p.0@, p.1 as int)) && i < p.1
                <= s@.len(),
            Option::None => p_value(s@, i as int) is None,
        },
    decreases s@.len() - i, 2int,
{
    let n = s.len();
    if i >= n {
        return Option::None;
    }
    let c = s[i];
    if c == 'n' {
        if match4(s, i, 'n', 'u', 'l', 'l') {
            Option::Some((JsonValue::Null, i + 4))
        } else {
            Option::None
        }
    } else if c == 't' {
        if match4(s, i, 't', 'r', 'u', 'e') {
            Option::Some((JsonValue::Bool(true), i + 4))
        } else {
            Option::None
        }
    } else if c == 'f' {
        if match5(s, i, 'f', 'a', 'l', 's', 'e') {
            Option::Some((JsonValue::Bool(false), i + 5))
        } else {
            Option::None
        }
    } else if c == '"' {
        match p_str_body_exec(s, i + 1) {
            Option::Some((content, j)) => Option::Some((JsonValue::Str(content), j)),
            Option::None => Option::None,
        }
    } else if c == '-' || is_digit_char(c) {
        p_number_exec(s, i)
    } else if c == '[' {
        match p_items_exec(s, i + 1, true) {
            Option::Some((items, j)) => Option::Some((JsonValue::Arr(items), j)),
            Option::None => Option::None,
        }
    } else if c == '{' {
        match p_fields_exec(s, i + 1, true) {
            Option::Some((fields, j)) => Option::Some((JsonValue::Obj(fields), j)),
            Option::None => Option::None,
        }
    } else {
        Option::None
    }
}

/// The members of an array; see `p_items`.
fn p_items_exec(s: &Vec<char>, i: usize, first: bool) -> (r: Option<(Vec<JsonValue>, usize)>)
    requires
        i <= s@.len(),
    ensures
        match r {
            Option::Some(p) => p_items(s@, i as int, first) == Option::Some(
                (view_arr(p.0@), p.1 as int),
            ) && i < p.1 <= s@.len(),
            Option::None => p_items(s@, i as int, first) is None,
        },
    decreases s@.len() - i, 3int,
{
    let n = s.len();
    let j = skip_ws_exec(s, i);
    if first && j < n && s[j] == ']' {
        let items: Vec<JsonValue> = Vec::new();
        proof {
            assert(view_arr(items@) =~= Seq::<JsonSpec>::empty());
        }
        return Option::Some((items, j + 1));
    }
    match p_value_exec(s, j) {
        Option::None => Option::None,
        Option::Some((v, k)) => {
            let m = skip_ws_exec(s, k);
            if m < n && s[m] == ',' {
                match p_items_exec(s, m + 1, false) {
                    Option::None => Option::None,
                    Option::Some((mut rest, e)) => {
                        let ghost r0 = rest@;
                        let mut items: Vec<JsonValue> = Vec::new();
                        items.push(v);
                        items.append(&mut rest);
                        proof {
                            lemma_view_arr(items@);
                            lemma_view_arr(r0);
                            assert(view_arr(items@) =~= seq![view_json(v)] + view_arr(r0));
                        }
                        Option::Some((items, e))
                    },
                }
            } else if m < n && s[m] == ']' {
                let mut items: Vec<JsonValue> = Vec::new();
                items.push(v);
                proof {
                    lemma_view_arr(items@);
                    assert(view_arr(items@) =~= seq![view_json(v)]);
                }
                Option::Some((items, m + 1))
            } else {
                Option::None
            }
        },
    }
}

/// The members of an object; see `p_fields`.
fn p_fields_exec(s: &Vec<char>, i: usize, first: bool) -> (r: Option<
    (Vec<(String, JsonValue)>, usize),
>)
    requires
        i <= s@.len(),
    ensures
        match r {
            Option::Some(p) => p_fields(s@, i as int, first) == Option::Some(
                (view_obj(p.0@), p.1 as int),
            ) && i < p.1 <= s@.len(),
            Option::None => p_fields(s@, i as int, first) is None,
        },
    decreases s@.len() - i, 3int,
{
    let n = s.len();
    let j = skip_ws_exec(s, i);
    if first && j < n && s[j] == '}' {
        let fields: Vec<(String, JsonValue)> = Vec::new();
        proof {
            assert(view_obj(fields@) =~= Seq::<(Seq<char>, JsonSpec)>::empty());
        }
        return Option::Some((fields, j + 1));
    }
    if !(j < n && s[j] == '"') {
        return Option::None;
    }
    match p_str_body_exec(s, j + 1) {
        Option::None => Option::None,
        Option::Some((key, k)) => {
            let m = skip_ws_exec(s, k);
            if !(m < n && s[m] == ':') {
                return Option::None;
            }
            let w = skip_ws_exec(s, m + 1);
            match p_value_exec(s, w) {
                Option::None => Option::None,
                Option::Some((v, e)) => {
                    let f = skip_ws_exec(s, e);
                    if f < n && s[f] == ',' {
                        match p_fields_exec(s, f + 1, false) {
                            Option::None => Option::None,
                            Option::Some((mut rest, g)) => {
                                let ghost r0 = rest@;
                                let ghost kv = (key@, view_json(v));
                                let mut fields: Vec<(String, JsonValue)> = Vec::new();
                                fields.push((key, v));
                                fields.append(&mut rest);
                                proof {
                                    lemma_view_obj(fields@);
                                    lemma_view_obj(r0);
                                    assert(view_obj(fields@) =~= seq![kv] + view_obj(r0));
                                }
                                Option::Some((fields, g))
                            },
                        }
                    } else if f < n && s[f] == '}' {
                        let ghost kv = (key@, view_json(v));
                        let mut fields: Vec<(String, JsonValue)> = Vec::new();
                        fields.push((key, v));
                        proof {
                            lemma_view_obj(fields@);
                            assert(view_obj(fields@) =~= seq![kv]);
                        }
                        Option::Some((fields, f + 1))
                    } else {
                        Option::None
                    }
                },
            }
        },
    }
}

/// Parses a complete JSON document; `None` exactly on text that the
/// grammar refuses.
pub fn parse_json(text: &str) -> (r: Option<JsonValue>)
    ensures
        match r {
            Option::Some(v) => parse_spec(text@) == Option::Some(v@),
            Option::None => parse_spec(text@) is None,
        },
{
    let cs = crate::text::chars_of(text);
    let i = skip_ws_exec(&cs, 0);
    match p_value_exec(&cs, i) {
        Option::Some((v, j)) => {
            let e = skip_ws_exec(&cs, j);
            if e == cs.len() {
                Option::Some(v)
            } else {
                Option::None
            }
        },
        Option::None => Option::None,
    }
}

impl JsonValue {
    /// Looks up a member of a JSON object; `None` when `self` is not an
    /// object or carries no member of that name.
    pub fn get<'a>(&'a self, key: &str) -> (r: Option<&'a JsonValue>)
        ensures
            match r {
                Option::Some(f) => self@.get_field(key@) == Option::Some(f@),
                Option::None => self@.get_field(key@) is None,
            },
    {
        match self {
            JsonValue::Obj(fields) => {
                let k = String::from_str(key);
                proof {
                    lemma_view_obj(fields@);
                }
                let ghost vo = view_obj(fields@);
                let n = fields.len();
                let mut i: usize = 0;
                while i < n
                    invariant
                        n == fields.len(),
                        0 <= i <= n,
                        vo == view_obj(fields@),
                        vo.len() == n,
                        forall|j: int|
                            0 <= j < n ==> vo[j] == (fields@[j].0@, view_json(fields@[j].1)),
                        k@ == key@,
                        lookup_from(vo, key@, 0) == lookup_from(vo, key@, i as int),
                        self@ == JsonSpec::Obj(vo),
                    decreases n - i,
                {
                    let pair = &fields[i];
                    if pair.0.eq(&k) {
                        return Option::Some(&pair.1);
                    }
                    i = i + 1;
                }
                Option::None
            },
            _ => Option::None,
        }
    }

    /// The string carried by a JSON string value.
    pub fn as_str<'a>(&'a self) -> (r: Option<&'a String>)
        ensures
            match r {
                Option::Some(s) => self@ matches JsonSpec::Str(t) && t == s@,
                Option::None => !(self@ is Str),
            },
    {
        match self {
            JsonValue::Str(s) => Option::Some(s),
            _ => Option::None,
        }
    }

    /// The boolean carried by a JSON boolean value.
    pub fn as_bool(&self) -> (r: Option<bool>)
        ensures
            match r {
                Option::Some(b) => self@ == JsonSpec::Bool(b),
                Option::None => !(self@ is Bool),
            },
    {
        match self {
            JsonValue::Bool(b) => Option::Some(*b),
            _ => Option::None,
        }
    }

    /// Removes and returns the first member named `key` of a JSON
    /// object, giving up ownership of the rest.
    pub fn take_field(self, key: &str) -> (r: Option<JsonValue>)
        ensures
            match r {
                Option::Some(f) => self@.get_field(key@) == Option::Some(f@),
                Option::None => self@.get_field(key@) is None,
            },
    {
        match self {
            JsonValue::Obj(mut fields) => {
                let ghost fs0 = fields@;
                let k = String::from_str(key);
                proof {
                    lemma_view_obj(fields@);
                }
                let ghost vo = view_obj(fields@);
                let n = fields.len();
                let mut i: usize = 0;
                while i < n
                    invariant
                        n == fields.len(),
                        fields@ == fs0,
                        0 <= i <= n,
                        vo == view_obj(fields@),
                        vo.len() == n,
                        forall|j: int|
                            0 <= j < n ==> vo[j] == (fields@[j].0@, view_json(fields@[j].1)),
                        k@ == key@,
                        lookup_from(vo, key@, 0) == lookup_from(vo, key@, i as int),
                        self@ == JsonSpec::Obj(vo),
                    decreases n - i,
                {
                    let hit = fields[i].0.eq(&k);
                    if hit {
                        let pair = fields.remove(i);
                        proof {
                            assert(view_json(pair.1) == vo[i as int].1);
                        }
                        return Option::Some(pair.1);
                    }
                    i = i + 1;
                }
                Option::None
            },
            _ => Option::None,
        }
    }

    pub fn is_object(&self) -> (r: bool)
        ensures
            r == (self@ is Obj),
    {
        matches!(self, JsonValue::Obj(_))
    }

    pub fn is_null(&self) -> (r: bool)
        ensures
            r == (self@ is Null),
    {
        matches!(self, JsonValue::Null)
    }
}

} // verus!
