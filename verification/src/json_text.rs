//! Structured values as compact JSON text: a value written out, and compact JSON text (as
//! serde_json writes it) read back into a value.
use vstd::prelude::*;
use crate::json::JsonValue;
use crate::strings::{push_str, string_of};

verus! {

/// The mathematical form of a `JsonValue`.
#[verifier::ext_equal]
pub ghost enum JsonTree {
    Null,
    Bool(bool),
    Number(Seq<char>),
    Str(Seq<char>),
    Array(Seq<JsonTree>),
    Object(Seq<(Seq<char>, JsonTree)>),
}

/// The tree of a `JsonValue`.
pub open spec fn json_tree_of(v: JsonValue) -> JsonTree
    decreases v,
{
    match v {
        JsonValue::Null => JsonTree::Null,
        JsonValue::Bool(b) => JsonTree::Bool(b),
        JsonValue::Number(n) => JsonTree::Number(n@),
        JsonValue::String(s) => JsonTree::Str(s@),
        JsonValue::Array(items) => JsonTree::Array(
            Seq::new(
                items@.len(),
                |i: int|
                    if 0 <= i < items@.len() {
                        json_tree_of(items@[i])
                    } else {
                        JsonTree::Null
                    },
            ),
        ),
        JsonValue::Object(entries) => JsonTree::Object(
            Seq::new(
                entries@.len(),
                |i: int|
                    if 0 <= i < entries@.len() {
                        (entries@[i].0@, json_tree_of(entries@[i].1))
                    } else {
                        (Seq::empty(), JsonTree::Null)
                    },
            ),
        ),
    }
}

/// The trees of a list of values.
pub open spec fn json_items_view(items: Seq<JsonValue>) -> Seq<JsonTree> {
    Seq::new(items.len(), |i: int| json_tree_of(items[i]))
}

/// The trees of a list of keyed values.
pub open spec fn json_entries_view(es: Seq<(String, JsonValue)>) -> Seq<(Seq<char>, JsonTree)> {
    Seq::new(es.len(), |i: int| (es[i].0@, json_tree_of(es[i].1)))
}

/// The tree of an array is the array of its items' trees.
pub proof fn lemma_json_tree_array(items: Vec<JsonValue>)
    ensures
        json_tree_of(JsonValue::Array(items)) == JsonTree::Array(json_items_view(items@)),
{
    match json_tree_of(JsonValue::Array(items)) {
        JsonTree::Array(t) => {
            assert(t =~= json_items_view(items@));
        },
        _ => {},
    }
}

/// The tree of an object is the object of its entries' trees.
pub proof fn lemma_json_tree_object(es: Vec<(String, JsonValue)>)
    ensures
        json_tree_of(JsonValue::Object(es)) == JsonTree::Object(json_entries_view(es@)),
{
    match json_tree_of(JsonValue::Object(es)) {
        JsonTree::Object(t) => {
            assert(t =~= json_entries_view(es@));
        },
        _ => {},
    }
}

// ---------------------------------------------------------------------------
// Writing
// ---------------------------------------------------------------------------

/// The lowercase hexadecimal digit of `d < 16`.
pub open spec fn hex_digit(d: nat) -> char {
    if d < 10 {
        ((d + 48) as u32) as char
    } else {
        ((d + 87) as u32) as char
    }
}

/// One character inside a JSON string literal: `"` and `\` escaped with a backslash, control
/// characters as `\u00XX`, anything else as it is.
pub open spec fn json_escape_char(c: char) -> Seq<char> {
    if c == '"' {
        seq!['\\', '"']
    } else if c == '\\' {
        seq!['\\', '\\']
    } else if (c as u32) < 32 {
        seq!['\\', 'u', '0', '0', hex_digit((c as u32 / 16) as nat), hex_digit((c as u32 % 16) as nat)]
    } else {
        seq![c]
    }
}

/// Text escaped for a JSON string literal.
pub open spec fn json_escape(s: Seq<char>) -> Seq<char>
    decreases s.len(),
{
    if s.len() == 0 {
        Seq::empty()
    } else {
        json_escape(s.drop_last()) + json_escape_char(s.last())
    }
}

/// A JSON string literal.
pub open spec fn json_string_text(s: Seq<char>) -> Seq<char> {
    seq!['"'] + json_escape(s) + seq!['"']
}

/// A tree written as compact JSON: no white space, items and entries separated by commas.
pub open spec fn json_text_spec(t: JsonTree) -> Seq<char>
    decreases t, 1nat,
{
    match t {
        JsonTree::Null => seq!['n', 'u', 'l', 'l'],
        JsonTree::Bool(b) => if b {
            seq!['t', 'r', 'u', 'e']
        } else {
            seq!['f', 'a', 'l', 's', 'e']
        },
        JsonTree::Number(n) => n,
        JsonTree::Str(s) => json_string_text(s),
        JsonTree::Array(items) => seq!['['] + json_items_text(items) + seq![']'],
        JsonTree::Object(es) => seq!['{'] + json_entries_text(es) + seq!['}'],
    }
}

/// Items written as compact JSON, separated by commas.
pub open spec fn json_items_text(items: Seq<JsonTree>) -> Seq<char>
    decreases items, 0nat,
{
    if items.len() == 0 {
        Seq::empty()
    } else {
        json_items_text(items.drop_last()) + (if items.len() > 1 {
            seq![',']
        } else {
            Seq::empty()
        }) + json_text_spec(items.last())
    }
}

/// Entries written as compact JSON, `"key":value`, separated by commas.
pub open spec fn json_entries_text(es: Seq<(Seq<char>, JsonTree)>) -> Seq<char>
    decreases es, 0nat,
{
    if es.len() == 0 {
        Seq::empty()
    } else {
        json_entries_text(es.drop_last()) + (if es.len() > 1 {
            seq![',']
        } else {
            Seq::empty()
        }) + json_string_text(es.last().0) + seq![':'] + json_text_spec(es.last().1)
    }
}

/// The hexadecimal digit of `d < 16`.
fn hex_digit_exec(d: u32) -> (c: char)
    requires
        d < 16,
    ensures
        c == hex_digit(d as nat),
{
    if d < 10 {
        ((d + 48) as u8) as char
    } else {
        ((d + 87) as u8) as char
    }
}

/// Appends the JSON string literal of `s`.
fn push_json_string(out: &mut Vec<char>, s: &str)
    ensures
        final(out)@ == old(out)@ + json_string_text(s@),
{
    let c = crate::strings::chars_of(s);
    out.push('"');
    let mut i: usize = 0;
    while i < c.len()
        invariant
            i <= c@.len(),
            c@ == s@,
            out@ == old(out)@ + seq!['"'] + json_escape(c@.take(i as int)),
        decreases c@.len() - i,
    {
        let ch = c[i];
        let ghost before = out@;
        if ch == '"' {
            out.push('\\');
            out.push('"');
        } else if ch == '\\' {
            out.push('\\');
            out.push('\\');
        } else if (ch as u32) < 32 {
            let code = ch as u32;
            out.push('\\');
            out.push('u');
            out.push('0');
            out.push('0');
            out.push(hex_digit_exec(code / 16));
            out.push(hex_digit_exec(code % 16));
        } else {
            out.push(ch);
        }
        assert(out@ =~= before + json_escape_char(ch));
        assert(c@.take(i + 1).drop_last() =~= c@.take(i as int));
        assert(c@.take(i + 1).last() == ch);
        i = i + 1;
    }
    assert(c@.take(c@.len() as int) =~= c@);
    out.push('"');
    assert(out@ =~= old(out)@ + json_string_text(s@));
}

/// Appends a value written as compact JSON (see `json_text_spec`).
pub fn push_json(out: &mut Vec<char>, v: &JsonValue)
    ensures
        final(out)@ == old(out)@ + json_text_spec(json_tree_of(*v)),
    decreases *v,
{
    match v {
        JsonValue::Null => {
            push_str(out, "null");
            proof {
                reveal_strlit("null");
            }
            assert(out@ =~= old(out)@ + json_text_spec(json_tree_of(*v)));
        },
        JsonValue::Bool(b) => {
            if *b {
                push_str(out, "true");
                proof {
                    reveal_strlit("true");
                }
            } else {
                push_str(out, "false");
                proof {
                    reveal_strlit("false");
                }
            }
            assert(out@ =~= old(out)@ + json_text_spec(json_tree_of(*v)));
        },
        JsonValue::Number(n) => {
            push_str(out, n.as_str());
        },
        JsonValue::String(s) => {
            push_json_string(out, s.as_str());
        },
        JsonValue::Array(items) => {
            proof {
                lemma_json_tree_array(*items);
            }
            let ghost trees = json_items_view(items@);
            out.push('[');
            let mut i: usize = 0;
            while i < items.len()
                invariant
                    i <= items@.len(),
                    *v == JsonValue::Array(*items),
                    trees == json_items_view(items@),
                    out@ == old(out)@ + seq!['['] + json_items_text(trees.take(i as int)),
                decreases items@.len() - i,
            {
                proof {
                    assert(decreases_to!(*v => (*v)->Array_0));
                    assert(decreases_to!(*items => items@));
                    assert(decreases_to!(items@ => items@[i as int]));
                    assert(decreases_to!(*v => items@[i as int]));
                }
                if i > 0 {
                    out.push(',');
                }
                push_json(out, &items[i]);
                assert(trees.take(i + 1).drop_last() =~= trees.take(i as int));
                assert(trees.take(i + 1).last() == json_tree_of(items@[i as int]));
                assert(out@ =~= old(out)@ + seq!['['] + json_items_text(trees.take(i + 1)));
                i = i + 1;
            }
            assert(trees.take(items@.len() as int) =~= trees);
            out.push(']');
            assert(out@ =~= old(out)@ + json_text_spec(json_tree_of(*v)));
        },
        JsonValue::Object(es) => {
            proof {
                lemma_json_tree_object(*es);
            }
            let ghost trees = json_entries_view(es@);
            out.push('{');
            let mut i: usize = 0;
            while i < es.len()
                invariant
                    i <= es@.len(),
                    *v == JsonValue::Object(*es),
                    trees == json_entries_view(es@),
                    out@ == old(out)@ + seq!['{'] + json_entries_text(trees.take(i as int)),
                decreases es@.len() - i,
            {
                proof {
                    assert(decreases_to!(*v => (*v)->Object_0));
                    assert(decreases_to!(*es => es@));
                    assert(decreases_to!(es@ => es@[i as int]));
                    assert(decreases_to!(es@[i as int] => es@[i as int].1));
                    assert(decreases_to!(*v => es@[i as int].1));
                }
                if i > 0 {
                    out.push(',');
                }
                push_json_string(out, es[i].0.as_str());
                out.push(':');
                push_json(out, &es[i].1);
                assert(trees.take(i + 1).drop_last() =~= trees.take(i as int));
                assert(trees.take(i + 1).last() == (es@[i as int].0@, json_tree_of(es@[i as int].1)));
                assert(out@ =~= old(out)@ + seq!['{'] + json_entries_text(trees.take(i + 1)));
                i = i + 1;
            }
            assert(trees.take(es@.len() as int) =~= trees);
            out.push('}');
            assert(out@ =~= old(out)@ + json_text_spec(json_tree_of(*v)));
        },
    }
}

/// A value written as compact JSON text (see `json_text_spec`).
pub fn json_text_of(v: &JsonValue) -> (r: String)
    ensures
        r@ == json_text_spec(json_tree_of(*v)),
{
    let mut out: Vec<char> = Vec::new();
    push_json(&mut out, v);
    assert(out@ =~= json_text_spec(json_tree_of(*v)));
    string_of(&out)
}


// ---------------------------------------------------------------------------
// Reading
// ---------------------------------------------------------------------------

/// A character of a JSON number.
pub open spec fn is_number_char(c: char) -> bool {
    ('0' <= c <= '9') || c == '-' || c == '+' || c == '.' || c == 'e' || c == 'E'
}

/// Where the number starting at `i` ends: the first character from `i` on that cannot be in
/// a number.
pub open spec fn number_end(t: Seq<char>, i: int) -> int
    decreases t.len() - i,
{
    if 0 <= i < t.len() && is_number_char(t[i]) {
        number_end(t, i + 1)
    } else {
        i
    }
}

/// The value of a hexadecimal digit.
pub open spec fn hex_value(c: char) -> Option<nat> {
    if '0' <= c <= '9' {
        Some((c as u32 - 48) as nat)
    } else if 'a' <= c <= 'f' {
        Some((c as u32 - 87) as nat)
    } else if 'A' <= c <= 'F' {
        Some((c as u32 - 55) as nat)
    } else {
        None
    }
}

/// The number written by the four hexadecimal digits at `i`.
pub open spec fn hex4(t: Seq<char>, i: int) -> Option<nat> {
    if 0 <= i && i + 4 <= t.len() {
        match (hex_value(t[i]), hex_value(t[i + 1]), hex_value(t[i + 2]), hex_value(t[i + 3])) {
            (Some(a), Some(b), Some(c), Some(d)) => Some(a * 4096 + b * 256 + c * 16 + d),
            _ => None,
        }
    } else {
        None
    }
}

/// The character that the escape after a backslash at `i - 1` stands for: `"`, `\`, `/`,
/// `b`, `f`, `n`, `r`, `t`, or `u` with four hexadecimal digits naming a character that is
/// not a surrogate.
pub open spec fn escaped_char(t: Seq<char>, i: int) -> Option<char> {
    if 0 <= i < t.len() {
        let c = t[i];
        if c == '"' || c == '\\' || c == '/' {
            Some(c)
        } else if c == 'b' {
            Some('\u{8}')
        } else if c == 'f' {
            Some('\u{c}')
        } else if c == 'n' {
            Some('\n')
        } else if c == 'r' {
            Some('\r')
        } else if c == 't' {
            Some('\t')
        } else if c == 'u' {
            match hex4(t, i + 1) {
                Some(v) => if v < 0xD800 || (0xE000 <= v && v <= 0xFFFF) {
                    Some((v as u32) as char)
                } else {
                    None
                },
                None => None,
            }
        } else {
            None
        }
    } else {
        None
    }
}

/// How many characters the escape at `i` takes after its backslash.
pub open spec fn escape_len(t: Seq<char>, i: int) -> int {
    if 0 <= i < t.len() && t[i] == 'u' {
        5
    } else {
        1
    }
}

/// The text of a string literal whose body starts at `i`, and where it ends (after its
/// closing quote).
pub open spec fn string_body(t: Seq<char>, i: int) -> Option<(Seq<char>, int)>
    decreases t.len() - i,
{
    if i < 0 || i >= t.len() {
        None
    } else if t[i] == '"' {
        Some((Seq::empty(), i + 1))
    } else if t[i] == '\\' {
        match escaped_char(t, i + 1) {
            Some(c) => match string_body(t, i + 1 + escape_len(t, i + 1)) {
                Some((rest, k)) => Some((seq![c] + rest, k)),
                None => None,
            },
            None => None,
        }
    } else {
        match string_body(t, i + 1) {
            Some((rest, k)) => Some((seq![t[i]] + rest, k)),
            None => None,
        }
    }
}

/// Whether `w` stands in `t` at `i`.
pub open spec fn word_at(t: Seq<char>, i: int, w: Seq<char>) -> bool {
    0 <= i && i + w.len() <= t.len() && t.subrange(i, i + w.len()) == w
}

/// The value that starts at `i`, and where it ends; `fuel` bounds the nesting and the
/// number of items read.
pub open spec fn value_at(t: Seq<char>, i: int, fuel: nat) -> Option<(JsonTree, int)>
    decreases fuel, 1nat,
{
    if fuel == 0 || i < 0 || i >= t.len() {
        None
    } else if t[i] == 'n' {
        if word_at(t, i, seq!['n', 'u', 'l', 'l']) {
            Some((JsonTree::Null, i + 4))
        } else {
            None
        }
    } else if t[i] == 't' {
        if word_at(t, i, seq!['t', 'r', 'u', 'e']) {
            Some((JsonTree::Bool(true), i + 4))
        } else {
            None
        }
    } else if t[i] == 'f' {
        if word_at(t, i, seq!['f', 'a', 'l', 's', 'e']) {
            Some((JsonTree::Bool(false), i + 5))
        } else {
            None
        }
    } else if t[i] == '"' {
        match string_body(t, i + 1) {
            Some((s, j)) => Some((JsonTree::Str(s), j)),
            None => None,
        }
    } else if t[i] == '[' {
        if i + 1 < t.len() && t[i + 1] == ']' {
            Some((JsonTree::Array(Seq::empty()), i + 2))
        } else {
            match items_at(t, i + 1, (fuel - 1) as nat) {
                Some((vs, j)) => Some((JsonTree::Array(vs), j)),
                None => None,
            }
        }
    } else if t[i] == '{' {
        if i + 1 < t.len() && t[i + 1] == '}' {
            Some((JsonTree::Object(Seq::empty()), i + 2))
        } else {
            match entries_at(t, i + 1, (fuel - 1) as nat) {
                Some((es, j)) => Some((JsonTree::Object(es), j)),
                None => None,
            }
        }
    } else if t[i] == '-' || ('0' <= t[i] <= '9') {
        Some((JsonTree::Number(t.subrange(i, number_end(t, i))), number_end(t, i)))
    } else {
        None
    }
}

/// The items of an array from `i` on, up to and past its closing `]`.
pub open spec fn items_at(t: Seq<char>, i: int, fuel: nat) -> Option<(Seq<JsonTree>, int)>
    decreases fuel, 0nat,
{
    if fuel == 0 {
        None
    } else {
        match value_at(t, i, (fuel - 1) as nat) {
            None => None,
            Some((v, j)) => if 0 <= j < t.len() && t[j] == ',' {
                match items_at(t, j + 1, (fuel - 1) as nat) {
                    Some((vs, k)) => Some((seq![v] + vs, k)),
                    None => None,
                }
            } else if 0 <= j < t.len() && t[j] == ']' {
                Some((seq![v], j + 1))
            } else {
                None
            },
        }
    }
}

/// The entries of an object from `i` on, up to and past its closing `}`.
pub open spec fn entries_at(t: Seq<char>, i: int, fuel: nat) -> Option<
    (Seq<(Seq<char>, JsonTree)>, int),
>
    decreases fuel, 0nat,
{
    if fuel == 0 || i < 0 || i >= t.len() || t[i] != '"' {
        None
    } else {
        match string_body(t, i + 1) {
            None => None,
            Some((key, j)) => if 0 <= j < t.len() && t[j] == ':' {
                match value_at(t, j + 1, (fuel - 1) as nat) {
                    None => None,
                    Some((v, m)) => if 0 <= m < t.len() && t[m] == ',' {
                        match entries_at(t, m + 1, (fuel - 1) as nat) {
                            Some((es, k)) => Some((seq![(key, v)] + es, k)),
                            None => None,
                        }
                    } else if 0 <= m < t.len() && t[m] == '}' {
                        Some((seq![(key, v)], m + 1))
                    } else {
                        None
                    },
                }
            } else {
                None
            },
        }
    }
}

/// The reading budget for a text of `n` characters: enough for every character to open a
/// nesting level or an item.
pub open spec fn json_fuel(n: nat) -> nat {
    if n <= 0x7fff_fff0 {
        2 * n + 2
    } else {
        0x1_0000_0000
    }
}

/// What compact JSON text reads as: the one value that fills it exactly.
pub open spec fn parse_json_spec(t: Seq<char>) -> Option<JsonTree> {
    match value_at(t, 0, json_fuel(t.len())) {
        Some((v, j)) => if j == t.len() {
            Some(v)
        } else {
            None
        },
        None => None,
    }
}

/// A read whose result is put in front of what is read after.
pub open spec fn prefixed_text(acc: Seq<char>, r: Option<(Seq<char>, int)>) -> Option<(Seq<char>, int)> {
    match r {
        Some((s, k)) => Some((acc + s, k)),
        None => None,
    }
}

/// The value of a hexadecimal digit (see `hex_value`).
fn hex_value_exec(c: char) -> (r: Option<u32>)
    ensures
        match hex_value(c) {
            Some(v) => r == Some(v as u32),
            None => r is None,
        },
{
    if '0' <= c && c <= '9' {
        Some(c as u32 - 48)
    } else if 'a' <= c && c <= 'f' {
        Some(c as u32 - 87)
    } else if 'A' <= c && c <= 'F' {
        Some(c as u32 - 55)
    } else {
        None
    }
}

/// The character of the escape after a backslash (see `escaped_char`).
fn escaped_char_exec(t: &Vec<char>, i: usize) -> (r: Option<char>)
    ensures
        r == escaped_char(t@, i as int),
        r is Some ==> i + escape_len(t@, i as int) <= t@.len(),
{
    if i >= t.len() {
        return None;
    }
    let c = t[i];
    if c == '"' || c == '\\' || c == '/' {
        Some(c)
    } else if c == 'b' {
        Some('\u{8}')
    } else if c == 'f' {
        Some('\u{c}')
    } else if c == 'n' {
        Some('\n')
    } else if c == 'r' {
        Some('\r')
    } else if c == 't' {
        Some('\t')
    } else if c == 'u' {
        if t.len() - i <= 4 {
            return None;
        }
        match (hex_value_exec(t[i + 1]), hex_value_exec(t[i + 2]), hex_value_exec(t[i + 3]), hex_value_exec(t[i + 4])) {
            (Some(a), Some(b), Some(c2), Some(d)) => {
                let v: u32 = a * 4096 + b * 256 + c2 * 16 + d;
                if v < 0xD800 || (0xE000 <= v && v <= 0xFFFF) {
                    char_of_scalar(v)
                } else {
                    None
                }
            },
            _ => None,
        }
    } else {
        None
    }
}

/// The character with the scalar value `v` (std's `char::from_u32`): std documents it as
/// given for every value below 0xD800 and from 0xE000 to 0x10FFFF, and as `None` otherwise.
#[verifier::external_body]
fn char_of_scalar(v: u32) -> (c: Option<char>)
    ensures
        (v < 0xD800 || (0xE000 <= v && v <= 0x10FFFF)) ==> c == Some(v as char),
        !(v < 0xD800 || (0xE000 <= v && v <= 0x10FFFF)) ==> c is None,
{
    char::from_u32(v)
}

/// Reads the body of a string literal starting at `i0` (see `string_body`).
fn string_body_exec(t: &Vec<char>, i0: usize) -> (r: Option<(String, usize)>)
    ensures
        match string_body(t@, i0 as int) {
            Some((s, j)) => r matches Some((v, k)) && v@ == s && k == j,
            None => r is None,
        },
{
    let mut acc: Vec<char> = Vec::new();
    let mut i = i0;
    loop
        invariant
            string_body(t@, i0 as int) == prefixed_text(acc@, string_body(t@, i as int)),
        decreases t@.len() - i,
    {
        if i >= t.len() {
            return None;
        }
        let c = t[i];
        if c == '"' {
            assert(acc@ + Seq::<char>::empty() =~= acc@);
            return Some((string_of(&acc), i + 1));
        }
        if c == '\\' {
            match escaped_char_exec(t, i + 1) {
                None => {
                    return None;
                },
                Some(e) => {
                    let n: usize = if i + 1 < t.len() && t[i + 1] == 'u' {
                        5
                    } else {
                        1
                    };
                    let ghost before = acc@;
                    acc.push(e);
                    proof {
                        let rest = string_body(t@, i + 1 + n);
                        match rest {
                            Some((s, k)) => {
                                assert(before + (seq![e] + s) =~= acc@ + s);
                            },
                            None => {},
                        }
                    }
                    i = i + 1 + n;
                },
            }
        } else {
            let ghost before = acc@;
            acc.push(c);
            proof {
                match string_body(t@, i + 1) {
                    Some((s, k)) => {
                        assert(before + (seq![c] + s) =~= acc@ + s);
                    },
                    None => {},
                }
            }
            i = i + 1;
        }
    }
}

/// Whether `w` stands in `t` at `i` (see `word_at`).
fn word_at_exec(t: &Vec<char>, i: usize, w: &Vec<char>) -> (r: bool)
    ensures
        r == word_at(t@, i as int, w@),
{
    if i > t.len() || w.len() > t.len() - i {
        return false;
    }
    let mut k: usize = 0;
    while k < w.len()
        invariant
            i + w@.len() <= t@.len(),
            t@.len() == t.len(),
            w@.len() == w.len(),
            k <= w@.len(),
            forall|j: int| 0 <= j < k ==> t@[i + j] == w@[j],
        decreases w@.len() - k,
    {
        if t[i + k] != w[k] {
            assert(t@.subrange(i as int, i + w@.len())[k as int] != w@[k as int]);
            return false;
        }
        k = k + 1;
    }
    assert(t@.subrange(i as int, i + w@.len()) =~= w@);
    true
}

/// The characters of a literal word.
fn word(w: &str) -> (r: Vec<char>)
    ensures
        r@ == w@,
{
    crate::strings::chars_of(w)
}

/// Reads the value starting at `i` (see `value_at`).
fn value_exec(t: &Vec<char>, i: usize, fuel: u64) -> (r: Option<(JsonValue, usize)>)
    ensures
        match value_at(t@, i as int, fuel as nat) {
            Some((tree, j)) => r matches Some((v, k)) && json_tree_of(v) == tree && k == j,
            None => r is None,
        },
    decreases fuel, 1nat,
{
    if fuel == 0 || i >= t.len() {
        return None;
    }
    let c = t[i];
    if c == 'n' {
        let w = word("null");
        proof {
            reveal_strlit("null");
        }
        assert(w@ =~= seq!['n', 'u', 'l', 'l']);
        if word_at_exec(t, i, &w) {
            Some((JsonValue::Null, i + 4))
        } else {
            None
        }
    } else if c == 't' {
        let w = word("true");
        proof {
            reveal_strlit("true");
        }
        assert(w@ =~= seq!['t', 'r', 'u', 'e']);
        if word_at_exec(t, i, &w) {
            Some((JsonValue::Bool(true), i + 4))
        } else {
            None
        }
    } else if c == 'f' {
        let w = word("false");
        proof {
            reveal_strlit("false");
        }
        assert(w@ =~= seq!['f', 'a', 'l', 's', 'e']);
        if word_at_exec(t, i, &w) {
            Some((JsonValue::Bool(false), i + 5))
        } else {
            None
        }
    } else if c == '"' {
        match string_body_exec(t, i + 1) {
            Some((s, j)) => Some((JsonValue::String(s), j)),
            None => None,
        }
    } else if c == '[' {
        if i + 1 < t.len() && t[i + 1] == ']' {
            let items: Vec<JsonValue> = Vec::new();
            proof {
                lemma_json_tree_array(items);
                assert(json_items_view(items@) =~= Seq::<JsonTree>::empty());
            }
            Some((JsonValue::Array(items), i + 2))
        } else {
            match items_exec(t, i + 1, fuel - 1) {
                Some((items, j)) => {
                    proof {
                        lemma_json_tree_array(items);
                    }
                    Some((JsonValue::Array(items), j))
                },
                None => None,
            }
        }
    } else if c == '{' {
        if i + 1 < t.len() && t[i + 1] == '}' {
            let es: Vec<(String, JsonValue)> = Vec::new();
            proof {
                lemma_json_tree_object(es);
                assert(json_entries_view(es@) =~= Seq::<(Seq<char>, JsonTree)>::empty());
            }
            Some((JsonValue::Object(es), i + 2))
        } else {
            match entries_exec(t, i + 1, fuel - 1) {
                Some((es, j)) => {
                    proof {
                        lemma_json_tree_object(es);
                    }
                    Some((JsonValue::Object(es), j))
                },
                None => None,
            }
        }
    } else if c == '-' || ('0' <= c && c <= '9') {
        let mut e = i;
        while e < t.len() && is_number_char_exec(t[e])
            invariant
                i <= e <= t@.len(),
                number_end(t@, i as int) == number_end(t@, e as int),
            decreases t@.len() - e,
        {
            e = e + 1;
        }
        let n = crate::strings::slice_of(t, i, e);
        Some((JsonValue::Number(string_of(&n)), e))
    } else {
        None
    }
}

/// A character of a JSON number (see `is_number_char`).
fn is_number_char_exec(c: char) -> (r: bool)
    ensures
        r == is_number_char(c),
{
    ('0' <= c && c <= '9') || c == '-' || c == '+' || c == '.' || c == 'e' || c == 'E'
}

/// A read of items whose result is put after those read before.
pub open spec fn prefixed_items(acc: Seq<JsonTree>, r: Option<(Seq<JsonTree>, int)>) -> Option<
    (Seq<JsonTree>, int),
> {
    match r {
        Some((s, k)) => Some((acc + s, k)),
        None => None,
    }
}

/// A read of entries whose result is put after those read before.
pub open spec fn prefixed_entries(
    acc: Seq<(Seq<char>, JsonTree)>,
    r: Option<(Seq<(Seq<char>, JsonTree)>, int)>,
) -> Option<(Seq<(Seq<char>, JsonTree)>, int)> {
    match r {
        Some((s, k)) => Some((acc + s, k)),
        None => None,
    }
}

/// Reads the items of an array from `i0` on (see `items_at`).
fn items_exec(t: &Vec<char>, i0: usize, fuel0: u64) -> (r: Option<(Vec<JsonValue>, usize)>)
    ensures
        match items_at(t@, i0 as int, fuel0 as nat) {
            Some((trees, j)) => r matches Some((v, k)) && json_items_view(v@) == trees && k == j,
            None => r is None,
        },
    decreases fuel0, 0nat,
{
    let mut acc: Vec<JsonValue> = Vec::new();
    let mut i = i0;
    let mut fuel = fuel0;
    loop
        invariant
            fuel <= fuel0,
            items_at(t@, i0 as int, fuel0 as nat) == prefixed_items(
                json_items_view(acc@),
                items_at(t@, i as int, fuel as nat),
            ),
        decreases fuel,
    {
        if fuel == 0 {
            return None;
        }
        match value_exec(t, i, fuel - 1) {
            None => {
                return None;
            },
            Some((v, j)) => {
                let ghost before = json_items_view(acc@);
                let ghost tv = json_tree_of(v);
                acc.push(v);
                assert(json_items_view(acc@) =~= before + seq![tv]);
                if j < t.len() && t[j] == ',' {
                    proof {
                        match items_at(t@, j + 1, (fuel - 1) as nat) {
                            Some((vs, k)) => {
                                assert(before + (seq![tv] + vs) =~= json_items_view(acc@) + vs);
                            },
                            None => {},
                        }
                    }
                    i = j + 1;
                    fuel = fuel - 1;
                } else if j < t.len() && t[j] == ']' {
                    return Some((acc, j + 1));
                } else {
                    return None;
                }
            },
        }
    }
}

/// Reads the entries of an object from `i0` on (see `entries_at`).
fn entries_exec(t: &Vec<char>, i0: usize, fuel0: u64) -> (r: Option<(Vec<(String, JsonValue)>, usize)>)
    ensures
        match entries_at(t@, i0 as int, fuel0 as nat) {
            Some((trees, j)) => r matches Some((v, k)) && json_entries_view(v@) == trees && k == j,
            None => r is None,
        },
    decreases fuel0, 0nat,
{
    let mut acc: Vec<(String, JsonValue)> = Vec::new();
    let mut i = i0;
    let mut fuel = fuel0;
    loop
        invariant
            fuel <= fuel0,
            entries_at(t@, i0 as int, fuel0 as nat) == prefixed_entries(
                json_entries_view(acc@),
                entries_at(t@, i as int, fuel as nat),
            ),
        decreases fuel,
    {
        if fuel == 0 || i >= t.len() || t[i] != '"' {
            return None;
        }
        let (key, j) = match string_body_exec(t, i + 1) {
            None => {
                return None;
            },
            Some(p) => p,
        };
        if !(j < t.len() && t[j] == ':') {
            return None;
        }
        match value_exec(t, j + 1, fuel - 1) {
            None => {
                return None;
            },
            Some((v, m)) => {
                let ghost before = json_entries_view(acc@);
                let ghost tv = (key@, json_tree_of(v));
                acc.push((key, v));
                assert(json_entries_view(acc@) =~= before + seq![tv]);
                if m < t.len() && t[m] == ',' {
                    proof {
                        match entries_at(t@, m + 1, (fuel - 1) as nat) {
                            Some((es, k)) => {
                                assert(before + (seq![tv] + es) =~= json_entries_view(acc@) + es);
                            },
                            None => {},
                        }
                    }
                    i = m + 1;
                    fuel = fuel - 1;
                } else if m < t.len() && t[m] == '}' {
                    return Some((acc, m + 1));
                } else {
                    return None;
                }
            },
        }
    }
}

/// Reads compact JSON text into a value (see `parse_json_spec`): the value must fill the
/// text exactly.
pub fn json_value_of_text(json: &str) -> (r: Option<JsonValue>)
    ensures
        match parse_json_spec(json@) {
            Some(tree) => r matches Some(v) && json_tree_of(v) == tree,
            None => r is None,
        },
{
    let t = crate::strings::chars_of(json);
    let n = t.len();
    let fuel: u64 = if n <= 0x7fff_fff0 {
        2 * (n as u64) + 2
    } else {
        0x1_0000_0000
    };
    match value_exec(&t, 0, fuel) {
        Some((v, j)) => if j == n {
            Some(v)
        } else {
            None
        },
        None => None,
    }
}

} // verus!
