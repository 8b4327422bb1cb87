//! XML values as JSON values: leaf text typed as a boolean, null, an integer, a number or a
//! string. A leaf that reads as a floating-point number in Rust's grammar is written in JSON
//! number form and read by serde_json, which gives the number's text.
use vstd::prelude::*;
use crate::converter::xml::{
    classify_xml_text, classify_xml_text_spec, entries_view, items_view, lemma_tree_array,
    lemma_tree_object, tree_of, XmlScalar, XmlTree, XmlValue,
};
use crate::json::{xml_leaf, xml_of, JsonValue};
use crate::json_text::{
    json_entries_view, json_items_view, json_tree_of, lemma_json_tree_array,
    json_text_spec, lemma_json_tree_object, JsonTree,
};
use crate::strings::{chars_of, decimal, decimal_string, push_all, slice_of, string_of};

verus! {

/// An ASCII decimal digit.
pub open spec fn is_dec_digit(c: char) -> bool {
    '0' <= c <= '9'
}

/// The number of digits from `i` on.
pub open spec fn digits_from(t: Seq<char>, i: int) -> int
    decreases t.len() - i,
{
    if 0 <= i < t.len() && is_dec_digit(t[i]) {
        1 + digits_from(t, i + 1)
    } else {
        0
    }
}

/// The number of `0`s from `i` on.
pub open spec fn zeros_from(t: Seq<char>, i: int) -> int
    decreases t.len() - i,
{
    if 0 <= i < t.len() && t[i] == '0' {
        1 + zeros_from(t, i + 1)
    } else {
        0
    }
}

/// Whether the text from `e` on is empty or an exponent: `e` or `E`, an optional sign, and
/// one or more digits up to the end.
pub open spec fn exponent_from(t: Seq<char>, e: int) -> bool {
    e == t.len() || (0 <= e < t.len() && (t[e] == 'e' || t[e] == 'E') && {
        let f = if e + 1 < t.len() && (t[e + 1] == '+' || t[e + 1] == '-') {
            e + 2
        } else {
            e + 1
        };
        f < t.len() && f + digits_from(t, f) == t.len()
    })
}

/// The integer digits of a JSON number: without leading zeros, `0` when nothing is left.
pub open spec fn int_json(d: Seq<char>) -> Seq<char> {
    let z = zeros_from(d, 0);
    if z == d.len() {
        seq!['0']
    } else {
        d.subrange(z, d.len() as int)
    }
}

/// A text in Rust's decimal floating-point grammar (an optional sign, digits with an
/// optional `.`, at least one digit, an optional exponent) written as a JSON number with a
/// fraction: `+` dropped, leading zeros dropped, `0` before an empty integer part and after
/// an empty fraction. Anything else (among it `inf` and `nan`) has no such form.
pub open spec fn float_json_form(t: Seq<char>) -> Option<Seq<char>> {
    let s: int = if t.len() > 0 && (t[0] == '-' || t[0] == '+') {
        1
    } else {
        0
    };
    let p = s + digits_from(t, s);
    let has_dot = p < t.len() && t[p] == '.';
    let q = if has_dot {
        p + 1
    } else {
        p
    };
    let d2 = if has_dot {
        digits_from(t, q)
    } else {
        0
    };
    let e = q + d2;
    if (p - s) + d2 == 0 || !exponent_from(t, e) {
        None
    } else {
        Some(
            (if s == 1 && t[0] == '-' {
                seq!['-']
            } else {
                Seq::empty()
            }) + int_json(t.subrange(s, p)) + seq!['.'] + (if d2 == 0 {
                seq!['0']
            } else {
                t.subrange(q, e)
            }) + t.subrange(e, t.len() as int),
        )
    }
}

/// The text serde_json gives for the number it reads from a text, if it reads one.
pub uninterp spec fn json_number_of(text: Seq<char>) -> Option<Seq<char>>;

/// Reads a number with serde_json (`from_str` into a `serde_json::Number`) and gives its
/// text (`to_string`); `None` where serde_json reads no number, among it a number too large
/// for an `f64`.
#[verifier::external_body]
fn json_number_text(text: &str) -> (r: Option<String>)
    ensures
        match r {
            Some(n) => json_number_of(text@) == Some(n@),
            None => json_number_of(text@) is None,
        },
{
    match serde_json::from_str::<serde_json::Number>(text) {
        Ok(n) => Some(n.to_string()),
        Err(_) => None,
    }
}

/// The decimal text of an integer, with `-` before a negative one.
pub open spec fn int_text(n: int) -> Seq<char> {
    if n < 0 {
        seq!['-'] + decimal((-n) as nat)
    } else {
        decimal(n as nat)
    }
}

/// How the text of a leaf element is typed in JSON: `true`, `false` and `null` as
/// themselves, an `i64` as an integer, a text that reads as a floating-point number as the
/// number serde_json reads from its JSON form, anything else as a string.
pub open spec fn leaf_json(s: Seq<char>) -> JsonTree {
    match classify_xml_text_spec(s) {
        XmlScalar::Bool(b) => JsonTree::Bool(b),
        XmlScalar::Null => JsonTree::Null,
        XmlScalar::Integer(n) => JsonTree::Number(int_text(n as int)),
        XmlScalar::Other => match float_json_form(s) {
            Some(f) => match json_number_of(f) {
                Some(n) => JsonTree::Number(n),
                None => JsonTree::Str(s),
            },
            None => JsonTree::Str(s),
        },
    }
}

/// A boolean written as XML reads back as the same boolean: its element holds the
/// boolean's JSON text (`true` or `false`), and the reader's typing of leaf text takes that
/// text for the same boolean again.
pub proof fn law_xml_boolean_reads_back(b: bool, tag: Seq<char>, pad: Seq<char>)
    ensures
        xml_of(JsonValue::Bool(b), tag, pad) == xml_leaf(pad, tag, json_text_spec(JsonTree::Bool(b))),
        leaf_json(json_text_spec(JsonTree::Bool(b))) == JsonTree::Bool(b),
{
    reveal_strlit("true");
    reveal_strlit("false");
    assert("true"@ =~= seq!['t', 'r', 'u', 'e']);
    assert("false"@ =~= seq!['f', 'a', 'l', 's', 'e']);
}

/// An XML tree as a JSON tree: null stays null, leaf text is typed (see `leaf_json`),
/// arrays and objects keep their order.
pub open spec fn xml_json_tree(x: XmlTree) -> JsonTree
    decreases x,
{
    match x {
        XmlTree::Null => JsonTree::Null,
        XmlTree::Text(s) => leaf_json(s),
        XmlTree::Array(items) => JsonTree::Array(
            Seq::new(
                items.len(),
                |i: int|
                    if 0 <= i < items.len() {
                        xml_json_tree(items[i])
                    } else {
                        JsonTree::Null
                    },
            ),
        ),
        XmlTree::Object(es) => JsonTree::Object(
            Seq::new(
                es.len(),
                |i: int|
                    if 0 <= i < es.len() {
                        (es[i].0, xml_json_tree(es[i].1))
                    } else {
                        (Seq::empty(), JsonTree::Null)
                    },
            ),
        ),
    }
}

/// The number of digits from `i` on (see `digits_from`).
fn digits_from_exec(t: &Vec<char>, i: usize) -> (r: usize)
    requires
        i <= t@.len(),
    ensures
        r == digits_from(t@, i as int),
        i + r <= t@.len(),
{
    let mut k = i;
    while k < t.len() && '0' <= t[k] && t[k] <= '9'
        invariant
            i <= k <= t@.len(),
            digits_from(t@, i as int) == (k - i) + digits_from(t@, k as int),
        decreases t@.len() - k,
    {
        k = k + 1;
    }
    k - i
}

/// The number of `0`s from `i` on (see `zeros_from`).
fn zeros_from_exec(t: &Vec<char>, i: usize) -> (r: usize)
    requires
        i <= t@.len(),
    ensures
        r == zeros_from(t@, i as int),
        i + r <= t@.len(),
{
    let mut k = i;
    while k < t.len() && t[k] == '0'
        invariant
            i <= k <= t@.len(),
            zeros_from(t@, i as int) == (k - i) + zeros_from(t@, k as int),
        decreases t@.len() - k,
    {
        k = k + 1;
    }
    k - i
}

/// Whether the text from `e` on is empty or an exponent (see `exponent_from`).
fn exponent_from_exec(t: &Vec<char>, e: usize) -> (r: bool)
    requires
        e <= t@.len(),
    ensures
        r == exponent_from(t@, e as int),
{
    let n = t.len();
    if e == n {
        true
    } else if t[e] == 'e' || t[e] == 'E' {
        let f = if e + 1 < n && (t[e + 1] == '+' || t[e + 1] == '-') {
            e + 2
        } else {
            e + 1
        };
        f < n && f + digits_from_exec(t, f) == n
    } else {
        false
    }
}

/// The integer digits of a JSON number (see `int_json`).
fn int_json_exec(d: &Vec<char>) -> (r: Vec<char>)
    ensures
        r@ == int_json(d@),
{
    let z = zeros_from_exec(d, 0);
    if z == d.len() {
        let mut out: Vec<char> = Vec::new();
        out.push('0');
        assert(out@ =~= seq!['0']);
        out
    } else {
        slice_of(d, z, d.len())
    }
}

/// The JSON number form of a text in Rust's floating-point grammar (see `float_json_form`).
#[verifier::rlimit(30)]
pub fn float_json_text(text: &str) -> (r: Option<String>)
    ensures
        match float_json_form(text@) {
            Some(f) => r matches Some(v) && v@ == f,
            None => r is None,
        },
{
    let t = chars_of(text);
    let n = t.len();
    let s: usize = if n > 0 && (t[0] == '-' || t[0] == '+') {
        1
    } else {
        0
    };
    let p = s + digits_from_exec(&t, s);
    let has_dot = p < n && t[p] == '.';
    let q = if has_dot {
        p + 1
    } else {
        p
    };
    let d2 = if has_dot {
        digits_from_exec(&t, q)
    } else {
        0
    };
    let e = q + d2;
    let exp_ok = exponent_from_exec(&t, e);
    if (p - s) + d2 == 0 || !exp_ok {
        return None;
    }
    let mut out: Vec<char> = Vec::new();
    if s == 1 && t[0] == '-' {
        out.push('-');
    }
    let ghost sign = out@;
    let ints = slice_of(&t, s, p);
    let ij = int_json_exec(&ints);
    push_all(&mut out, &ij);
    assert(out@ =~= sign + int_json(t@.subrange(s as int, p as int)));
    out.push('.');
    if d2 == 0 {
        out.push('0');
    } else {
        let frac = slice_of(&t, q, e);
        push_all(&mut out, &frac);
    }
    let tail = slice_of(&t, e, n);
    push_all(&mut out, &tail);
    assert(out@ =~= float_json_form(text@)->Some_0);
    Some(string_of(&out))
}

/// The decimal text of an integer (see `int_text`).
fn int_text_exec(n: i64) -> (r: String)
    ensures
        r@ == int_text(n as int),
{
    if n < 0 {
        let m: u64 = if n == i64::MIN {
            9223372036854775808u64
        } else {
            (-n) as u64
        };
        let mut out: Vec<char> = Vec::new();
        out.push('-');
        let d = crate::strings::decimal_exec(m);
        push_all(&mut out, &d);
        assert(out@ =~= int_text(n as int));
        string_of(&out)
    } else {
        decimal_string(n as u64)
    }
}

/// The JSON value of the text of a leaf element (see `leaf_json`).
pub fn leaf_json_value(text: &str) -> (r: JsonValue)
    ensures
        json_tree_of(r) == leaf_json(text@),
{
    match classify_xml_text(text) {
        XmlScalar::Bool(b) => JsonValue::Bool(b),
        XmlScalar::Null => JsonValue::Null,
        XmlScalar::Integer(n) => JsonValue::Number(int_text_exec(n)),
        XmlScalar::Other => match float_json_text(text) {
            Some(f) => match json_number_text(f.as_str()) {
                Some(num) => JsonValue::Number(num),
                None => JsonValue::String(text.to_owned()),
            },
            None => JsonValue::String(text.to_owned()),
        },
    }
}

/// An XML value as a JSON value (see `xml_json_tree`).
pub fn xml_to_json_value(x: &XmlValue) -> (r: JsonValue)
    ensures
        json_tree_of(r) == xml_json_tree(tree_of(*x)),
    decreases *x,
{
    match x {
        XmlValue::Null => JsonValue::Null,
        XmlValue::Text(s) => leaf_json_value(s.as_str()),
        XmlValue::Array(items) => {
            proof {
                lemma_tree_array(*items);
            }
            let ghost xs = items_view(items@);
            let mut out: Vec<JsonValue> = Vec::new();
            let mut i: usize = 0;
            while i < items.len()
                invariant
                    i <= items@.len(),
                    *x == XmlValue::Array(*items),
                    xs == items_view(items@),
                    xs.len() == items@.len(),
                    out@.len() == i,
                    json_items_view(out@) == Seq::new(i as nat, |k: int| xml_json_tree(xs[k])),
                decreases items@.len() - i,
            {
                proof {
                    assert(decreases_to!(*x => (*x)->Array_0));
                    assert(decreases_to!(*items => items@));
                    assert(decreases_to!(items@ => items@[i as int]));
                    assert(decreases_to!(*x => items@[i as int]));
                }
                let v = xml_to_json_value(&items[i]);
                assert(xs[i as int] == tree_of(items@[i as int]));
                assert(json_tree_of(v) == xml_json_tree(xs[i as int]));
                let ghost old_out = out@;
                out.push(v);
                assert forall|k: int| 0 <= k < i + 1 implies #[trigger] json_items_view(out@)[k]
                    == xml_json_tree(xs[k]) by {
                    if k < i {
                        assert(out@[k] == old_out[k]);
                        assert(json_items_view(old_out)[k] == Seq::new(
                            i as nat,
                            |m: int| xml_json_tree(xs[m]),
                        )[k]);
                    }
                }
                assert(json_items_view(out@) =~= Seq::new((i + 1) as nat, |k: int| xml_json_tree(xs[k])));
                i = i + 1;
            }
            proof {
                lemma_json_tree_array(out);
                assert(json_items_view(out@) =~= match xml_json_tree(XmlTree::Array(xs)) {
                    JsonTree::Array(t) => t,
                    _ => Seq::empty(),
                });
            }
            JsonValue::Array(out)
        },
        XmlValue::Object(es) => {
            proof {
                lemma_tree_object(*es);
            }
            let ghost xs = entries_view(es@);
            let mut out: Vec<(String, JsonValue)> = Vec::new();
            let mut i: usize = 0;
            while i < es.len()
                invariant
                    i <= es@.len(),
                    *x == XmlValue::Object(*es),
                    xs == entries_view(es@),
                    xs.len() == es@.len(),
                    out@.len() == i,
                    json_entries_view(out@) == Seq::new(
                        i as nat,
                        |k: int| (xs[k].0, xml_json_tree(xs[k].1)),
                    ),
                decreases es@.len() - i,
            {
                proof {
                    assert(decreases_to!(*x => (*x)->Object_0));
                    assert(decreases_to!(*es => es@));
                    assert(decreases_to!(es@ => es@[i as int]));
                    assert(decreases_to!(es@[i as int] => es@[i as int].1));
                    assert(decreases_to!(*x => es@[i as int].1));
                }
                let v = xml_to_json_value(&es[i].1);
                let k = es[i].0.clone();
                assert(k@ == es@[i as int].0@);
                assert(xs[i as int] == (es@[i as int].0@, tree_of(es@[i as int].1)));
                assert(json_tree_of(v) == xml_json_tree(xs[i as int].1));
                let ghost old_out = out@;
                out.push((k, v));
                assert forall|j: int| 0 <= j < i + 1 implies #[trigger] json_entries_view(out@)[j]
                    == (xs[j].0, xml_json_tree(xs[j].1)) by {
                    if j < i {
                        assert(out@[j] == old_out[j]);
                        assert(json_entries_view(old_out)[j] == Seq::new(
                            i as nat,
                            |m: int| (xs[m].0, xml_json_tree(xs[m].1)),
                        )[j]);
                    }
                }
                assert(json_entries_view(out@) =~= Seq::new(
                    (i + 1) as nat,
                    |m: int| (xs[m].0, xml_json_tree(xs[m].1)),
                ));
                i = i + 1;
            }
            proof {
                lemma_json_tree_object(out);
                assert(json_entries_view(out@) =~= match xml_json_tree(XmlTree::Object(xs)) {
                    JsonTree::Object(t) => t,
                    _ => Seq::empty(),
                });
            }
            JsonValue::Object(out)
        },
    }
}

} // verus!
