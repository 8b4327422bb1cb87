//! Structured data as read from JSON, YAML, TOML, XML and CSV, and its XML rendering.
use vstd::prelude::*;
use crate::strings::{chars_of, push_all, push_str, string_of};

verus! {

/// A structured value. Numbers are held in their decimal text form; objects hold their
/// entries in order.
#[derive(Debug)]
pub enum JsonValue {
    Null,
    Bool(bool),
    Number(String),
    String(String),
    Array(Vec<JsonValue>),
    Object(Vec<(String, JsonValue)>),
}

/// The escaped form of one character in XML text.
pub open spec fn xml_escape_char(c: char) -> Seq<char> {
    if c == '&' {
        "&amp;"@
    } else if c == '<' {
        "&lt;"@
    } else if c == '>' {
        "&gt;"@
    } else if c == '"' {
        "&quot;"@
    } else if c == '\'' {
        "&apos;"@
    } else {
        seq![c]
    }
}

/// Text escaped for XML: `&`, `<`, `>`, `"` and `'` become entity references.
pub open spec fn xml_escape_spec(s: Seq<char>) -> Seq<char>
    decreases s.len(),
{
    if s.len() == 0 {
        Seq::empty()
    } else {
        xml_escape_spec(s.drop_last()) + xml_escape_char(s.last())
    }
}

/// Escaped text holds no `<`, `>`, `"` or `'`: it cannot open or close markup or end an
/// attribute value.
pub proof fn law_xml_escape_has_no_markup(s: Seq<char>)
    ensures
        forall|i: int|
            0 <= i < xml_escape_spec(s).len() ==> {
                let c = #[trigger] xml_escape_spec(s)[i];
                c != '<' && c != '>' && c != '"' && c != '\''
            },
    decreases s.len(),
{
    if s.len() > 0 {
        law_xml_escape_has_no_markup(s.drop_last());
        let prev = xml_escape_spec(s.drop_last());
        let last = xml_escape_char(s.last());
        reveal_strlit("&amp;");
        reveal_strlit("&lt;");
        reveal_strlit("&gt;");
        reveal_strlit("&quot;");
        reveal_strlit("&apos;");
        assert forall|i: int| 0 <= i < xml_escape_spec(s).len() implies {
            let c = #[trigger] xml_escape_spec(s)[i];
            c != '<' && c != '>' && c != '"' && c != '\''
        } by {
            if i >= prev.len() {
                assert(xml_escape_spec(s)[i] == last[i - prev.len()]);
            } else {
                assert(xml_escape_spec(s)[i] == prev[i]);
            }
        }
    }
}

/// One element `<tag>text</tag>` on its own line.
pub open spec fn xml_leaf(pad: Seq<char>, tag: Seq<char>, text: Seq<char>) -> Seq<char> {
    pad + "<"@ + tag + ">"@ + text + "</"@ + tag + ">\n"@
}

/// The XML lines of a value under `tag`, indented by `pad`: an object is an element holding
/// one child per entry (indented two more spaces), an array repeats the tag for each item,
/// text is escaped, numbers and booleans are written as they are, null is an empty element.
pub open spec fn xml_of(v: JsonValue, tag: Seq<char>, pad: Seq<char>) -> Seq<char>
    decreases v,
{
    match v {
        JsonValue::Object(entries) => pad + "<"@ + tag + ">\n"@ + xml_of_entries(
            entries@,
            pad + "  "@,
        ) + pad + "</"@ + tag + ">\n"@,
        JsonValue::Array(items) => xml_of_items(items@, tag, pad),
        JsonValue::String(s) => xml_leaf(pad, tag, xml_escape_spec(s@)),
        JsonValue::Number(n) => xml_leaf(pad, tag, n@),
        JsonValue::Bool(b) => xml_leaf(pad, tag, if b { "true"@ } else { "false"@ }),
        JsonValue::Null => pad + "<"@ + tag + "/>\n"@,
    }
}

/// The XML lines of each item, all under the same tag.
pub open spec fn xml_of_items(items: Seq<JsonValue>, tag: Seq<char>, pad: Seq<char>) -> Seq<char>
    decreases items,
{
    if items.len() == 0 {
        Seq::empty()
    } else {
        xml_of_items(items.drop_last(), tag, pad) + xml_of(items.last(), tag, pad)
    }
}

/// The XML lines of each entry, under its key.
pub open spec fn xml_of_entries(entries: Seq<(String, JsonValue)>, pad: Seq<char>) -> Seq<char>
    decreases entries,
{
    if entries.len() == 0 {
        Seq::empty()
    } else {
        xml_of_entries(entries.drop_last(), pad) + xml_of(
            entries.last().1,
            entries.last().0@,
            pad,
        )
    }
}

/// The XML declaration that starts every document.
pub open spec fn xml_declaration() -> Seq<char> {
    "<?xml version=\"1.0\" encoding=\"UTF-8\"?>\n"@
}

/// A whole XML document for a value: the declaration, then the value under `root`.
pub open spec fn xml_document_spec(v: JsonValue) -> Seq<char> {
    xml_declaration() + xml_of(v, "root"@, Seq::empty())
}

/// Escapes the XML special characters of `s` (see `xml_escape_spec`).
pub fn xml_escape(s: &str) -> (r: String)
    ensures
        r@ == xml_escape_spec(s@),
{
    let v = chars_of(s);
    let mut out: Vec<char> = Vec::new();
    let mut i: usize = 0;
    while i < v.len()
        invariant
            i <= v@.len(),
            out@ == xml_escape_spec(v@.take(i as int)),
        decreases v@.len() - i,
    {
        let c = v[i];
        if c == '&' {
            push_str(&mut out, "&amp;");
        } else if c == '<' {
            push_str(&mut out, "&lt;");
        } else if c == '>' {
            push_str(&mut out, "&gt;");
        } else if c == '"' {
            push_str(&mut out, "&quot;");
        } else if c == '\'' {
            push_str(&mut out, "&apos;");
        } else {
            out.push(c);
        }
        assert(v@.take(i + 1).drop_last() =~= v@.take(i as int));
        assert(v@.take(i + 1).last() == c);
        i = i + 1;
    }
    assert(v@.take(v@.len() as int) =~= v@);
    string_of(&out)
}

/// Appends `pad<tag>text</tag>\n`.
fn push_leaf(out: &mut Vec<char>, pad: &Vec<char>, tag: &Vec<char>, text: &Vec<char>)
    ensures
        final(out)@ == old(out)@ + xml_leaf(pad@, tag@, text@),
{
    push_all(out, pad);
    push_str(out, "<");
    push_all(out, tag);
    push_str(out, ">");
    push_all(out, text);
    push_str(out, "</");
    push_all(out, tag);
    push_str(out, ">\n");
    assert(final(out)@ =~= old(out)@ + xml_leaf(pad@, tag@, text@));
}

/// Appends the XML lines of `value` under `tag`, indented by `pad` (see `xml_of`).
pub fn json_value_to_xml(value: &JsonValue, tag: &Vec<char>, out: &mut Vec<char>, pad: &Vec<char>)
    ensures
        final(out)@ == old(out)@ + xml_of(*value, tag@, pad@),
    decreases value,
{
    match value {
        JsonValue::Object(entries) => {
            push_all(out, pad);
            push_str(out, "<");
            push_all(out, tag);
            push_str(out, ">\n");
            let ghost mid = out@;
            let mut inner = pad.clone();
            push_str(&mut inner, "  ");
            let mut i: usize = 0;
            while i < entries.len()
                invariant
                    i <= entries@.len(),
                    *value == JsonValue::Object(*entries),
                    out@ == mid + xml_of_entries(entries@.take(i as int), inner@),
                decreases entries@.len() - i,
            {
                let key = chars_of(entries[i].0.as_str());
                proof {
                    assert(decreases_to!(*value => (*value)->Object_0));
                    assert(decreases_to!(*entries => entries@));
                    assert(decreases_to!(entries@ => entries@[i as int]));
                    assert(decreases_to!(entries@[i as int] => entries@[i as int].1));
                    assert(decreases_to!(*value => entries@[i as int].1));
                }
                json_value_to_xml(&entries[i].1, &key, out, &inner);
                assert(entries@.take(i + 1).drop_last() =~= entries@.take(i as int));
                assert(entries@.take(i + 1).last() == entries@[i as int]);
                i = i + 1;
            }
            assert(entries@.take(entries@.len() as int) =~= entries@);
            push_all(out, pad);
            push_str(out, "</");
            push_all(out, tag);
            push_str(out, ">\n");
            assert(out@ =~= old(out)@ + xml_of(*value, tag@, pad@));
        },
        JsonValue::Array(items) => {
            let mut i: usize = 0;
            while i < items.len()
                invariant
                    i <= items@.len(),
                    *value == JsonValue::Array(*items),
                    out@ == old(out)@ + xml_of_items(items@.take(i as int), tag@, pad@),
                decreases items@.len() - i,
            {
                proof {
                    assert(decreases_to!(*value => (*value)->Array_0));
                    assert(decreases_to!(*items => items@));
                    assert(decreases_to!(items@ => items@[i as int]));
                    assert(decreases_to!(*value => items@[i as int]));
                }
                json_value_to_xml(&items[i], tag, out, pad);
                assert(items@.take(i + 1).drop_last() =~= items@.take(i as int));
                assert(items@.take(i + 1).last() == items@[i as int]);
                assert(out@ =~= old(out)@ + xml_of_items(items@.take(i + 1), tag@, pad@));
                i = i + 1;
            }
            assert(items@.take(items@.len() as int) =~= items@);
        },
        JsonValue::String(s) => {
            let esc = xml_escape(s.as_str());
            let text = chars_of(esc.as_str());
            push_leaf(out, pad, tag, &text);
        },
        JsonValue::Number(n) => {
            let text = chars_of(n.as_str());
            push_leaf(out, pad, tag, &text);
        },
        JsonValue::Bool(b) => {
            let text = if *b {
                chars_of("true")
            } else {
                chars_of("false")
            };
            push_leaf(out, pad, tag, &text);
        },
        JsonValue::Null => {
            push_all(out, pad);
            push_str(out, "<");
            push_all(out, tag);
            push_str(out, "/>\n");
            assert(out@ =~= old(out)@ + xml_of(*value, tag@, pad@));
        },
    }
}

/// Renders a value as an XML document: the declaration, then the value under `root`. It
/// always succeeds; `file_name` names the file for errors.
pub fn serialize_to_xml(value: &JsonValue, file_name: &str) -> (r: Result<String, crate::errors::ConversionError>)
    ensures
        r matches Ok(s) && s@ == xml_document_spec(*value),
{
    let mut out = chars_of("<?xml version=\"1.0\" encoding=\"UTF-8\"?>\n");
    let tag = chars_of("root");
    let pad: Vec<char> = Vec::new();
    assert(pad@ =~= Seq::<char>::empty());
    json_value_to_xml(value, &tag, &mut out, &pad);
    let _ = file_name;
    Ok(string_of(&out))
}

} // verus!
