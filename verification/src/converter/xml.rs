//! XML input: the tree built from the element events of a document, and the typing of leaf
//! text.
use vstd::prelude::*;
use crate::errors::ConversionError;
use crate::strings::{chars_of, push_all, push_str, str_eq, string_of, trim, trim_chars};
use quick_xml::events::Event;

verus! {

/// An event of an XML document, as the reader reports it.
#[derive(Clone, Debug, PartialEq, Eq)]
pub enum XmlEvent {
    /// An opening tag, with the element name.
    Start(String),
    /// A closing tag.
    End,
    /// A self-closing tag, with the element name.
    Empty(String),
    /// Character data: unescaped text or the content of a CDATA section.
    Text(String),
    /// Character data whose entity references could not be unescaped.
    BadText,
}

/// The view of an XML event.
pub ghost enum XmlEventView {
    Start(Seq<char>),
    End,
    Empty(Seq<char>),
    Text(Seq<char>),
    BadText,
}

impl View for XmlEvent {
    type V = XmlEventView;

    open spec fn view(&self) -> XmlEventView {
        match self {
            XmlEvent::Start(n) => XmlEventView::Start(n@),
            XmlEvent::End => XmlEventView::End,
            XmlEvent::Empty(n) => XmlEventView::Empty(n@),
            XmlEvent::Text(t) => XmlEventView::Text(t@),
            XmlEvent::BadText => XmlEventView::BadText,
        }
    }
}

/// The views of a list of events.
pub open spec fn events_view(evs: Seq<XmlEvent>) -> Seq<XmlEventView> {
    evs.map_values(|e: XmlEvent| e@)
}

/// A value read from XML: elements with children become objects keyed by child name,
/// repeated names become arrays, elements without children hold their text, self-closing
/// elements are null.
#[derive(Debug)]
pub enum XmlValue {
    Null,
    Text(String),
    Array(Vec<XmlValue>),
    Object(Vec<(String, XmlValue)>),
}

/// The mathematical form of an `XmlValue`.
#[verifier::ext_equal]
pub ghost enum XmlTree {
    Null,
    Text(Seq<char>),
    Array(Seq<XmlTree>),
    Object(Seq<(Seq<char>, XmlTree)>),
}

/// The tree of an `XmlValue`.
pub open spec fn tree_of(v: XmlValue) -> XmlTree
    decreases v,
{
    match v {
        XmlValue::Null => XmlTree::Null,
        XmlValue::Text(s) => XmlTree::Text(s@),
        XmlValue::Array(items) => XmlTree::Array(
            Seq::new(
                items@.len(),
                |i: int|
                    if 0 <= i < items@.len() {
                        tree_of(items@[i])
                    } else {
                        XmlTree::Null
                    },
            ),
        ),
        XmlValue::Object(entries) => XmlTree::Object(
            Seq::new(
                entries@.len(),
                |i: int|
                    if 0 <= i < entries@.len() {
                        (entries@[i].0@, tree_of(entries@[i].1))
                    } else {
                        (Seq::empty(), XmlTree::Null)
                    },
            ),
        ),
    }
}

/// The trees of a list of keyed values.
pub open spec fn entries_view(es: Seq<(String, XmlValue)>) -> Seq<(Seq<char>, XmlTree)> {
    Seq::new(es.len(), |i: int| (es[i].0@, tree_of(es[i].1)))
}

/// The trees of a list of values.
pub open spec fn items_view(items: Seq<XmlValue>) -> Seq<XmlTree> {
    Seq::new(items.len(), |i: int| tree_of(items[i]))
}

/// The tree of an object is the object of its entries' trees.
pub proof fn lemma_tree_object(es: Vec<(String, XmlValue)>)
    ensures
        tree_of(XmlValue::Object(es)) == XmlTree::Object(entries_view(es@)),
{
    let v = XmlValue::Object(es);
    match tree_of(v) {
        XmlTree::Object(t) => {
            assert(t =~= entries_view(es@));
        },
        _ => {},
    }
}

/// The tree of an array is the array of its items' trees.
pub proof fn lemma_tree_array(items: Vec<XmlValue>)
    ensures
        tree_of(XmlValue::Array(items)) == XmlTree::Array(items_view(items@)),
{
    let v = XmlValue::Array(items);
    match tree_of(v) {
        XmlTree::Array(t) => {
            assert(t =~= items_view(items@));
        },
        _ => {},
    }
}

/// What `key_index` finds is an index of an entry with that key.
pub proof fn lemma_key_index(es: Seq<(Seq<char>, XmlTree)>, tag: Seq<char>)
    ensures
        key_index(es, tag) matches Some(j) ==> 0 <= j < es.len() && es[j].0 == tag,
    decreases es.len(),
{
    if es.len() > 0 {
        lemma_key_index(es.drop_last(), tag);
    }
}

/// Index of the first entry with key `tag`.
pub open spec fn key_index(es: Seq<(Seq<char>, XmlTree)>, tag: Seq<char>) -> Option<int>
    decreases es.len(),
{
    if es.len() == 0 {
        None
    } else if es.last().0 == tag {
        match key_index(es.drop_last(), tag) {
            Some(j) => Some(j),
            None => Some(es.len() - 1),
        }
    } else {
        key_index(es.drop_last(), tag)
    }
}

/// Adds `val` under `tag` to an object: a new key is appended; an existing key gathers its
/// values into an array, in order. Anything but an object is left unchanged.
pub open spec fn insert_child(parent: XmlTree, tag: Seq<char>, val: XmlTree) -> XmlTree {
    match parent {
        XmlTree::Object(es) => match key_index(es, tag) {
            Some(j) => {
                let merged = match es[j].1 {
                    XmlTree::Array(items) => XmlTree::Array(items.push(val)),
                    other => XmlTree::Array(seq![other, val]),
                };
                XmlTree::Object(es.update(j, (tag, merged)))
            },
            None => XmlTree::Object(es.push((tag, val))),
        },
        _ => parent,
    }
}

/// The reading state: open elements (the outermost is the document container) and the text
/// gathered since the last tag.
pub ghost struct XmlState {
    pub stack: Seq<(Seq<char>, XmlTree)>,
    pub text: Seq<char>,
}

/// The state before the first event.
pub open spec fn initial_state() -> XmlState {
    XmlState { stack: seq![("$root"@, XmlTree::Object(Seq::empty()))], text: Seq::empty() }
}

/// Adds `val` under `tag` to the innermost open element, if there is one.
pub open spec fn add_to_top(stack: Seq<(Seq<char>, XmlTree)>, tag: Seq<char>, val: XmlTree) -> Seq<
    (Seq<char>, XmlTree),
> {
    if stack.len() > 0 {
        stack.update(stack.len() - 1, (stack.last().0, insert_child(stack.last().1, tag, val)))
    } else {
        stack
    }
}

/// One event applied to the state: an opening tag opens an empty element and drops the text;
/// a closing tag closes the innermost element, which takes the trimmed text when it has no
/// children and some text was gathered, adds it to its parent and drops the text; text is
/// gathered; a self-closing tag adds null to the innermost element.
pub open spec fn step(st: XmlState, ev: XmlEventView) -> XmlState {
    match ev {
        XmlEventView::Start(name) => XmlState {
            stack: st.stack.push((name, XmlTree::Object(Seq::empty()))),
            text: Seq::empty(),
        },
        XmlEventView::End => {
            let top = if st.stack.len() > 0 {
                st.stack.last()
            } else {
                (Seq::empty(), XmlTree::Null)
            };
            let rest = if st.stack.len() > 0 {
                st.stack.drop_last()
            } else {
                st.stack
            };
            let val = if top.1 == XmlTree::Object(Seq::empty()) && st.text.len() > 0 {
                XmlTree::Text(trim(st.text))
            } else {
                top.1
            };
            XmlState { stack: add_to_top(rest, top.0, val), text: Seq::empty() }
        },
        XmlEventView::Text(t) => XmlState { stack: st.stack, text: st.text + t },
        XmlEventView::BadText => st,
        XmlEventView::Empty(name) => XmlState {
            stack: add_to_top(st.stack, name, XmlTree::Null),
            text: st.text,
        },
    }
}

/// The state after a list of events.
pub open spec fn run(evs: Seq<XmlEventView>) -> XmlState
    decreases evs.len(),
{
    if evs.len() == 0 {
        initial_state()
    } else {
        step(run(evs.drop_last()), evs.last())
    }
}

/// The value of a document: the content of the container, or its single element's value
/// when it holds exactly one.
pub open spec fn finish(st: XmlState) -> XmlTree {
    let root = if st.stack.len() > 0 {
        st.stack.last().1
    } else {
        XmlTree::Null
    };
    match root {
        XmlTree::Object(es) => if es.len() == 1 {
            es[0].1
        } else {
            root
        },
        _ => root,
    }
}

/// The value of a document with the given events.
pub open spec fn build_spec(evs: Seq<XmlEventView>) -> XmlTree {
    finish(run(evs))
}

/// The events of an element `tag` that holds only the text `t`.
pub open spec fn leaf_events(tag: Seq<char>, t: Seq<char>) -> Seq<XmlEventView> {
    seq![XmlEventView::Start(tag), XmlEventView::Text(t), XmlEventView::End]
}

/// The events of elements `tag`, one after another, each holding only its text.
pub open spec fn leaves_events(tag: Seq<char>, texts: Seq<Seq<char>>) -> Seq<XmlEventView>
    decreases texts.len(),
{
    if texts.len() == 0 {
        Seq::empty()
    } else {
        leaves_events(tag, texts.drop_last()) + leaf_events(tag, texts.last())
    }
}

/// The trimmed texts of leaf elements, as values, in document order.
pub open spec fn leaf_texts(texts: Seq<Seq<char>>) -> Seq<XmlTree> {
    Seq::new(texts.len(), |k: int| XmlTree::Text(trim(texts[k])))
}

/// What an element holding the leaves `tag` with these texts has gathered so far.
spec fn gathered(tag: Seq<char>, texts: Seq<Seq<char>>) -> XmlTree {
    if texts.len() == 0 {
        XmlTree::Object(Seq::empty())
    } else if texts.len() == 1 {
        XmlTree::Object(seq![(tag, XmlTree::Text(trim(texts[0])))])
    } else {
        XmlTree::Object(seq![(tag, XmlTree::Array(leaf_texts(texts)))])
    }
}

/// Reading an opening tag `p` and then the leaves leaves `p` open with the leaves gathered.
proof fn lemma_run_leaves(p: Seq<char>, tag: Seq<char>, texts: Seq<Seq<char>>)
    requires
        forall|k: int| 0 <= k < texts.len() ==> (#[trigger] texts[k]).len() > 0,
    ensures
        run(seq![XmlEventView::Start(p)] + leaves_events(tag, texts)) == (XmlState {
            stack: seq![("$root"@, XmlTree::Object(Seq::empty())), (p, gathered(tag, texts))],
            text: Seq::empty(),
        }),
    decreases texts.len(),
{
    let start = seq![XmlEventView::Start(p)];
    if texts.len() == 0 {
        assert(start + leaves_events(tag, texts) =~= start);
        assert(start.drop_last() =~= Seq::<XmlEventView>::empty());
        assert(run(Seq::<XmlEventView>::empty()) == initial_state());
        assert(run(start) == step(initial_state(), XmlEventView::Start(p)));
        assert(run(start).stack =~= seq![("$root"@, XmlTree::Object(Seq::empty())), (p, gathered(tag, texts))]);
    } else {
        let init = texts.drop_last();
        let t = texts.last();
        lemma_run_leaves(p, tag, init);
        let pre = start + leaves_events(tag, init);
        let evs = start + leaves_events(tag, texts);
        assert(evs =~= pre + leaf_events(tag, t));
        assert(evs.drop_last() =~= pre.push(XmlEventView::Start(tag)).push(XmlEventView::Text(t)));
        assert(evs.drop_last().drop_last() =~= pre.push(XmlEventView::Start(tag)));
        assert(evs.drop_last().drop_last().drop_last() =~= pre);
        let s0 = run(pre);
        let s1 = step(s0, XmlEventView::Start(tag));
        let s2 = step(s1, XmlEventView::Text(t));
        let s3 = step(s2, XmlEventView::End);
        let e1 = pre.push(XmlEventView::Start(tag));
        let e2 = e1.push(XmlEventView::Text(t));
        assert(e1.drop_last() =~= pre);
        assert(e2.drop_last() =~= e1);
        assert(run(e1) == s1);
        assert(run(e2) == s2);
        assert(evs.drop_last() == e2);
        assert(evs.last() == XmlEventView::End);
        assert(run(evs) == s3);
        assert(s2.text =~= t);
        assert(s2.stack.drop_last() =~= s0.stack);
        let val = XmlTree::Text(trim(t));
        let g = gathered(tag, init);
        let ins = insert_child(g, tag, val);
        assert(s3.stack =~= seq![("$root"@, XmlTree::Object(Seq::empty())), (p, ins)]);
        if init.len() == 0 {
            assert(ins == gathered(tag, texts)) by {
                assert(seq![(tag, val)] =~= Seq::<(Seq<char>, XmlTree)>::empty().push((tag, val)));
                assert(texts[0] == t);
            }
        } else {
            let es = seq![(tag, if init.len() == 1 { XmlTree::Text(trim(init[0])) } else { XmlTree::Array(leaf_texts(init)) })];
            assert(es.drop_last() =~= Seq::<(Seq<char>, XmlTree)>::empty());
            assert(key_index(Seq::<(Seq<char>, XmlTree)>::empty(), tag) is None);
            assert(key_index(es, tag) == Some(0int));
            assert(g == XmlTree::Object(es));
            if init.len() == 1 {
                assert(seq![XmlTree::Text(trim(init[0])), val] =~= leaf_texts(texts));
            } else {
                assert(leaf_texts(init).push(val) =~= leaf_texts(texts));
            }
            let arr = XmlTree::Array(leaf_texts(texts));
            assert(ins == XmlTree::Object(es.update(0, (tag, arr))));
            assert(es.update(0, (tag, arr)) =~= seq![(tag, arr)]);
            assert(ins == gathered(tag, texts));
        }
    }
}

/// An element holding two or more leaf elements of one name, and nothing else, reads as an
/// object with that single name, whose value is the array of the leaves' trimmed texts, one
/// item per leaf, in document order.
pub proof fn law_repeated_leaves_become_one_array(p: Seq<char>, tag: Seq<char>, texts: Seq<Seq<char>>)
    requires
        texts.len() >= 2,
        forall|k: int| 0 <= k < texts.len() ==> (#[trigger] texts[k]).len() > 0,
    ensures
        build_spec(seq![XmlEventView::Start(p)] + leaves_events(tag, texts) + seq![XmlEventView::End])
            == XmlTree::Object(seq![(tag, XmlTree::Array(leaf_texts(texts)))]),
{
    lemma_run_leaves(p, tag, texts);
    let pre = seq![XmlEventView::Start(p)] + leaves_events(tag, texts);
    let evs = pre + seq![XmlEventView::End];
    assert(evs.drop_last() =~= pre);
    let g = gathered(tag, texts);
    let st = run(evs);
    assert(st.stack =~= seq![("$root"@, XmlTree::Object(seq![(p, g)]))]) by {
        let root: Seq<(Seq<char>, XmlTree)> = Seq::empty();
        assert(root.push((p, g)) =~= seq![(p, g)]);
        assert(run(pre).stack.drop_last() =~= seq![("$root"@, XmlTree::Object(Seq::empty()))]);
    }
}

/// The trees of an open-element stack.
pub open spec fn stack_view(stack: Seq<(String, XmlValue)>) -> Seq<(Seq<char>, XmlTree)> {
    entries_view(stack)
}

/// Index of the first entry with key `tag`.
fn key_index_exec(es: &Vec<(String, XmlValue)>, tag: &String) -> (r: Option<usize>)
    ensures
        match r {
            Some(j) => key_index(entries_view(es@), tag@) == Some(j as int),
            None => key_index(entries_view(es@), tag@) is None,
        },
{
    let mut i: usize = 0;
    while i < es.len()
        invariant
            i <= es@.len(),
            key_index(entries_view(es@.take(i as int)), tag@) is None,
        decreases es@.len() - i,
    {
        proof {
            assert(entries_view(es@.take(i + 1)).drop_last() =~= entries_view(es@.take(i as int)));
        }
        if es[i].0 == *tag {
            proof {
                lemma_key_index_prefix(es@, i as int, tag@);
            }
            return Some(i);
        }
        i = i + 1;
    }
    assert(es@.take(es@.len() as int) =~= es@);
    None
}

/// When no entry before `i` has key `tag` and entry `i` has it, `key_index` finds `i`.
proof fn lemma_key_index_prefix(es: Seq<(String, XmlValue)>, i: int, tag: Seq<char>)
    requires
        0 <= i < es.len(),
        key_index(entries_view(es.take(i)), tag) is None,
        es[i].0@ == tag,
    ensures
        key_index(entries_view(es), tag) == Some(i),
    decreases es.len() - i,
{
    let k = es.len() - 1;
    if i == k {
        assert(entries_view(es).drop_last() =~= entries_view(es.take(i)));
    } else {
        assert(es.drop_last().take(i) =~= es.take(i));
        lemma_key_index_prefix(es.drop_last(), i, tag);
        assert(entries_view(es).drop_last() =~= entries_view(es.drop_last()));
    }
}

/// Adds `val` under `tag` to `parent` (see `insert_child`).
fn insert_child_exec(parent: XmlValue, tag: String, val: XmlValue) -> (r: XmlValue)
    ensures
        tree_of(r) == insert_child(tree_of(parent), tag@, tree_of(val)),
{
    match parent {
        XmlValue::Object(mut es) => {
            let ghost old_es = es@;
            proof {
                lemma_tree_object(es);
            }
            match key_index_exec(&es, &tag) {
                Some(j) => {
                    proof {
                        lemma_key_index(entries_view(old_es), tag@);
                    }
                    let (k, ex) = es.remove(j);
                    let ghost ex_tree = tree_of(ex);
                    assert(ex_tree == entries_view(old_es)[j as int].1);
                    let merged = match ex {
                        XmlValue::Array(mut items) => {
                            let ghost old_items = items@;
                            proof {
                                lemma_tree_array(items);
                            }
                            items.push(val);
                            proof {
                                lemma_tree_array(items);
                                assert(items_view(items@) =~= items_view(old_items).push(tree_of(val)));
                            }
                            XmlValue::Array(items)
                        },
                        other => {
                            let ghost vt = tree_of(val);
                            let pair = vec![other, val];
                            proof {
                                lemma_tree_array(pair);
                                assert(items_view(pair@) =~= seq![ex_tree, vt]);
                            }
                            XmlValue::Array(pair)
                        },
                    };
                    let ghost merged_tree = tree_of(merged);
                    es.insert(j, (tag, merged));
                    proof {
                        lemma_tree_object(es);
                        assert(entries_view(es@) =~= entries_view(old_es).update(
                            j as int,
                            (tag@, merged_tree),
                        ));
                    }
                    XmlValue::Object(es)
                },
                None => {
                    let ghost vt = tree_of(val);
                    es.push((tag, val));
                    proof {
                        lemma_tree_object(es);
                        assert(entries_view(es@) =~= entries_view(old_es).push((tag@, vt)));
                    }
                    XmlValue::Object(es)
                },
            }
        },
        other => other,
    }
}

/// Adds `val` under `tag` to the innermost open element (see `add_to_top`).
fn add_to_top_exec(stack: &mut Vec<(String, XmlValue)>, tag: String, val: XmlValue)
    ensures
        stack_view(final(stack)@) == add_to_top(stack_view(old(stack)@), tag@, tree_of(val)),
{
    let ghost old_stack = stack@;
    match stack.pop() {
        Some((ptag, parent)) => {
            let np = insert_child_exec(parent, tag, val);
            stack.push((ptag, np));
            proof {
                assert(stack_view(stack@) =~= add_to_top(stack_view(old_stack), tag@, tree_of(val)));
            }
        },
        None => {
            assert(stack_view(stack@) =~= add_to_top(stack_view(old_stack), tag@, tree_of(val)));
        },
    }
}

/// Whether a value is an object without entries.
fn is_empty_object(v: &XmlValue) -> (r: bool)
    ensures
        r == (tree_of(*v) == XmlTree::Object(Seq::empty())),
{
    match v {
        XmlValue::Object(es) => {
            proof {
                lemma_tree_object(*es);
            }
            if es.len() == 0 {
                assert(entries_view(es@) =~= Seq::empty());
                true
            } else {
                proof {
                    if tree_of(*v) == XmlTree::Object(Seq::empty()) {
                        assert(entries_view(es@).len() == 0);
                    }
                }
                false
            }
        },
        XmlValue::Null => false,
        XmlValue::Text(_) => false,
        XmlValue::Array(_) => false,
    }
}

/// An object without entries.
fn empty_object() -> (r: XmlValue)
    ensures
        tree_of(r) == XmlTree::Object(Seq::empty()),
{
    let es: Vec<(String, XmlValue)> = Vec::new();
    proof {
        lemma_tree_object(es);
        assert(entries_view(es@) =~= Seq::empty());
    }
    XmlValue::Object(es)
}

/// Builds the value of a document from its events (see `build_spec`).
pub fn build_xml_value(events: &Vec<XmlEvent>) -> (r: XmlValue)
    ensures
        tree_of(r) == build_spec(events_view(events@)),
{
    let mut stack: Vec<(String, XmlValue)> = Vec::new();
    stack.push(("$root".to_owned(), empty_object()));
    let mut text: Vec<char> = Vec::new();
    proof {
        reveal_strlit("$root");
        assert(stack_view(stack@) =~= initial_state().stack);
    }
    let mut i: usize = 0;
    while i < events.len()
        invariant
            i <= events@.len(),
            stack_view(stack@) == run(events_view(events@.take(i as int))).stack,
            text@ == run(events_view(events@.take(i as int))).text,
        decreases events@.len() - i,
    {
        proof {
            assert(events_view(events@.take(i + 1)).drop_last() =~= events_view(
                events@.take(i as int),
            ));
            assert(events_view(events@.take(i + 1)).last() == events@[i as int]@);
        }
        match &events[i] {
            XmlEvent::Start(name) => {
                stack.push((name.clone(), empty_object()));
                text = Vec::new();
                proof {
                    let ghost st = run(events_view(events@.take(i as int)));
                    assert(stack_view(stack@) =~= st.stack.push((name@, XmlTree::Object(Seq::empty()))));
                    assert(text@ =~= Seq::<char>::empty());
                }
            },
            XmlEvent::End => {
                let ghost before = stack_view(stack@);
                let (tag, val) = match stack.pop() {
                    Some(p) => p,
                    None => (String::new(), XmlValue::Null),
                };
                proof {
                    if before.len() > 0 {
                        assert(stack_view(stack@) =~= before.drop_last());
                    } else {
                        assert(stack_view(stack@) =~= before);
                    }
                }
                let val2 = if is_empty_object(&val) && text.len() > 0 {
                    let t = trim_chars(&text);
                    XmlValue::Text(string_of(&t))
                } else {
                    val
                };
                add_to_top_exec(&mut stack, tag, val2);
                text = Vec::new();
                assert(text@ =~= Seq::<char>::empty());
            },
            XmlEvent::Text(t) => {
                let tv = chars_of(t.as_str());
                push_all(&mut text, &tv);
            },
            XmlEvent::BadText => {},
            XmlEvent::Empty(name) => {
                add_to_top_exec(&mut stack, name.clone(), XmlValue::Null);
            },
        }
        i = i + 1;
    }
    assert(events@.take(events@.len() as int) =~= events@);
    let ghost st_stack = stack_view(stack@);
    let (_tag, root) = match stack.pop() {
        Some(p) => p,
        None => (String::new(), XmlValue::Null),
    };
    proof {
        if st_stack.len() > 0 {
            assert(tree_of(root) == st_stack.last().1);
        }
    }
    match root {
        XmlValue::Object(mut es) => {
            if es.len() == 1 {
                let (_k, v) = es.remove(0);
                proof {
                    assert(tree_of(XmlValue::Object(es)) == tree_of(XmlValue::Object(es)));
                }
                v
            } else {
                XmlValue::Object(es)
            }
        },
        other => other,
    }
}


// ---------------------------------------------------------------------------
// Reading a document
// ---------------------------------------------------------------------------

#[verifier::external_type_specification]
#[verifier::external_body]
#[verifier::reject_recursive_types(R)]
pub struct ExXmlReader<R>(quick_xml::Reader<R>);

/// What the XML reader reports for a document, event by event up to the end: an element or
/// text event, `None` for an event that carries nothing kept (a comment, a declaration, a
/// processing instruction, a doctype), or the message of an error.
pub uninterp spec fn xml_events_of(content: Seq<char>) -> Seq<
    Result<Option<XmlEventView>, Seq<char>>,
>;

/// The events that an XML reader has still to report before the end.
pub uninterp spec fn xml_events_left(reader: quick_xml::Reader<&[u8]>) -> Seq<
    Result<Option<XmlEventView>, Seq<char>>,
>;

/// A quick-xml reader over `content` (`Reader::from_str`, default settings).
#[verifier::external_body]
fn xml_reader(content: &str) -> (r: quick_xml::Reader<&[u8]>)
    ensures
        xml_events_left(r) == xml_events_of(content@),
{
    quick_xml::Reader::from_str(content)
}

/// The view of a reported event.
pub open spec fn reported_view(r: Result<Option<XmlEvent>, String>) -> Result<
    Option<XmlEventView>,
    Seq<char>,
> {
    match r {
        Ok(Some(e)) => Ok(Some(e@)),
        Ok(None) => Ok(None),
        Err(m) => Err(m@),
    }
}

/// The next event of the reader (`Reader::read_event`); `None` at the end. Element names are
/// decoded lossily, text is unescaped (`BadText` where unescaping fails) and CDATA gives its
/// content as text.
#[verifier::external_body]
fn next_xml_event(reader: &mut quick_xml::Reader<&[u8]>) -> (r: Option<
    Result<Option<XmlEvent>, String>,
>)
    ensures
        xml_events_left(*old(reader)).len() == 0 ==> r is None && xml_events_left(*final(reader))
            == xml_events_left(*old(reader)),
        xml_events_left(*old(reader)).len() > 0 ==> r is Some && reported_view(r->0)
            == xml_events_left(*old(reader))[0] && xml_events_left(*final(reader))
            == xml_events_left(*old(reader)).drop_first(),
{
    let lossy = |b: &[u8]| String::from_utf8_lossy(b).into_owned();
    match reader.read_event() {
        Ok(Event::Eof) => None,
        Ok(event) => Some(Ok(match event {
            Event::Start(e) => Some(XmlEvent::Start(lossy(e.name().0))),
            Event::End(_) => Some(XmlEvent::End),
            Event::Empty(e) => Some(XmlEvent::Empty(lossy(e.name().0))),
            Event::Text(e) => Some(e.unescape().map_or(XmlEvent::BadText, |t| XmlEvent::Text(t.into()))),
            Event::CData(e) => Some(XmlEvent::Text(lossy(&e))),
            _ => None,
        })),
        Err(e) => Some(Err(e.to_string())),
    }
}

/// The kept events of a report, in order, up to its first error, which is the outcome if
/// there is one.
pub open spec fn xml_kept_events(evs: Seq<Result<Option<XmlEventView>, Seq<char>>>) -> Result<
    Seq<XmlEventView>,
    Seq<char>,
>
    decreases evs.len(),
{
    if evs.len() == 0 {
        Ok(Seq::empty())
    } else {
        match evs[0] {
            Err(m) => Err(m),
            Ok(o) => match xml_kept_events(evs.drop_first()) {
                Err(m) => Err(m),
                Ok(rest) => Ok(
                    match o {
                        Some(e) => seq![e] + rest,
                        None => rest,
                    },
                ),
            },
        }
    }
}

/// Reads the events of a document (see `xml_kept_events`).
fn read_xml_events(content: &str) -> (r: Result<Vec<XmlEvent>, String>)
    ensures
        match xml_kept_events(xml_events_of(content@)) {
            Ok(evs) => r matches Ok(v) && events_view(v@) == evs,
            Err(m) => r matches Err(e) && e@ == m,
        },
{
    let ghost all = xml_events_of(content@);
    let mut reader = xml_reader(content);
    let mut events: Vec<XmlEvent> = Vec::new();
    let ghost mut i: int = 0;
    loop
        invariant
            0 <= i <= all.len(),
            all == xml_events_of(content@),
            xml_events_left(reader) == all.skip(i),
            xml_kept_events(all) == (match xml_kept_events(all.skip(i)) {
                Ok(rest) => Ok(events_view(events@) + rest),
                Err(m) => Err::<Seq<XmlEventView>, Seq<char>>(m),
            }),
        decreases all.len() - i,
    {
        let ghost left = all.skip(i);
        match next_xml_event(&mut reader) {
            None => {
                assert(left.len() == 0);
                assert(events_view(events@) + Seq::<XmlEventView>::empty() =~= events_view(events@));
                return Ok(events);
            },
            Some(Err(m)) => {
                assert(left[0] == Err::<Option<XmlEventView>, Seq<char>>(m@));
                return Err(m);
            },
            Some(Ok(o)) => {
                assert(left.drop_first() =~= all.skip(i + 1));
                let ghost before = events@;
                match o {
                    Some(e) => {
                        events.push(e);
                        assert(events_view(events@) =~= events_view(before) + seq![e@]);
                        assert forall|rest: Seq<XmlEventView>|
                            events_view(before) + (seq![e@] + rest) =~= events_view(events@)
                                + rest by {}
                    },
                    None => {},
                }
                proof {
                    i = i + 1;
                }
            },
        }
    }
}

/// Reads an XML document into a value (see `build_spec`); a reader error becomes a parse
/// error naming the file, without a line number.
pub fn parse_xml_to_json(content: &str, file_name: &str) -> (r: Result<XmlValue, ConversionError>)
    ensures
        match xml_kept_events(xml_events_of(content@)) {
            Ok(evs) => r matches Ok(v) && tree_of(v) == build_spec(evs),
            Err(m) => r matches Err(ConversionError::ParseError { file_name: f, line, detail })
                && f@ == file_name@ && line is None && detail@ == "XML parse error: "@ + m,
        },
{
    match read_xml_events(content) {
        Ok(events) => Ok(build_xml_value(&events)),
        Err(m) => {
            let mut d = chars_of("XML parse error: ");
            push_str(&mut d, m.as_str());
            Err(ConversionError::ParseError {
                file_name: file_name.to_owned(),
                line: None,
                detail: string_of(&d),
            })
        },
    }
}

// ---------------------------------------------------------------------------
// Typing leaf text
// ---------------------------------------------------------------------------

/// An ASCII decimal digit.
pub open spec fn is_digit(c: char) -> bool {
    '0' <= c && c <= '9'
}

/// The value of a string of decimal digits.
pub open spec fn digits_value(d: Seq<char>) -> nat
    decreases d.len(),
{
    if d.len() == 0 {
        0
    } else {
        digits_value(d.drop_last()) * 10 + ((d.last() as nat) - ('0' as nat)) as nat
    }
}

/// The text after an optional leading sign.
pub open spec fn unsigned_part(s: Seq<char>) -> Seq<char> {
    if s.len() > 0 && (s[0] == '-' || s[0] == '+') {
        s.skip(1)
    } else {
        s
    }
}

/// Every character is a decimal digit.
pub open spec fn all_digits(d: Seq<char>) -> bool {
    forall|i: int| 0 <= i < d.len() ==> is_digit(#[trigger] d[i])
}

/// The integer std's `str::parse::<i64>` reads: an optional `+` or `-`, one or more decimal
/// digits, and a value within the `i64` range.
pub open spec fn parse_i64_spec(s: Seq<char>) -> Option<int> {
    let neg = s.len() > 0 && s[0] == '-';
    let d = unsigned_part(s);
    if d.len() == 0 || !all_digits(d) {
        None
    } else {
        let v: int = if neg {
            -(digits_value(d) as int)
        } else {
            digits_value(d) as int
        };
        if i64::MIN <= v && v <= i64::MAX {
            Some(v)
        } else {
            None
        }
    }
}

/// `digits_value` does not decrease as digits are added.
proof fn lemma_digits_grow(d: Seq<char>, i: int)
    requires
        0 <= i <= d.len(),
        forall|k: int| 0 <= k < d.len() ==> is_digit(#[trigger] d[k]),
    ensures
        digits_value(d.take(i)) <= digits_value(d),
    decreases d.len() - i,
{
    if i < d.len() {
        lemma_digits_grow(d, i + 1);
        assert(d.take(i + 1).drop_last() =~= d.take(i));
    } else {
        assert(d.take(i) =~= d);
    }
}

/// Parses a decimal `i64` as std's `str::parse::<i64>` does (see `parse_i64_spec`).
pub fn parse_i64(s: &str) -> (r: Option<i64>)
    ensures
        match r {
            Some(n) => parse_i64_spec(s@) == Some(n as int),
            None => parse_i64_spec(s@) is None,
        },
{
    let v = chars_of(s);
    let neg = v.len() > 0 && v[0] == '-';
    let start: usize = if v.len() > 0 && (v[0] == '-' || v[0] == '+') {
        1
    } else {
        0
    };
    let ghost d = if s@.len() > 0 && (s@[0] == '-' || s@[0] == '+') {
        s@.skip(1)
    } else {
        s@
    };
    assert(d =~= v@.skip(start as int));
    if start >= v.len() {
        assert(d.len() == 0);
        assert(v@ == s@);
        assert(parse_i64_spec(s@) is None);
        return None;
    }
    let limit: u128 = 9223372036854775808;
    let mut acc: u128 = 0;
    let mut too_big = false;
    let mut i: usize = start;
    while i < v.len()
        invariant
            start <= i <= v@.len(),
            d == v@.skip(start as int),
            v@ == s@,
            d.len() > 0,
            d == unsigned_part(s@),
            neg == (s@.len() > 0 && s@[0] == '-'),
            forall|k: int| 0 <= k < i - start ==> is_digit(#[trigger] d[k]),
            !too_big ==> acc == digits_value(d.take(i - start)) && acc <= limit,
            too_big ==> digits_value(d.take(i - start)) > limit,
            limit == 9223372036854775808,
        decreases v@.len() - i,
    {
        let c = v[i];
        if !('0' <= c && c <= '9') {
            assert(d[i - start] == c);
            assert(!is_digit(d[i - start]));
            return None;
        }
        proof {
            assert(d.take(i - start + 1).drop_last() =~= d.take(i - start));
            assert(d.take(i - start + 1).last() == c);
        }
        if !too_big {
            let digit = (c as u32 - '0' as u32) as u128;
            acc = acc * 10 + digit;
            if acc > limit {
                too_big = true;
            }
        } else {
            proof {
                let a = digits_value(d.take(i - start));
                assert(digits_value(d.take(i - start + 1)) >= a * 10);
            }
        }
        i = i + 1;
    }
    assert(d.take(v@.len() - start) =~= d);
    if too_big {
        return None;
    }
    if neg {
        if acc <= limit {
            proof {
                assert(-(acc as int) >= i64::MIN);
            }
            let n: i64 = if acc == limit {
                i64::MIN
            } else {
                -(acc as i64)
            };
            Some(n)
        } else {
            None
        }
    } else {
        if acc < limit {
            Some(acc as i64)
        } else {
            None
        }
    }
}

/// How the trimmed text of a leaf element is typed: `true`, `false`, `null`, an `i64`, or
/// something else (which may still read as a floating-point number).
#[derive(Clone, Copy, Debug, PartialEq, Eq)]
pub enum XmlScalar {
    Bool(bool),
    Null,
    Integer(i64),
    Other,
}

/// The typing of leaf text.
pub open spec fn classify_xml_text_spec(t: Seq<char>) -> XmlScalar {
    if t == "true"@ {
        XmlScalar::Bool(true)
    } else if t == "false"@ {
        XmlScalar::Bool(false)
    } else if t == "null"@ {
        XmlScalar::Null
    } else {
        match parse_i64_spec(t) {
            Some(n) => XmlScalar::Integer(n as i64),
            None => XmlScalar::Other,
        }
    }
}

/// Types the trimmed text of a leaf element (see `classify_xml_text_spec`).
pub fn classify_xml_text(text: &str) -> (r: XmlScalar)
    ensures
        r == classify_xml_text_spec(text@),
{
    if str_eq(text, "true") {
        XmlScalar::Bool(true)
    } else if str_eq(text, "false") {
        XmlScalar::Bool(false)
    } else if str_eq(text, "null") {
        XmlScalar::Null
    } else {
        match parse_i64(text) {
            Some(n) => XmlScalar::Integer(n),
            None => XmlScalar::Other,
        }
    }
}

} // verus!
