//! A plain-value XML document model.
//!
//! The outside parser turns a text into an element tree; a trusted walk
//! serialises that tree into a flat stream of events, and the verified
//! builder below turns the stream into an arena of nodes in document
//! (pre-order) order, each pointing back at its parent. Everything that
//! reads the document afterwards is verified against this arena.
use vstd::prelude::*;

verus! {

/// One event of a pre-order walk over an element tree: `Start` opens an
/// element (name, attributes, concatenated inner text), `End` closes the
/// most recently opened one.
pub enum XmlEvent {
    Start { name: String, attrs: Vec<(String, String)>, text: String },
    End,
}

/// One element: nodes are stored in document (pre-order) order; `parent`
/// points backwards, only the root (index 0) has none. An element with no
/// text nodes carries the empty string.
pub struct XmlNode {
    pub name: String,
    pub attrs: Vec<(String, String)>,
    pub text: String,
    pub parent: Option<usize>,
}

/// An XML document as an arena of nodes.
pub struct XmlDoc {
    pub nodes: Vec<XmlNode>,
}

impl XmlDoc {
    /// Every node's parent stands strictly before it, and only the first
    /// node is parentless.
    pub open spec fn wf(&self) -> bool {
        forall|i: int|
            0 <= i < self.nodes@.len() ==> match (#[trigger] self.nodes@[i]).parent {
                Option::None => i == 0,
                Option::Some(p) => (p as int) < i,
            }
    }

    /// Whether node `c` is a direct child of node `p`.
    pub open spec fn spec_is_child(&self, c: int, p: int) -> bool {
        match self.nodes@[c].parent {
            Option::None => false,
            Option::Some(q) => q as int == p,
        }
    }

    /// Build the arena from an event stream: exactly the document the
    /// stream describes, `None` on an unbalanced stream or one that does
    /// not describe exactly one root element.
    pub fn from_events(events: Vec<XmlEvent>) -> (r: Option<XmlDoc>)
        ensures
            r is Some <==> spec_doc_of(events_view(events@)) is Some,
            r matches Some(doc) ==> doc.wf() && Some(doc_view(doc)) == spec_doc_of(
                events_view(events@),
            ),
    {
        let ghost ev0 = events_view(events@);
        let mut rest = events;
        let mut nodes: Vec<XmlNode> = Vec::new();
        let mut stack: Vec<usize> = Vec::new();
        let mut failed = false;
        proof {
            assert(nodes_view(nodes@) =~= Seq::<XmlNodeView>::empty());
            assert(stack_view(stack@) =~= Seq::<int>::empty());
            assert(events_view(rest@) =~= ev0.subrange(0, ev0.len() as int));
        }
        while !failed && rest.len() > 0
            invariant
                failed ==> spec_doc_of(ev0) is None,
                !failed ==> rest@.len() <= ev0.len(),
                !failed ==> events_view(rest@) == ev0.subrange(
                    ev0.len() - rest@.len(),
                    ev0.len() as int,
                ),
                !failed ==> spec_build(ev0, 0, spec_build_init()) == spec_build(
                    ev0,
                    ev0.len() - rest@.len(),
                    BuildState { nodes: nodes_view(nodes@), stack: stack_view(stack@), ok: true },
                ),
                forall|k: int| 0 <= k < stack@.len() ==> (#[trigger] stack@[k]) < nodes@.len(),
                forall|i: int|
                    0 <= i < nodes@.len() ==> match (#[trigger] nodes@[i]).parent {
                        Option::None => i == 0,
                        Option::Some(p) => (p as int) < i,
                    },
            decreases rest@.len(),
        {
            let ghost idx = ev0.len() - rest@.len();
            let ghost pre = BuildState {
                nodes: nodes_view(nodes@),
                stack: stack_view(stack@),
                ok: true,
            };
            let ghost old_events = rest@;
            let ev = rest.remove(0);
            proof {
                assert(event_view(ev) == events_view(old_events)[0]);
                assert(event_view(ev) == ev0[idx]);
                assert(events_view(rest@) =~= ev0.subrange(idx + 1, ev0.len() as int)) by {
                    assert forall|j: int| 0 <= j < rest@.len() implies events_view(rest@)[j]
                        == ev0[idx + 1 + j] by {
                        assert(rest@[j] == old_events[j + 1]);
                        assert(events_view(old_events)[j + 1] == event_view(old_events[j + 1]));
                    }
                }
            }
            match ev {
                XmlEvent::Start { name, attrs, text } => {
                    let parent: Option<usize> = if stack.len() > 0 {
                        Some(stack[stack.len() - 1])
                    } else {
                        None
                    };
                    if parent.is_none() && nodes.len() > 0 {
                        // a second root element spoils the stream for good
                        proof {
                            let stepped = spec_build_step(pre, ev0[idx]);
                            assert(!stepped.ok);
                            lemma_build_stuck(ev0, idx + 1, stepped);
                            assert(spec_build(ev0, idx, pre) == stepped);
                            assert(!spec_build(ev0, 0, spec_build_init()).ok);
                        }
                        failed = true;
                    } else {
                        let idx_node = nodes.len();
                        nodes.push(XmlNode { name, attrs, text, parent });
                        stack.push(idx_node);
                        proof {
                            let stepped = spec_build_step(pre, ev0[idx]);
                            assert(nodes_view(nodes@) =~= stepped.nodes);
                            assert(stack_view(stack@) =~= stepped.stack);
                        }
                    }
                },
                XmlEvent::End => {
                    match stack.pop() {
                        Some(_) => {
                            proof {
                                let stepped = spec_build_step(pre, ev0[idx]);
                                assert(stack_view(stack@) =~= stepped.stack);
                                assert(nodes_view(nodes@) =~= stepped.nodes);
                            }
                        },
                        None => {
                            proof {
                                let stepped = spec_build_step(pre, ev0[idx]);
                                assert(!stepped.ok);
                                lemma_build_stuck(ev0, idx + 1, stepped);
                                assert(spec_build(ev0, idx, pre) == stepped);
                                assert(!spec_build(ev0, 0, spec_build_init()).ok);
                            }
                            failed = true;
                        },
                    }
                },
            }
        }
        if failed {
            return None;
        }
        proof {
            assert(spec_build(ev0, 0, spec_build_init()) == BuildState {
                nodes: nodes_view(nodes@),
                stack: stack_view(stack@),
                ok: true,
            });
            assert(stack_view(stack@).len() == stack@.len());
            assert(nodes_view(nodes@).len() == nodes@.len());
        }
        if stack.len() > 0 || nodes.len() == 0 {
            return None;
        }
        let doc = XmlDoc { nodes };
        proof {
            assert(doc_view(doc) =~= spec_build(ev0, 0, spec_build_init()).nodes);
        }
        Some(doc)
    }
}


/// Ghost image of one event.
pub ghost struct XmlEventView {
    pub start: bool,
    pub name: Seq<char>,
    pub attrs: Seq<(Seq<char>, Seq<char>)>,
    pub text: Seq<char>,
}

/// The views of an attribute list, element-wise.
pub open spec fn attrs_view(v: Seq<(String, String)>) -> Seq<(Seq<char>, Seq<char>)> {
    Seq::new(v.len(), |i: int| (v[i].0@, v[i].1@))
}

pub open spec fn event_view(e: XmlEvent) -> XmlEventView {
    match e {
        XmlEvent::Start { name, attrs, text } => XmlEventView {
            start: true,
            name: name@,
            attrs: attrs_view(attrs@),
            text: text@,
        },
        XmlEvent::End => XmlEventView {
            start: false,
            name: Seq::empty(),
            attrs: Seq::empty(),
            text: Seq::empty(),
        },
    }
}

/// The views of an event stream, element-wise.
pub open spec fn events_view(v: Seq<XmlEvent>) -> Seq<XmlEventView> {
    Seq::new(v.len(), |i: int| event_view(v[i]))
}

/// Ghost image of one node.
pub ghost struct XmlNodeView {
    pub name: Seq<char>,
    pub attrs: Seq<(Seq<char>, Seq<char>)>,
    pub text: Seq<char>,
    pub parent: Option<int>,
}

pub open spec fn node_view(n: XmlNode) -> XmlNodeView {
    XmlNodeView {
        name: n.name@,
        attrs: attrs_view(n.attrs@),
        text: n.text@,
        parent: match n.parent {
            Option::Some(p) => Some(p as int),
            Option::None => None,
        },
    }
}

/// The views of a node list, element-wise.
pub open spec fn nodes_view(v: Seq<XmlNode>) -> Seq<XmlNodeView> {
    Seq::new(v.len(), |i: int| node_view(v[i]))
}

/// The document as a sequence of node views.
pub open spec fn doc_view(d: XmlDoc) -> Seq<XmlNodeView> {
    nodes_view(d.nodes@)
}

/// The open-element stack as mathematical integers.
pub open spec fn stack_view(v: Seq<usize>) -> Seq<int> {
    Seq::new(v.len(), |i: int| v[i] as int)
}

/// The arena builder's state: the nodes built so far, the stack of open
/// elements, and whether the stream has stayed well-shaped.
pub ghost struct BuildState {
    pub nodes: Seq<XmlNodeView>,
    pub stack: Seq<int>,
    pub ok: bool,
}

/// One event applied to the builder's state: a misplaced event (a second
/// root, or an end without an opener) spoils the state for good.
pub open spec fn spec_build_step(st: BuildState, e: XmlEventView) -> BuildState {
    if !st.ok {
        st
    } else if e.start {
        if st.stack.len() == 0 && st.nodes.len() > 0 {
            BuildState { nodes: st.nodes, stack: st.stack, ok: false }
        } else {
            let parent: Option<int> = if st.stack.len() > 0 {
                Some(st.stack.last())
            } else {
                None
            };
            BuildState {
                nodes: st.nodes.push(
                    XmlNodeView { name: e.name, attrs: e.attrs, text: e.text, parent },
                ),
                stack: st.stack.push(st.nodes.len() as int),
                ok: true,
            }
        }
    } else {
        if st.stack.len() == 0 {
            BuildState { nodes: st.nodes, stack: st.stack, ok: false }
        } else {
            BuildState { nodes: st.nodes, stack: st.stack.drop_last(), ok: true }
        }
    }
}

pub open spec fn spec_build(events: Seq<XmlEventView>, i: int, st: BuildState) -> BuildState
    decreases events.len() - i,
{
    if i < 0 || i >= events.len() {
        st
    } else {
        spec_build(events, i + 1, spec_build_step(st, events[i]))
    }
}

pub open spec fn spec_build_init() -> BuildState {
    BuildState { nodes: Seq::empty(), stack: Seq::empty(), ok: true }
}

/// The document an event stream describes: `None` unless the stream is
/// balanced and describes exactly one root element.
pub open spec fn spec_doc_of(events: Seq<XmlEventView>) -> Option<Seq<XmlNodeView>> {
    let st = spec_build(events, 0, spec_build_init());
    if st.ok && st.stack.len() == 0 && st.nodes.len() > 0 {
        Some(st.nodes)
    } else {
        None
    }
}

/// A spoiled builder state never recovers.
proof fn lemma_build_stuck(events: Seq<XmlEventView>, i: int, st: BuildState)
    requires
        !st.ok,
    ensures
        spec_build(events, i, st) == st,
    decreases events.len() - i,
{
    if i < 0 || i >= events.len() {
    } else {
        lemma_build_stuck(events, i + 1, st);
    }
}

/// First value among `attrs` from index `i` on whose key is `name`.
pub open spec fn spec_attr_from(
    attrs: Seq<(String, String)>,
    name: Seq<char>,
    i: int,
) -> Option<Seq<char>>
    decreases attrs.len() - i,
{
    if i < 0 || i >= attrs.len() {
        None
    } else if attrs[i].0@ == name {
        Some(attrs[i].1@)
    } else {
        spec_attr_from(attrs, name, i + 1)
    }
}

/// The value of the attribute called `name`, if the node has one.
pub open spec fn spec_attr(node: XmlNode, name: Seq<char>) -> Option<Seq<char>> {
    spec_attr_from(node.attrs@, name, 0)
}

/// Look an attribute up by name.
pub fn get_attr(node: &XmlNode, name: &str) -> (r: Option<String>)
    ensures
        match r {
            Some(v) => spec_attr(*node, name@) == Some(v@),
            None => spec_attr(*node, name@) is None,
        },
{
    let mut i: usize = 0;
    while i < node.attrs.len()
        invariant
            i <= node.attrs@.len(),
            spec_attr(*node, name@) == spec_attr_from(node.attrs@, name@, i as int),
        decreases node.attrs@.len() - i,
    {
        if str_eq(node.attrs[i].0.as_str(), name) {
            let v = node.attrs[i].1.clone();
            return Some(v);
        }
        i = i + 1;
    }
    None
}

/// Character-wise equality of two string slices.
pub fn str_eq(a: &str, b: &str) -> (r: bool)
    ensures
        r == (a@ == b@),
{
    let av = crate::strutil::to_chars(a);
    let bv = crate::strutil::to_chars(b);
    if av.len() != bv.len() {
        return false;
    }
    let mut i: usize = 0;
    while i < av.len()
        invariant
            av@ == a@,
            bv@ == b@,
            av@.len() == bv@.len(),
            i <= av@.len(),
            forall|j: int| 0 <= j < i ==> av@[j] == bv@[j],
        decreases av@.len() - i,
    {
        if av[i] != bv[i] {
            return false;
        }
        i = i + 1;
    }
    proof {
        assert(a@ =~= b@);
    }
    true
}

/// First node at or after `from` that is a direct child of `p` and is
/// named `name`.
pub open spec fn spec_child_named(
    doc: XmlDoc,
    p: int,
    name: Seq<char>,
    from: int,
) -> Option<int>
    decreases doc.nodes@.len() - from,
{
    if from < 0 || from >= doc.nodes@.len() {
        None
    } else if doc.spec_is_child(from, p) && doc.nodes@[from].name@ == name {
        Some(from)
    } else {
        spec_child_named(doc, p, name, from + 1)
    }
}

/// Find the next direct child of `p` named `name`, at or after `from`.
pub fn child_named(doc: &XmlDoc, p: usize, name: &str, from: usize) -> (r: Option<usize>)
    ensures
        match r {
            Some(c) => Some(c as int) == spec_child_named(*doc, p as int, name@, from as int)
                && c < doc.nodes@.len(),
            None => spec_child_named(*doc, p as int, name@, from as int) is None,
        },
{
    let mut i: usize = from;
    loop
        invariant
            from <= i,
            spec_child_named(*doc, p as int, name@, from as int) == spec_child_named(
                *doc,
                p as int,
                name@,
                i as int,
            ),
        decreases doc.nodes@.len() + 1 - i,
    {
        if i >= doc.nodes.len() {
            return None;
        }
        let is_child = match doc.nodes[i].parent {
            Some(q) => q == p,
            None => false,
        };
        if is_child && str_eq(doc.nodes[i].name.as_str(), name) {
            return Some(i);
        }
        i = i + 1;
    }
}

/// The text of the first direct child of `p` named `name`, where a node
/// without text (the empty string) counts as having none.
pub open spec fn spec_child_text(doc: XmlDoc, p: int, name: Seq<char>) -> Option<Seq<char>> {
    match spec_child_named(doc, p, name, 0) {
        None => None,
        Some(c) => if doc.nodes@[c].text@.len() > 0 {
            Some(doc.nodes@[c].text@)
        } else {
            None
        },
    }
}

/// Text of the first direct child of `p` named `name`, if that child
/// exists and holds text.
pub fn child_text(doc: &XmlDoc, p: usize, name: &str) -> (r: Option<String>)
    ensures
        match r {
            Some(v) => spec_child_text(*doc, p as int, name@) == Some(v@),
            None => spec_child_text(*doc, p as int, name@) is None,
        },
{
    match child_named(doc, p, name, 0) {
        None => None,
        Some(c) => {
            if doc.nodes[c].text.as_str().unicode_len() > 0 {
                Some(doc.nodes[c].text.clone())
            } else {
                None
            }
        },
    }
}

} // verus!

use vstd::string::StrSliceExecFns;

verus! {

/// Relies on xmltree::Element::parse: whether a byte text parses as XML
/// depends on the text alone.
pub uninterp spec fn xml_well_formed(text: Seq<char>) -> bool;

/// Relies on xmltree::Element::parse with sorted attribute storage: the
/// pre-order event stream of the tree a text parses to, each element's
/// attributes ordered by key, depends on the text alone.
pub uninterp spec fn xml_events_of(text: Seq<char>) -> Seq<XmlEventView>;

#[verifier::external_type_specification]
#[verifier::external_body]
pub struct ExXmlElement(xmltree::Element);

/// Relies on xmltree::Element's public fields and xmltree::Element::get_text
/// and xmltree::XMLNode::as_element: emits one Start event per element in
/// pre-order (name, attributes, concatenated text) and one End event when
/// the element's children are done. The attribute map is the sorted kind
/// (this crate selects xmltree's sorted attribute storage), so the pairs
/// come out ordered by key. The promises stand on the caller,
/// `parse_xml_events`. Like the parser itself, this walk recurses per
/// nesting level, so a pathologically deep document can exhaust the
/// stack; the verified traversals over the arena are iterative.
#[verifier::external_body]
fn element_events(e: &xmltree::Element, out: &mut Vec<XmlEvent>) {
    out.push(XmlEvent::Start {
        name: e.name.clone(),
        attrs: e.attributes.iter().map(|(k, v)| (k.clone(), v.clone())).collect(),
        text: e.get_text().map(|t| t.to_string()).unwrap_or_default(),
    });
    for child in &e.children {
        if let Some(ce) = child.as_element() {
            element_events(ce, out);
        }
    }
    out.push(XmlEvent::End);
}

/// Relies on xmltree::Element::parse (deterministic in the byte text,
/// fixed parser configuration) and the walk above: a well-formed text
/// parses, and the walk's event stream is a function of the text alone,
/// named `xml_events_of`. The stream's attribute order is deterministic
/// because the attributes are stored sorted by key (xmltree's sorted
/// attribute storage, selected in this crate's manifest): two parses of
/// one text yield one stream.
#[verifier::external_body]
fn parse_xml_events(text: &str) -> (r: Option<Vec<XmlEvent>>)
    ensures
        r is Some <==> xml_well_formed(text@),
        r matches Some(ev) ==> events_view(ev@) == xml_events_of(text@),
{
    match xmltree::Element::parse(text.as_bytes()) {
        Ok(root) => {
            let mut out: Vec<XmlEvent> = Vec::new();
            element_events(&root, &mut out);
            Some(out)
        },
        Err(_) => None,
    }
}

/// The arena a text parses to: `None` unless the text is well-formed XML
/// and its event stream describes exactly one root element.
pub open spec fn spec_parse_xml(text: Seq<char>) -> Option<Seq<XmlNodeView>> {
    if !xml_well_formed(text) {
        None
    } else {
        spec_doc_of(xml_events_of(text))
    }
}

/// Parse an XML text into the arena model.
pub fn parse_xml(text: &str) -> (r: Option<XmlDoc>)
    ensures
        r is Some <==> spec_parse_xml(text@) is Some,
        r matches Some(doc) ==> doc.wf() && Some(doc_view(doc)) == spec_parse_xml(text@),
{
    match parse_xml_events(text) {
        None => None,
        Some(events) => XmlDoc::from_events(events),
    }
}

} // verus!
