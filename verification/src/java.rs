//! Endpoint extraction for Java projects: Struts and Struts2 descriptors,
//! web.xml servlet mappings and filters, and JSP path conventions.
use vstd::prelude::*;
use vstd::string::StrSliceExecFns;
use vstd::string::StringExecFns;
use crate::model::{files_view, lemma_lines_view_push, lines_view, SourceFile};
use crate::project::JAVAProject;
use crate::strutil::{ends_with_chars, match_at, match_at_exec, remove_all_chars, spec_contains,
    spec_ends_with, spec_find_char, spec_remove_all, str_contains, to_chars, chars_to_string};
use crate::xml::{attrs_view, child_named, child_text, doc_view, get_attr, parse_xml, spec_attr,
    spec_child_named, spec_child_text, spec_parse_xml, str_eq, XmlDoc, XmlNodeView};

verus! {

/// One `<action name method>` inside a `<package name>` yields
/// `{namespace}/{name}!{method}.do`.
pub open spec fn spec_struts_action_url(
    ns: Seq<char>,
    name: Seq<char>,
    method: Seq<char>,
) -> Seq<char> {
    ns + "/"@ + name + "!"@ + method + ".do"@
}

/// First value among the attribute views from index `i` on whose key is
/// `name`.
pub open spec fn spec_attr_v(
    attrs: Seq<(Seq<char>, Seq<char>)>,
    name: Seq<char>,
    i: int,
) -> Option<Seq<char>>
    decreases attrs.len() - i,
{
    if i < 0 || i >= attrs.len() {
        None
    } else if attrs[i].0 == name {
        Some(attrs[i].1)
    } else {
        spec_attr_v(attrs, name, i + 1)
    }
}

/// Attribute lookup agrees between the stored pairs and their views.
pub proof fn lemma_attr_view(attrs: Seq<(String, String)>, name: Seq<char>, i: int)
    ensures
        crate::xml::spec_attr_from(attrs, name, i) == spec_attr_v(attrs_view(attrs), name, i),
    decreases attrs.len() - i,
{
    if 0 <= i && i < attrs.len() {
        lemma_attr_view(attrs, name, i + 1);
    }
}

pub open spec fn spec_attr_or_empty_v(
    attrs: Seq<(Seq<char>, Seq<char>)>,
    name: Seq<char>,
) -> Seq<char> {
    match spec_attr_v(attrs, name, 0) {
        Some(v) => v,
        None => Seq::empty(),
    }
}

/// Whether node view `c` is a direct child of node `p`.
pub open spec fn spec_is_child_v(nodes: Seq<XmlNodeView>, c: int, p: int) -> bool {
    match nodes[c].parent {
        Some(q) => q == p,
        None => false,
    }
}

/// The URLs of the actions under package `pkg` (namespace `ns`), scanning
/// node views from index `k` on; actions missing `name` or `method` are
/// skipped.
pub open spec fn spec_struts_actions_v(
    nodes: Seq<XmlNodeView>,
    pkg: int,
    ns: Seq<char>,
    k: int,
) -> Seq<Seq<char>>
    decreases nodes.len() - k,
{
    if k < 0 || k >= nodes.len() {
        seq![]
    } else {
        let rest = spec_struts_actions_v(nodes, pkg, ns, k + 1);
        let node = nodes[k];
        if spec_is_child_v(nodes, k, pkg) && node.name == "action"@ && spec_attr_v(
            node.attrs,
            "name"@,
            0,
        ) is Some && spec_attr_v(node.attrs, "method"@, 0) is Some {
            seq![
                spec_struts_action_url(
                    ns,
                    spec_attr_v(node.attrs, "name"@, 0).unwrap(),
                    spec_attr_v(node.attrs, "method"@, 0).unwrap(),
                ),
            ] + rest
        } else {
            rest
        }
    }
}

/// The Struts URLs of a parsed descriptor: packages are the root's direct
/// children carrying a `name` attribute; one missing it is skipped.
pub open spec fn spec_struts_packages_v(nodes: Seq<XmlNodeView>, i: int) -> Seq<Seq<char>>
    decreases nodes.len() - i,
{
    if i < 0 || i >= nodes.len() {
        seq![]
    } else {
        let rest = spec_struts_packages_v(nodes, i + 1);
        let node = nodes[i];
        if spec_is_child_v(nodes, i, 0) && node.name == "package"@ && spec_attr_v(
            node.attrs,
            "name"@,
            0,
        ) is Some {
            spec_struts_actions_v(nodes, i, spec_attr_v(node.attrs, "name"@, 0).unwrap(), 0)
                + rest
        } else {
            rest
        }
    }
}

pub open spec fn spec_struts_actions(doc: XmlDoc, pkg: int, ns: Seq<char>, k: int) -> Seq<
    Seq<char>,
> {
    spec_struts_actions_v(doc_view(doc), pkg, ns, k)
}

pub open spec fn spec_struts_packages(doc: XmlDoc, i: int) -> Seq<Seq<char>> {
    spec_struts_packages_v(doc_view(doc), i)
}

/// One `<action name method>` inside a Struts2 `<package>` yields
/// `{namespace}/{name}/{method}.action`; `namespace` and `name` default to
/// empty, `method` is required.
pub open spec fn spec_struts2_action_url(
    ns: Seq<char>,
    name: Seq<char>,
    method: Seq<char>,
) -> Seq<char> {
    ns + "/"@ + name + "/"@ + method + ".action"@
}

pub open spec fn spec_attr_or_empty(node: crate::xml::XmlNode, name: Seq<char>) -> Seq<char> {
    match spec_attr(node, name) {
        Some(v) => v,
        None => Seq::empty(),
    }
}

pub open spec fn spec_struts2_actions_v(
    nodes: Seq<XmlNodeView>,
    pkg: int,
    ns: Seq<char>,
    k: int,
) -> Seq<Seq<char>>
    decreases nodes.len() - k,
{
    if k < 0 || k >= nodes.len() {
        seq![]
    } else {
        let rest = spec_struts2_actions_v(nodes, pkg, ns, k + 1);
        let node = nodes[k];
        if spec_is_child_v(nodes, k, pkg) && node.name == "action"@ && spec_attr_v(
            node.attrs,
            "method"@,
            0,
        ) is Some {
            seq![
                spec_struts2_action_url(
                    ns,
                    spec_attr_or_empty_v(node.attrs, "name"@),
                    spec_attr_v(node.attrs, "method"@, 0).unwrap(),
                ),
            ] + rest
        } else {
            rest
        }
    }
}

pub open spec fn spec_struts2_packages_v(nodes: Seq<XmlNodeView>, i: int) -> Seq<Seq<char>>
    decreases nodes.len() - i,
{
    if i < 0 || i >= nodes.len() {
        seq![]
    } else {
        let rest = spec_struts2_packages_v(nodes, i + 1);
        let node = nodes[i];
        if spec_is_child_v(nodes, i, 0) && node.name == "package"@ {
            spec_struts2_actions_v(nodes, i, spec_attr_or_empty_v(node.attrs, "namespace"@), 0)
                + rest
        } else {
            rest
        }
    }
}

pub open spec fn spec_struts2_actions(doc: XmlDoc, pkg: int, ns: Seq<char>, k: int) -> Seq<
    Seq<char>,
> {
    spec_struts2_actions_v(doc_view(doc), pkg, ns, k)
}

pub open spec fn spec_struts2_packages(doc: XmlDoc, i: int) -> Seq<Seq<char>> {
    spec_struts2_packages_v(doc_view(doc), i)
}

/// The `<url-pattern>` texts under one `<servlet-mapping>`, from node view
/// `k` on.
pub open spec fn spec_servlet_patterns_v(nodes: Seq<XmlNodeView>, sm: int, k: int) -> Seq<
    Seq<char>,
>
    decreases nodes.len() - k,
{
    if k < 0 || k >= nodes.len() {
        seq![]
    } else {
        let rest = spec_servlet_patterns_v(nodes, sm, k + 1);
        if spec_is_child_v(nodes, k, sm) && nodes[k].name == "url-pattern"@ {
            seq![nodes[k].text] + rest
        } else {
            rest
        }
    }
}

/// Every `<url-pattern>` of every `<servlet-mapping>` under the root, in
/// document order.
pub open spec fn spec_servlet_urls_v(nodes: Seq<XmlNodeView>, i: int) -> Seq<Seq<char>>
    decreases nodes.len() - i,
{
    if i < 0 || i >= nodes.len() {
        seq![]
    } else {
        let rest = spec_servlet_urls_v(nodes, i + 1);
        if spec_is_child_v(nodes, i, 0) && nodes[i].name == "servlet-mapping"@ {
            spec_servlet_patterns_v(nodes, i, 0) + rest
        } else {
            rest
        }
    }
}

pub open spec fn spec_servlet_patterns(doc: XmlDoc, sm: int, k: int) -> Seq<Seq<char>> {
    spec_servlet_patterns_v(doc_view(doc), sm, k)
}

pub open spec fn spec_servlet_urls(doc: XmlDoc, i: int) -> Seq<Seq<char>> {
    spec_servlet_urls_v(doc_view(doc), i)
}

/// Every node named `tag` (in document order) whose child `tag_name` holds
/// the text `tag_val` contributes the text of its child `find_tag`.
pub open spec fn spec_find_tagged(
    doc: XmlDoc,
    tag: Seq<char>,
    find_tag: Seq<char>,
    tag_name: Seq<char>,
    tag_val: Seq<char>,
    i: int,
) -> Seq<Seq<char>>
    decreases doc.nodes@.len() - i,
{
    if i < 0 || i >= doc.nodes@.len() {
        seq![]
    } else {
        let rest = spec_find_tagged(doc, tag, find_tag, tag_name, tag_val, i + 1);
        if doc.nodes@[i].name@ == tag && spec_child_text(doc, i, tag_name) == Some(tag_val)
            && spec_child_text(doc, i, find_tag) is Some {
            seq![spec_child_text(doc, i, find_tag).unwrap()] + rest
        } else {
            rest
        }
    }
}

/// One `<filter>` entry of web.xml, resolved against the document.
pub struct FilterInfo {
    pub name: String,
    pub class_name: String,
    pub url_pattern: String,
}

/// Ghost image of a filter entry.
pub ghost struct FilterView {
    pub name: Seq<char>,
    pub class_name: Seq<char>,
    pub url_pattern: Seq<char>,
}

impl View for FilterInfo {
    type V = FilterView;

    open spec fn view(&self) -> FilterView {
        FilterView {
            name: self.name@,
            class_name: self.class_name@,
            url_pattern: self.url_pattern@,
        }
    }
}

pub open spec fn filters_view(v: Seq<FilterInfo>) -> Seq<FilterView> {
    Seq::new(v.len(), |i: int| v[i]@)
}

/// The URL pattern that web.xml's *first* `<filter-mapping>` carries: the
/// resolution deliberately joins every filter with that one mapping,
/// whatever its `<filter-name>` says.
pub open spec fn spec_first_mapping_url(doc: XmlDoc) -> Seq<char> {
    match spec_child_named(doc, 0, "filter-mapping"@, 0) {
        None => Seq::empty(),
        Some(fm) => match spec_child_text(doc, fm, "url-pattern"@) {
            Some(u) => u,
            None => Seq::empty(),
        },
    }
}

pub open spec fn spec_child_text_or_empty(doc: XmlDoc, p: int, name: Seq<char>) -> Seq<char> {
    match spec_child_text(doc, p, name) {
        Some(v) => v,
        None => Seq::empty(),
    }
}

/// Every `<filter>` with a named `<filter-name>` child, each joined with
/// its `<filter-class>` and the first `<filter-mapping>`'s URL pattern.
pub open spec fn spec_filters(doc: XmlDoc, i: int) -> Seq<FilterView>
    decreases doc.nodes@.len() - i,
{
    if i < 0 || i >= doc.nodes@.len() {
        seq![]
    } else {
        let rest = spec_filters(doc, i + 1);
        if doc.nodes@[i].name@ == "filter"@ && spec_child_text(doc, i, "filter-name"@) is Some {
            seq![
                FilterView {
                    name: spec_child_text(doc, i, "filter-name"@).unwrap(),
                    class_name: spec_child_text_or_empty(doc, i, "filter-class"@),
                    url_pattern: spec_first_mapping_url(doc),
                },
            ] + rest
        } else {
            rest
        }
    }
}

/// The JSP endpoints: every path ending in `.jsp`, with every occurrence
/// of the project prefix removed.
pub open spec fn spec_jsp(paths: Seq<Seq<char>>, prefix: Seq<char>, i: int) -> Seq<Seq<char>>
    decreases paths.len() - i,
{
    if i < 0 || i >= paths.len() {
        seq![]
    } else {
        let rest = spec_jsp(paths, prefix, i + 1);
        if spec_ends_with(paths[i], ".jsp"@) {
            seq![spec_remove_all(paths[i], prefix)] + rest
        } else {
            rest
        }
    }
}

impl JAVAProject {
    /// Struts endpoint extraction over one parsed descriptor.
    pub fn collection_struts_doc(doc: &XmlDoc) -> (r: Vec<String>)
        ensures
            lines_view(r@) == spec_struts_packages(*doc, 0),
    {
        let mut out: Vec<String> = Vec::new();
        let mut i: usize = 0;
        while i < doc.nodes.len()
            invariant
                i <= doc.nodes@.len(),
                spec_struts_packages(*doc, 0) == lines_view(out@) + spec_struts_packages(
                    *doc,
                    i as int,
                ),
            decreases doc.nodes@.len() - i,
        {
            proof {
                assert(doc_view(*doc)[i as int] == crate::xml::node_view(
                    doc.nodes@[i as int],
                ));
                lemma_attr_view(doc.nodes@[i as int].attrs@, "name"@, 0);
            }
            let is_root_child = match doc.nodes[i].parent {
                Some(q) => q == 0,
                None => false,
            };
            if is_root_child && str_eq(doc.nodes[i].name.as_str(), "package") {
                match get_attr(&doc.nodes[i], "name") {
                    Some(ns) => {
                        let mut k: usize = 0;
                        while k < doc.nodes.len()
                            invariant
                                i < doc.nodes@.len(),
                                k <= doc.nodes@.len(),
                                ns@ == spec_attr(doc.nodes@[i as int], "name"@).unwrap(),
                                doc.spec_is_child(i as int, 0),
                                doc.nodes@[i as int].name@ == "package"@,
                                spec_attr(doc.nodes@[i as int], "name"@) is Some,
                                spec_struts_packages(*doc, 0) == lines_view(out@)
                                    + spec_struts_actions(*doc, i as int, ns@, k as int)
                                    + spec_struts_packages(*doc, i as int + 1),
                            decreases doc.nodes@.len() - k,
                        {
                            proof {
                                assert(doc_view(*doc)[k as int] == crate::xml::node_view(
                                    doc.nodes@[k as int],
                                ));
                                lemma_attr_view(doc.nodes@[k as int].attrs@, "name"@, 0);
                                lemma_attr_view(doc.nodes@[k as int].attrs@, "method"@, 0);
                            }
                            let is_action_child = match doc.nodes[k].parent {
                                Some(q) => q == i,
                                None => false,
                            };
                            if is_action_child && str_eq(doc.nodes[k].name.as_str(), "action") {
                                let name_attr = get_attr(&doc.nodes[k], "name");
                                let method_attr = get_attr(&doc.nodes[k], "method");
                                match (name_attr, method_attr) {
                                    (Some(name), Some(method)) => {
                                        let url = struts_url(
                                            ns.as_str(),
                                            name.as_str(),
                                            method.as_str(),
                                        );
                                        let ghost old_out = out@;
                                        out.push(url);
                                        proof {
                                            lemma_lines_view_push(old_out, url);
                                            assert(lines_view(out@) + spec_struts_actions(
                                                *doc,
                                                i as int,
                                                ns@,
                                                k as int + 1,
                                            ) + spec_struts_packages(*doc, i as int + 1)
                                                =~= lines_view(old_out) + spec_struts_actions(
                                                *doc,
                                                i as int,
                                                ns@,
                                                k as int,
                                            ) + spec_struts_packages(*doc, i as int + 1));
                                        }
                                    },
                                    _ => {},
                                }
                            }
                            k = k + 1;
                        }
                    },
                    None => {},
                }
            }
            i = i + 1;
        }
        proof {
            assert(lines_view(out@) =~= lines_view(out@) + spec_struts_packages(
                *doc,
                i as int,
            ));
        }
        out
    }

    /// Struts2 endpoint extraction over one parsed descriptor.
    pub fn collection_struts2_doc(doc: &XmlDoc) -> (r: Vec<String>)
        ensures
            lines_view(r@) == spec_struts2_packages(*doc, 0),
    {
        let mut out: Vec<String> = Vec::new();
        let mut i: usize = 0;
        while i < doc.nodes.len()
            invariant
                i <= doc.nodes@.len(),
                spec_struts2_packages(*doc, 0) == lines_view(out@) + spec_struts2_packages(
                    *doc,
                    i as int,
                ),
            decreases doc.nodes@.len() - i,
        {
            proof {
                assert(doc_view(*doc)[i as int] == crate::xml::node_view(
                    doc.nodes@[i as int],
                ));
                lemma_attr_view(doc.nodes@[i as int].attrs@, "namespace"@, 0);
            }
            let is_root_child = match doc.nodes[i].parent {
                Some(q) => q == 0,
                None => false,
            };
            if is_root_child && str_eq(doc.nodes[i].name.as_str(), "package") {
                let ns = match get_attr(&doc.nodes[i], "namespace") {
                    Some(v) => v,
                    None => String::new(),
                };
                let mut k: usize = 0;
                while k < doc.nodes.len()
                    invariant
                        i < doc.nodes@.len(),
                        k <= doc.nodes@.len(),
                        ns@ == spec_attr_or_empty(doc.nodes@[i as int], "namespace"@),
                        doc.spec_is_child(i as int, 0),
                        doc.nodes@[i as int].name@ == "package"@,
                        spec_struts2_packages(*doc, 0) == lines_view(out@)
                            + spec_struts2_actions(*doc, i as int, ns@, k as int)
                            + spec_struts2_packages(*doc, i as int + 1),
                    decreases doc.nodes@.len() - k,
                {
                    proof {
                        assert(doc_view(*doc)[k as int] == crate::xml::node_view(
                            doc.nodes@[k as int],
                        ));
                        lemma_attr_view(doc.nodes@[k as int].attrs@, "name"@, 0);
                        lemma_attr_view(doc.nodes@[k as int].attrs@, "method"@, 0);
                    }
                    let is_action_child = match doc.nodes[k].parent {
                        Some(q) => q == i,
                        None => false,
                    };
                    if is_action_child && str_eq(doc.nodes[k].name.as_str(), "action") {
                        match get_attr(&doc.nodes[k], "method") {
                            Some(method) => {
                                let name = match get_attr(&doc.nodes[k], "name") {
                                    Some(v) => v,
                                    None => String::new(),
                                };
                                let url = struts2_url(ns.as_str(), name.as_str(), method.as_str());
                                let ghost old_out = out@;
                                out.push(url);
                                proof {
                                    lemma_lines_view_push(old_out, url);
                                    assert(lines_view(out@) + spec_struts2_actions(
                                        *doc,
                                        i as int,
                                        ns@,
                                        k as int + 1,
                                    ) + spec_struts2_packages(*doc, i as int + 1) =~= lines_view(
                                        old_out,
                                    ) + spec_struts2_actions(*doc, i as int, ns@, k as int)
                                        + spec_struts2_packages(*doc, i as int + 1));
                                }
                            },
                            None => {},
                        }
                    }
                    k = k + 1;
                }
            }
            i = i + 1;
        }
        proof {
            assert(lines_view(out@) =~= lines_view(out@) + spec_struts2_packages(
                *doc,
                i as int,
            ));
        }
        out
    }

    /// The servlet URL patterns of a parsed web.xml.
    pub fn collection_java_interface_doc(doc: &XmlDoc) -> (r: Vec<String>)
        ensures
            lines_view(r@) == spec_servlet_urls(*doc, 0),
    {
        let mut out: Vec<String> = Vec::new();
        let mut i: usize = 0;
        while i < doc.nodes.len()
            invariant
                i <= doc.nodes@.len(),
                spec_servlet_urls(*doc, 0) == lines_view(out@) + spec_servlet_urls(
                    *doc,
                    i as int,
                ),
            decreases doc.nodes@.len() - i,
        {
            let is_root_child = match doc.nodes[i].parent {
                Some(q) => q == 0,
                None => false,
            };
            if is_root_child && str_eq(doc.nodes[i].name.as_str(), "servlet-mapping") {
                let mut k: usize = 0;
                while k < doc.nodes.len()
                    invariant
                        i < doc.nodes@.len(),
                        k <= doc.nodes@.len(),
                        doc.spec_is_child(i as int, 0),
                        doc.nodes@[i as int].name@ == "servlet-mapping"@,
                        spec_servlet_urls(*doc, 0) == lines_view(out@) + spec_servlet_patterns(
                            *doc,
                            i as int,
                            k as int,
                        ) + spec_servlet_urls(*doc, i as int + 1),
                    decreases doc.nodes@.len() - k,
                {
                    let is_pattern_child = match doc.nodes[k].parent {
                        Some(q) => q == i,
                        None => false,
                    };
                    if is_pattern_child && str_eq(doc.nodes[k].name.as_str(), "url-pattern") {
                        let url = doc.nodes[k].text.clone();
                        let ghost old_out = out@;
                        out.push(url);
                        proof {
                            lemma_lines_view_push(old_out, url);
                            assert(lines_view(out@) + spec_servlet_patterns(
                                *doc,
                                i as int,
                                k as int + 1,
                            ) + spec_servlet_urls(*doc, i as int + 1) =~= lines_view(old_out)
                                + spec_servlet_patterns(*doc, i as int, k as int)
                                + spec_servlet_urls(*doc, i as int + 1));
                        }
                    }
                    k = k + 1;
                }
            }
            i = i + 1;
        }
        proof {
            assert(lines_view(out@) =~= lines_view(out@) + spec_servlet_urls(*doc, i as int));
        }
        out
    }

    /// For every node named `tag` whose `tag_name` child holds `tag_val`,
    /// collect the text of its `find_tag` child (the servlet-class
    /// resolution of web.xml).
    pub fn find_servlet_class_by_name(
        doc: &XmlDoc,
        tag: &str,
        find_tag: &str,
        tag_name: &str,
        tag_val: &str,
    ) -> (r: Vec<String>)
        ensures
            lines_view(r@) == spec_find_tagged(*doc, tag@, find_tag@, tag_name@, tag_val@, 0),
    {
        let mut out: Vec<String> = Vec::new();
        let mut i: usize = 0;
        while i < doc.nodes.len()
            invariant
                i <= doc.nodes@.len(),
                spec_find_tagged(*doc, tag@, find_tag@, tag_name@, tag_val@, 0) == lines_view(
                    out@,
                ) + spec_find_tagged(*doc, tag@, find_tag@, tag_name@, tag_val@, i as int),
            decreases doc.nodes@.len() - i,
        {
            if str_eq(doc.nodes[i].name.as_str(), tag) {
                let name_text = child_text(doc, i, tag_name);
                let val_matches = match &name_text {
                    Some(v) => str_eq(v.as_str(), tag_val),
                    None => false,
                };
                if val_matches {
                    match child_text(doc, i, find_tag) {
                        Some(cls) => {
                            let ghost old_out = out@;
                            out.push(cls);
                            proof {
                                lemma_lines_view_push(old_out, cls);
                                assert(lines_view(out@) + spec_find_tagged(
                                    *doc,
                                    tag@,
                                    find_tag@,
                                    tag_name@,
                                    tag_val@,
                                    i as int + 1,
                                ) =~= lines_view(old_out) + spec_find_tagged(
                                    *doc,
                                    tag@,
                                    find_tag@,
                                    tag_name@,
                                    tag_val@,
                                    i as int,
                                ));
                            }
                        },
                        None => {},
                    }
                }
            }
            i = i + 1;
        }
        proof {
            assert(lines_view(out@) =~= lines_view(out@) + spec_find_tagged(
                *doc,
                tag@,
                find_tag@,
                tag_name@,
                tag_val@,
                i as int,
            ));
        }
        out
    }

    /// Collect every `<filter>` of web.xml with its class and the first
    /// `<filter-mapping>`'s URL pattern.
    pub fn find_filters(doc: &XmlDoc) -> (r: Vec<FilterInfo>)
        ensures
            filters_view(r@) == spec_filters(*doc, 0),
    {
        let mapping_url: String = match child_named(doc, 0, "filter-mapping", 0) {
            None => String::new(),
            Some(fm) => match child_text(doc, fm, "url-pattern") {
                Some(u) => u,
                None => String::new(),
            },
        };
        proof {
            assert(mapping_url@ == spec_first_mapping_url(*doc));
        }
        let mut out: Vec<FilterInfo> = Vec::new();
        let mut i: usize = 0;
        while i < doc.nodes.len()
            invariant
                i <= doc.nodes@.len(),
                mapping_url@ == spec_first_mapping_url(*doc),
                spec_filters(*doc, 0) == filters_view(out@) + spec_filters(*doc, i as int),
            decreases doc.nodes@.len() - i,
        {
            if str_eq(doc.nodes[i].name.as_str(), "filter") {
                match child_text(doc, i, "filter-name") {
                    Some(name) => {
                        let class_name = match child_text(doc, i, "filter-class") {
                            Some(c) => c,
                            None => String::new(),
                        };
                        let info = FilterInfo {
                            name,
                            class_name,
                            url_pattern: mapping_url.clone(),
                        };
                        let ghost old_out = out@;
                        out.push(info);
                        proof {
                            assert(filters_view(out@) =~= filters_view(old_out) + seq![info@]);
                            assert(filters_view(out@) + spec_filters(*doc, i as int + 1)
                                =~= filters_view(old_out) + spec_filters(*doc, i as int));
                        }
                    },
                    None => {},
                }
            }
            i = i + 1;
        }
        proof {
            assert(filters_view(out@) =~= filters_view(out@) + spec_filters(*doc, i as int));
        }
        out
    }

    /// The JSP endpoints among the scanned paths: the project-relative
    /// path of every `.jsp` file.
    pub fn collection_jsp(root: Vec<String>, _prefix_dir: &str) -> (r: Vec<String>)
        ensures
            lines_view(r@) == spec_jsp(lines_view(root@), _prefix_dir@, 0),
    {
        let ghost paths = lines_view(root@);
        let prefix = to_chars(_prefix_dir);
        let suffix = to_chars(".jsp");
        proof {
            reveal_strlit(".jsp");
        }
        let mut out: Vec<String> = Vec::new();
        let mut i: usize = 0;
        while i < root.len()
            invariant
                i <= root@.len(),
                paths == lines_view(root@),
                paths.len() == root@.len(),
                prefix@ == _prefix_dir@,
                suffix@ == ".jsp"@,
                spec_jsp(paths, _prefix_dir@, 0) == lines_view(out@) + spec_jsp(
                    paths,
                    _prefix_dir@,
                    i as int,
                ),
            decreases root@.len() - i,
        {
            let path_chars = to_chars(root[i].as_str());
            proof {
                assert(path_chars@ == paths[i as int]);
            }
            if ends_with_chars(&path_chars, &suffix) {
                let cleaned = remove_all_chars(&path_chars, &prefix);
                let cleaned_s = chars_to_string(&cleaned);
                let ghost old_out = out@;
                out.push(cleaned_s);
                proof {
                    lemma_lines_view_push(old_out, cleaned_s);
                    assert(lines_view(out@) + spec_jsp(paths, _prefix_dir@, i as int + 1)
                        =~= lines_view(old_out) + spec_jsp(paths, _prefix_dir@, i as int));
                }
            }
            i = i + 1;
        }
        proof {
            assert(lines_view(out@) =~= lines_view(out@) + spec_jsp(
                paths,
                _prefix_dir@,
                i as int,
            ));
        }
        out
    }

    /// Struts endpoint extraction over descriptor texts: a file whose text
    /// holds `<struts>` and parses contributes its package/action URLs, in
    /// file order; other files contribute nothing.
    pub fn collection_struts(xml_files: &Vec<SourceFile>) -> (r: Vec<String>)
        ensures
            lines_view(r@) == spec_struts_files(files_view(xml_files@), 0),
    {
        let ghost fv = files_view(xml_files@);
        let mut out: Vec<String> = Vec::new();
        let mut i: usize = 0;
        while i < xml_files.len()
            invariant
                i <= xml_files@.len(),
                fv == files_view(xml_files@),
                fv.len() == xml_files@.len(),
                spec_struts_files(fv, 0) == lines_view(out@) + spec_struts_files(fv, i as int),
            decreases xml_files@.len() - i,
        {
            proof {
                assert(fv[i as int] == xml_files@[i as int]@);
            }
            if str_contains(xml_files[i].content.as_str(), "<struts>") {
                match parse_xml(xml_files[i].content.as_str()) {
                    Some(doc) => {
                        let mut urls = Self::collection_struts_doc(&doc);
                        let ghost old_out = lines_view(out@);
                        let ghost new_urls = lines_view(urls@);
                        out.append(&mut urls);
                        proof {
                            assert(lines_view(out@) =~= old_out + new_urls);
                            assert(old_out + new_urls + spec_struts_files(fv, i as int + 1)
                                =~= old_out + spec_struts_files(fv, i as int));
                        }
                    },
                    None => {
                        proof {
                            assert(spec_struts_file_urls(fv[i as int].content)
                                =~= Seq::<Seq<char>>::empty());
                            assert(lines_view(out@) + spec_struts_files(fv, i as int + 1)
                                =~= lines_view(out@) + spec_struts_files(fv, i as int));
                        }
                    },
                }
            } else {
                proof {
                    assert(spec_struts_file_urls(fv[i as int].content)
                        =~= Seq::<Seq<char>>::empty());
                    assert(lines_view(out@) + spec_struts_files(fv, i as int + 1) =~= lines_view(
                        out@,
                    ) + spec_struts_files(fv, i as int));
                }
            }
            i = i + 1;
        }
        proof {
            assert(lines_view(out@) =~= lines_view(out@) + spec_struts_files(fv, i as int));
        }
        out
    }

    /// Struts2 endpoint extraction over descriptor texts, with the same
    /// shape as `collection_struts`.
    pub fn collection_struts2(xml_files: &Vec<SourceFile>) -> (r: Vec<String>)
        ensures
            lines_view(r@) == spec_struts2_files(files_view(xml_files@), 0),
    {
        let ghost fv = files_view(xml_files@);
        let mut out: Vec<String> = Vec::new();
        let mut i: usize = 0;
        while i < xml_files.len()
            invariant
                i <= xml_files@.len(),
                fv == files_view(xml_files@),
                fv.len() == xml_files@.len(),
                spec_struts2_files(fv, 0) == lines_view(out@) + spec_struts2_files(fv, i as int),
            decreases xml_files@.len() - i,
        {
            proof {
                assert(fv[i as int] == xml_files@[i as int]@);
            }
            if str_contains(xml_files[i].content.as_str(), "<struts>") {
                match parse_xml(xml_files[i].content.as_str()) {
                    Some(doc) => {
                        let mut urls = Self::collection_struts2_doc(&doc);
                        let ghost old_out = lines_view(out@);
                        let ghost new_urls = lines_view(urls@);
                        out.append(&mut urls);
                        proof {
                            assert(lines_view(out@) =~= old_out + new_urls);
                            assert(old_out + new_urls + spec_struts2_files(fv, i as int + 1)
                                =~= old_out + spec_struts2_files(fv, i as int));
                        }
                    },
                    None => {
                        proof {
                            assert(spec_struts2_file_urls(fv[i as int].content)
                                =~= Seq::<Seq<char>>::empty());
                            assert(lines_view(out@) + spec_struts2_files(fv, i as int + 1)
                                =~= lines_view(out@) + spec_struts2_files(fv, i as int));
                        }
                    },
                }
            } else {
                proof {
                    assert(spec_struts2_file_urls(fv[i as int].content)
                        =~= Seq::<Seq<char>>::empty());
                    assert(lines_view(out@) + spec_struts2_files(fv, i as int + 1) =~= lines_view(
                        out@,
                    ) + spec_struts2_files(fv, i as int));
                }
            }
            i = i + 1;
        }
        proof {
            assert(lines_view(out@) =~= lines_view(out@) + spec_struts2_files(fv, i as int));
        }
        out
    }

    /// The servlet URL patterns of a web.xml text: exactly the patterns of
    /// the parsed document, empty when the text does not parse.
    pub fn collection_java_interface(web_xml: &SourceFile) -> (r: Vec<String>)
        ensures
            lines_view(r@) == spec_web_xml_urls(web_xml.content@),
    {
        match parse_xml(web_xml.content.as_str()) {
            Some(doc) => Self::collection_java_interface_doc(&doc),
            None => {
                let r: Vec<String> = Vec::new();
                proof {
                    assert(lines_view(r@) =~= spec_web_xml_urls(web_xml.content@));
                }
                r
            },
        }
    }
}

/// The Struts URLs one descriptor text contributes: nothing unless the
/// text holds `<struts>` and parses to a document.
pub open spec fn spec_struts_file_urls(content: Seq<char>) -> Seq<Seq<char>> {
    if !spec_contains(content, "<struts>"@) {
        seq![]
    } else {
        match spec_parse_xml(content) {
            None => seq![],
            Some(nodes) => spec_struts_packages_v(nodes, 0),
        }
    }
}

/// The Struts URLs of every descriptor text, in file order.
pub open spec fn spec_struts_files(files: Seq<crate::model::FileView>, k: int) -> Seq<Seq<char>>
    decreases files.len() - k,
{
    if k < 0 || k >= files.len() {
        seq![]
    } else {
        spec_struts_file_urls(files[k].content) + spec_struts_files(files, k + 1)
    }
}

/// The Struts2 URLs one descriptor text contributes.
pub open spec fn spec_struts2_file_urls(content: Seq<char>) -> Seq<Seq<char>> {
    if !spec_contains(content, "<struts>"@) {
        seq![]
    } else {
        match spec_parse_xml(content) {
            None => seq![],
            Some(nodes) => spec_struts2_packages_v(nodes, 0),
        }
    }
}

/// The Struts2 URLs of every descriptor text, in file order.
pub open spec fn spec_struts2_files(files: Seq<crate::model::FileView>, k: int) -> Seq<Seq<char>>
    decreases files.len() - k,
{
    if k < 0 || k >= files.len() {
        seq![]
    } else {
        spec_struts2_file_urls(files[k].content) + spec_struts2_files(files, k + 1)
    }
}

/// The servlet URL patterns a web.xml text describes: empty unless the
/// text parses to a document.
pub open spec fn spec_web_xml_urls(content: Seq<char>) -> Seq<Seq<char>> {
    match spec_parse_xml(content) {
        None => seq![],
        Some(nodes) => spec_servlet_urls_v(nodes, 0),
    }
}

/// Build `{ns}/{name}!{method}.do`.
fn struts_url(ns: &str, name: &str, method: &str) -> (r: String)
    ensures
        r@ == spec_struts_action_url(ns@, name@, method@),
{
    let mut u = String::from_str(ns);
    u.append("/");
    u.append(name);
    u.append("!");
    u.append(method);
    u.append(".do");
    u
}

/// Build `{ns}/{name}/{method}.action`.
fn struts2_url(ns: &str, name: &str, method: &str) -> (r: String)
    ensures
        r@ == spec_struts2_action_url(ns@, name@, method@),
{
    let mut u = String::from_str(ns);
    u.append("/");
    u.append(name);
    u.append("/");
    u.append(method);
    u.append(".action");
    u
}

} // verus!

verus! {

/// A Mybatis mapper tag at `i`: `<`, optional whitespace, `mapper`, then a
/// `>` later with no newline between the tag name and the `>`.
pub open spec fn spec_mapper_tag_at(s: Seq<char>, i: int) -> bool {
    &&& 0 <= i < s.len() && s[i] == '<'
    &&& {
        let j = crate::strutil::spec_skip_spaces(s, i + 1);
        &&& match_at(s, "mapper"@, j)
        &&& match spec_find_char(s, '>', j + 6) {
            None => false,
            Some(k) => match spec_find_char(s, '\n', j + 6) {
                None => true,
                Some(nl) => k < nl,
            },
        }
    }
}

pub open spec fn spec_has_mapper_tag(s: Seq<char>, i: int) -> bool
    decreases s.len() - i,
{
    if i < 0 || i >= s.len() {
        false
    } else if spec_mapper_tag_at(s, i) {
        true
    } else {
        spec_has_mapper_tag(s, i + 1)
    }
}

/// A `${...}` injection point: `${` somewhere, with a `}` later in the
/// same line.
pub open spec fn spec_has_injection(l: Seq<char>) -> bool {
    exists|a: int, k: int|
        match_at(l, "${"@, a) && a + 2 <= k < l.len() && l[k] == '}'
}

/// One flagged Mybatis line: the file, the 1-based line number and the
/// raw line text.
pub struct MybatisFinding {
    pub file_path: String,
    pub line_number: usize,
    pub line: String,
}

/// Ghost image of a finding.
pub ghost struct MybatisView {
    pub path: Seq<char>,
    pub line_number: int,
    pub line: Seq<char>,
}

impl View for MybatisFinding {
    type V = MybatisView;

    open spec fn view(&self) -> MybatisView {
        MybatisView {
            path: self.file_path@,
            line_number: self.line_number as int,
            line: self.line@,
        }
    }
}

pub open spec fn findings_view(v: Seq<MybatisFinding>) -> Seq<MybatisView> {
    Seq::new(v.len(), |i: int| v[i]@)
}

/// The flagged lines of one mapper file, from line `i` on.
pub open spec fn spec_mybatis_lines(
    path: Seq<char>,
    lines: Seq<Seq<char>>,
    i: int,
) -> Seq<MybatisView>
    decreases lines.len() - i,
{
    if i < 0 || i >= lines.len() {
        seq![]
    } else {
        let rest = spec_mybatis_lines(path, lines, i + 1);
        if spec_has_injection(lines[i]) {
            seq![MybatisView { path, line_number: i + 1, line: lines[i] }] + rest
        } else {
            rest
        }
    }
}

/// A file without a mapper tag contributes nothing.
pub open spec fn spec_mybatis_file(f: crate::model::FileView) -> Seq<MybatisView> {
    if spec_has_mapper_tag(f.content, 0) {
        spec_mybatis_lines(f.path, crate::rulecheck::spec_split_lines(f.content), 0)
    } else {
        seq![]
    }
}

pub open spec fn spec_mybatis_files(
    files: Seq<crate::model::FileView>,
    k: int,
) -> Seq<MybatisView>
    decreases files.len() - k,
{
    if k < 0 || k >= files.len() {
        seq![]
    } else {
        spec_mybatis_file(files[k]) + spec_mybatis_files(files, k + 1)
    }
}

/// Mapper-tag test at one position.
fn mapper_tag_at(s: &Vec<char>, i: usize) -> (r: bool)
    requires
        i < s@.len(),
    ensures
        r == spec_mapper_tag_at(s@, i as int),
{
    proof {
        reveal_strlit("mapper");
    }
    let n = s.len();
    if s[i] != '<' {
        return false;
    }
    let j = crate::strutil::skip_spaces(s, i + 1);
    let mapper_l = to_chars("mapper");
    if !match_at_exec(s, &mapper_l, j) {
        return false;
    }
    proof {
        crate::strutil::lemma_find_char_props(s@, '>', j as int + 6);
        crate::strutil::lemma_find_char_props(s@, '\n', j as int + 6);
    }
    match crate::strutil::find_char(s, '>', j + 6) {
        None => false,
        Some(k) => match crate::strutil::find_char(s, '\n', j + 6) {
            None => true,
            Some(nl) => k < nl,
        },
    }
}

/// Whether the text holds a mapper tag anywhere.
fn has_mapper_tag(s: &Vec<char>) -> (r: bool)
    ensures
        r == spec_has_mapper_tag(s@, 0),
{
    let mut i: usize = 0;
    while i < s.len()
        invariant
            i <= s@.len(),
            spec_has_mapper_tag(s@, 0) == spec_has_mapper_tag(s@, i as int),
        decreases s@.len() - i,
    {
        if mapper_tag_at(s, i) {
            return true;
        }
        i = i + 1;
    }
    false
}

/// Injection-point test for one line.
fn has_injection(l: &Vec<char>) -> (r: bool)
    ensures
        r == spec_has_injection(l@),
{
    proof {
        reveal_strlit("${");
    }
    let n = l.len();
    let pat = to_chars("${");
    proof {
        crate::strutil::lemma_find_props(l@, pat@, 0);
    }
    match crate::strutil::find_from(l, &pat, 0) {
        None => {
            proof {
                assert(!spec_has_injection(l@)) by {
                    if spec_has_injection(l@) {
                        let (a, k) = choose|a: int, k: int|
                            match_at(l@, "${"@, a) && a + 2 <= k < l@.len() && l@[k] == '}';
                        assert(!match_at(l@, "${"@, a));
                    }
                }
            }
            false
        },
        Some(a) => {
            proof {
                crate::strutil::lemma_find_char_props(l@, '}', a as int + 2);
            }
            match crate::strutil::find_char(l, '}', a + 2) {
                Some(k) => {
                    proof {
                        assert(match_at(l@, "${"@, a as int) && a + 2 <= k < l@.len()
                            && l@[k as int] == '}');
                        assert(spec_has_injection(l@));
                    }
                    true
                },
                None => {
                    proof {
                        assert(!spec_has_injection(l@)) by {
                            if spec_has_injection(l@) {
                                let (a2, k2) = choose|a2: int, k2: int|
                                    match_at(l@, "${"@, a2) && a2 + 2 <= k2 < l@.len() && l@[k2]
                                        == '}';
                                assert(a2 >= a);
                                assert(k2 >= a + 2);
                                assert(l@[k2] != '}');
                            }
                        }
                    }
                    false
                },
            }
        },
    }
}

impl JAVAProject {
    /// The Mybatis SQL-injection findings of the given XML files: files
    /// holding a mapper tag contribute every line with a `${...}`
    /// placeholder, carrying its 1-based line number and raw text.
    pub fn analyze_mybatis_sql_injection(xml_files: &Vec<SourceFile>) -> (r: Vec<MybatisFinding>)
        ensures
            findings_view(r@) == spec_mybatis_files(files_view(xml_files@), 0),
    {
        let ghost fv = files_view(xml_files@);
        let mut out: Vec<MybatisFinding> = Vec::new();
        let mut k: usize = 0;
        while k < xml_files.len()
            invariant
                k <= xml_files@.len(),
                fv == files_view(xml_files@),
                fv.len() == xml_files@.len(),
                spec_mybatis_files(fv, 0) == findings_view(out@) + spec_mybatis_files(
                    fv,
                    k as int,
                ),
            decreases xml_files@.len() - k,
        {
            proof {
                assert(fv[k as int] == xml_files@[k as int]@);
            }
            let content_chars = to_chars(xml_files[k].content.as_str());
            if has_mapper_tag(&content_chars) {
                let lines = crate::rulecheck::split_lines(xml_files[k].content.as_str());
                let ghost lv = crate::rulecheck::spec_split_lines(fv[k as int].content);
                let mut i: usize = 0;
                while i < lines.len()
                    invariant
                        i <= lines@.len(),
                        lv == lines_view(lines@),
                        lv.len() == lines@.len(),
                        k < xml_files@.len(),
                        fv == files_view(xml_files@),
                        fv.len() == xml_files@.len(),
                        fv[k as int] == xml_files@[k as int]@,
                        spec_mybatis_files(fv, 0) == findings_view(out@) + spec_mybatis_lines(
                            fv[k as int].path,
                            lv,
                            i as int,
                        ) + spec_mybatis_files(fv, k as int + 1),
                    decreases lines@.len() - i,
                {
                    proof {
                        assert(lv[i as int] == lines@[i as int]@);
                    }
                    let line_chars = to_chars(lines[i].as_str());
                    if has_injection(&line_chars) {
                        let finding = MybatisFinding {
                            file_path: xml_files[k].path.clone(),
                            line_number: i + 1,
                            line: lines[i].clone(),
                        };
                        let ghost old_out = out@;
                        out.push(finding);
                        proof {
                            assert(findings_view(out@) =~= findings_view(old_out) + seq![
                                finding@,
                            ]);
                            assert(findings_view(out@) + spec_mybatis_lines(
                                fv[k as int].path,
                                lv,
                                i as int + 1,
                            ) + spec_mybatis_files(fv, k as int + 1) =~= findings_view(old_out)
                                + spec_mybatis_lines(fv[k as int].path, lv, i as int)
                                + spec_mybatis_files(fv, k as int + 1));
                        }
                    }
                    i = i + 1;
                }
                proof {
                    assert(findings_view(out@) + spec_mybatis_files(fv, k as int + 1)
                        =~= findings_view(out@) + spec_mybatis_lines(
                        fv[k as int].path,
                        lv,
                        i as int,
                    ) + spec_mybatis_files(fv, k as int + 1));
                }
            }
            k = k + 1;
        }
        proof {
            assert(findings_view(out@) =~= findings_view(out@) + spec_mybatis_files(
                fv,
                k as int,
            ));
        }
        out
    }
}

} // verus!

verus! {

/// One dependency of the build descriptor.
pub struct DependencyInfo {
    pub group_id: String,
    pub artifact_id: String,
    pub version: String,
}

/// Ghost image of a dependency.
pub ghost struct DependencyView {
    pub group_id: Seq<char>,
    pub artifact_id: Seq<char>,
    pub version: Seq<char>,
}

impl View for DependencyInfo {
    type V = DependencyView;

    open spec fn view(&self) -> DependencyView {
        DependencyView {
            group_id: self.group_id@,
            artifact_id: self.artifact_id@,
            version: self.version@,
        }
    }
}

pub open spec fn deps_view(v: Seq<DependencyInfo>) -> Seq<DependencyView> {
    Seq::new(v.len(), |i: int| v[i]@)
}

/// A dependency's version: the `<version>` text, resolved through the
/// `<properties>` element when it is a `${...}` placeholder naming a
/// property; empty when the element is missing.
pub open spec fn spec_dep_version(doc: XmlDoc, dep: int) -> Seq<char> {
    match spec_child_text(doc, dep, "version"@) {
        None => Seq::empty(),
        Some(vr) => {
            let key = spec_remove_all(spec_remove_all(vr, "${"@), "}"@);
            match spec_child_named(doc, 0, "properties"@, 0) {
                None => vr,
                Some(p) => match spec_child_named(doc, p, key, 0) {
                    None => vr,
                    Some(c) => if doc.nodes@[c].text@.len() > 0 {
                        doc.nodes@[c].text@
                    } else {
                        vr
                    },
                },
            }
        },
    }
}

/// The dependencies under node `deps` from node `k` on.
pub open spec fn spec_dependencies(doc: XmlDoc, deps: int, k: int) -> Seq<DependencyView>
    decreases doc.nodes@.len() - k,
{
    if k < 0 || k >= doc.nodes@.len() {
        seq![]
    } else {
        let rest = spec_dependencies(doc, deps, k + 1);
        if doc.spec_is_child(k, deps) && doc.nodes@[k].name@ == "dependency"@ {
            seq![
                DependencyView {
                    group_id: spec_child_text_or_empty(doc, k, "groupId"@),
                    artifact_id: spec_child_text_or_empty(doc, k, "artifactId"@),
                    version: spec_dep_version(doc, k),
                },
            ] + rest
        } else {
            rest
        }
    }
}

/// The dependency list of a parsed build descriptor.
pub open spec fn spec_collection_dependcy(doc: XmlDoc) -> Seq<DependencyView> {
    match spec_child_named(doc, 0, "dependencies"@, 0) {
        None => seq![],
        Some(d) => spec_dependencies(doc, d, 0),
    }
}

impl JAVAProject {
    /// The dependencies of the parsed build descriptor: each
    /// `<dependency>` under the root's `<dependencies>` element, with its
    /// group, artifact, and property-resolved version.
    pub fn collection_dependcy(doc: &XmlDoc) -> (r: Vec<DependencyInfo>)
        ensures
            deps_view(r@) == spec_collection_dependcy(*doc),
    {
        let deps = match child_named(doc, 0, "dependencies", 0) {
            None => {
                let r: Vec<DependencyInfo> = Vec::new();
                proof {
                    assert(deps_view(r@) =~= spec_collection_dependcy(*doc));
                }
                return r;
            },
            Some(d) => d,
        };
        let mut out: Vec<DependencyInfo> = Vec::new();
        let mut k: usize = 0;
        while k < doc.nodes.len()
            invariant
                k <= doc.nodes@.len(),
                Some(deps as int) == spec_child_named(*doc, 0, "dependencies"@, 0),
                spec_collection_dependcy(*doc) == deps_view(out@) + spec_dependencies(
                    *doc,
                    deps as int,
                    k as int,
                ),
            decreases doc.nodes@.len() - k,
        {
            let is_dep_child = match doc.nodes[k].parent {
                Some(q) => q == deps,
                None => false,
            };
            if is_dep_child && str_eq(doc.nodes[k].name.as_str(), "dependency") {
                let group_id = match child_text(doc, k, "groupId") {
                    Some(g) => g,
                    None => String::new(),
                };
                let artifact_id = match child_text(doc, k, "artifactId") {
                    Some(a) => a,
                    None => String::new(),
                };
                let version = dep_version(doc, k);
                let info = DependencyInfo { group_id, artifact_id, version };
                let ghost old_out = out@;
                out.push(info);
                proof {
                    assert(deps_view(out@) =~= deps_view(old_out) + seq![info@]);
                    assert(deps_view(out@) + spec_dependencies(*doc, deps as int, k as int + 1)
                        =~= deps_view(old_out) + spec_dependencies(*doc, deps as int, k as int));
                }
            }
            k = k + 1;
        }
        proof {
            assert(deps_view(out@) =~= deps_view(out@) + spec_dependencies(
                *doc,
                deps as int,
                k as int,
            ));
        }
        out
    }
}

/// Resolve one dependency's version text.
fn dep_version(doc: &XmlDoc, dep: usize) -> (r: String)
    ensures
        r@ == spec_dep_version(*doc, dep as int),
{
    let vr = match child_text(doc, dep, "version") {
        None => {
            let r = String::new();
            return r;
        },
        Some(v) => v,
    };
    let key = {
        let step1 = crate::strutil::str_remove_all(vr.as_str(), "${");
        crate::strutil::str_remove_all(step1.as_str(), "}")
    };
    match child_named(doc, 0, "properties", 0) {
        None => vr,
        Some(p) => match child_named(doc, p, key.as_str(), 0) {
            None => vr,
            Some(c) => {
                if doc.nodes[c].text.as_str().unicode_len() > 0 {
                    doc.nodes[c].text.clone()
                } else {
                    vr
                }
            },
        },
    }
}

} // verus!

verus! {

/// The servlet part of the endpoint list: empty without a web.xml.
pub open spec fn spec_web_part(web_doc: Option<XmlDoc>) -> Seq<Seq<char>> {
    match web_doc {
        None => seq![],
        Some(doc) => spec_servlet_urls(doc, 0),
    }
}

/// Struts URLs over a sequence of parsed descriptors, in order.
pub open spec fn spec_struts_docs(docs: Seq<XmlDoc>, k: int) -> Seq<Seq<char>>
    decreases docs.len() - k,
{
    if k < 0 || k >= docs.len() {
        seq![]
    } else {
        spec_struts_packages(docs[k], 0) + spec_struts_docs(docs, k + 1)
    }
}

/// Struts2 URLs over a sequence of parsed descriptors, in order.
pub open spec fn spec_struts2_docs(docs: Seq<XmlDoc>, k: int) -> Seq<Seq<char>>
    decreases docs.len() - k,
{
    if k < 0 || k >= docs.len() {
        seq![]
    } else {
        spec_struts2_packages(docs[k], 0) + spec_struts2_docs(docs, k + 1)
    }
}

/// The framework-specific part of the Java endpoint list.
pub open spec fn spec_java_framework_part(
    fw: crate::enums::Framwork,
    files: Seq<crate::model::FileView>,
    docs: Seq<XmlDoc>,
) -> Seq<Seq<char>> {
    match fw {
        crate::enums::Framwork::Spring => crate::spring::spec_spring_files(files, 0),
        crate::enums::Framwork::Struts => spec_struts_docs(docs, 0),
        crate::enums::Framwork::Struts2 => spec_struts2_docs(docs, 0),
        _ => seq![],
    }
}

/// The whole Java endpoint list: servlet mappings of web.xml, then the
/// framework strategy's URLs, then the JSP conventions.
pub open spec fn spec_java_interfaces(
    fw: crate::enums::Framwork,
    files: Seq<crate::model::FileView>,
    docs: Seq<XmlDoc>,
    web_doc: Option<XmlDoc>,
    work_dir: Seq<char>,
) -> Seq<Seq<char>> {
    spec_web_part(web_doc) + spec_java_framework_part(fw, files, docs) + spec_jsp(
        files.map_values(|f: crate::model::FileView| f.path),
        work_dir,
        0,
    )
}

impl JAVAProject {
    /// The Java endpoint list, dispatching on the framework strategy: the
    /// parsed web.xml's servlet mappings first, the framework's URLs next
    /// (Spring from the source files, Struts and Struts2 from the parsed
    /// descriptors handed in), the JSP paths last.
    pub fn collection_interface(
        path_list: &Vec<SourceFile>,
        framework_docs: &Vec<XmlDoc>,
        web_doc: &Option<XmlDoc>,
        framework: &crate::enums::Framwork,
        work_dir: &str,
    ) -> (r: crate::model::Interfaces)
        requires
            framework is Spring || framework is Struts || framework is Struts2
                || framework is Unspecified,
        ensures
            lines_view(r@) == spec_java_interfaces(
                *framework,
                files_view(path_list@),
                framework_docs@,
                *web_doc,
                work_dir@,
            ),
    {
        let ghost fv = files_view(path_list@);
        let mut out: Vec<String> = match web_doc {
            Some(doc) => Self::collection_java_interface_doc(doc),
            None => Vec::new(),
        };
        proof {
            assert(lines_view(out@) =~= spec_web_part(*web_doc));
        }
        let ghost web_done = lines_view(out@);
        let mut fw_part: Vec<String> = match framework {
            crate::enums::Framwork::Spring => Self::collection_spring(path_list),
            crate::enums::Framwork::Struts => {
                let mut acc: Vec<String> = Vec::new();
                let mut k: usize = 0;
                while k < framework_docs.len()
                    invariant
                        k <= framework_docs@.len(),
                        spec_struts_docs(framework_docs@, 0) == lines_view(acc@)
                            + spec_struts_docs(framework_docs@, k as int),
                    decreases framework_docs@.len() - k,
                {
                    let mut urls = Self::collection_struts_doc(&framework_docs[k]);
                    let ghost old_acc = lines_view(acc@);
                    let ghost new_urls = lines_view(urls@);
                    acc.append(&mut urls);
                    proof {
                        assert(lines_view(acc@) =~= old_acc + new_urls);
                        assert(old_acc + new_urls + spec_struts_docs(
                            framework_docs@,
                            k as int + 1,
                        ) =~= old_acc + spec_struts_docs(framework_docs@, k as int));
                    }
                    k = k + 1;
                }
                proof {
                    assert(lines_view(acc@) =~= lines_view(acc@) + spec_struts_docs(
                        framework_docs@,
                        k as int,
                    ));
                }
                acc
            },
            crate::enums::Framwork::Struts2 => {
                let mut acc: Vec<String> = Vec::new();
                let mut k: usize = 0;
                while k < framework_docs.len()
                    invariant
                        k <= framework_docs@.len(),
                        spec_struts2_docs(framework_docs@, 0) == lines_view(acc@)
                            + spec_struts2_docs(framework_docs@, k as int),
                    decreases framework_docs@.len() - k,
                {
                    let mut urls = Self::collection_struts2_doc(&framework_docs[k]);
                    let ghost old_acc = lines_view(acc@);
                    let ghost new_urls = lines_view(urls@);
                    acc.append(&mut urls);
                    proof {
                        assert(lines_view(acc@) =~= old_acc + new_urls);
                        assert(old_acc + new_urls + spec_struts2_docs(
                            framework_docs@,
                            k as int + 1,
                        ) =~= old_acc + spec_struts2_docs(framework_docs@, k as int));
                    }
                    k = k + 1;
                }
                proof {
                    assert(lines_view(acc@) =~= lines_view(acc@) + spec_struts2_docs(
                        framework_docs@,
                        k as int,
                    ));
                }
                acc
            },
            _ => Vec::new(),
        };
        proof {
            assert(lines_view(fw_part@) =~= spec_java_framework_part(
                *framework,
                fv,
                framework_docs@,
            ));
        }
        let ghost fw_done = lines_view(fw_part@);
        out.append(&mut fw_part);
        proof {
            assert(lines_view(out@) =~= web_done + fw_done);
        }
        // JSP paths from the scanned file list.
        let mut paths: Vec<String> = Vec::new();
        let mut k: usize = 0;
        while k < path_list.len()
            invariant
                k <= path_list@.len(),
                fv == files_view(path_list@),
                fv.len() == path_list@.len(),
                lines_view(paths@) == fv.map_values(|f: crate::model::FileView| f.path).subrange(
                    0,
                    k as int,
                ),
            decreases path_list@.len() - k,
        {
            let p = path_list[k].path.clone();
            let ghost old_paths = paths@;
            paths.push(p);
            proof {
                lemma_lines_view_push(old_paths, p);
                assert(lines_view(paths@) =~= fv.map_values(
                    |f: crate::model::FileView| f.path,
                ).subrange(0, k as int + 1));
            }
            k = k + 1;
        }
        proof {
            assert(fv.map_values(|f: crate::model::FileView| f.path).subrange(
                0,
                path_list@.len() as int,
            ) =~= fv.map_values(|f: crate::model::FileView| f.path));
        }
        let mut jsp = Self::collection_jsp(paths, work_dir);
        let ghost jsp_done = lines_view(jsp@);
        let ghost pre_jsp = lines_view(out@);
        out.append(&mut jsp);
        proof {
            assert(lines_view(out@) =~= pre_jsp + jsp_done);
            assert(lines_view(out@) =~= spec_java_interfaces(
                *framework,
                fv,
                framework_docs@,
                *web_doc,
                work_dir@,
            ));
        }
        out
    }
}

/// Re-running Java extraction against an unchanged file tree and the same
/// parsed descriptors yields the identical endpoint list, in the same
/// order: the strategy is a function of its inputs, with no hidden
/// nondeterminism.
pub proof fn lemma_java_extraction_idempotent(
    fw: crate::enums::Framwork,
    files: Seq<crate::model::FileView>,
    docs: Seq<XmlDoc>,
    web_doc: Option<XmlDoc>,
    work_dir: Seq<char>,
    r1: Seq<Seq<char>>,
    r2: Seq<Seq<char>>,
)
    requires
        r1 == spec_java_interfaces(fw, files, docs, web_doc, work_dir),
        r2 == spec_java_interfaces(fw, files, docs, web_doc, work_dir),
    ensures
        r1 == r2,
{
}

} // verus!
