//! Endpoint extraction for Spring projects: mapping annotations in source
//! text. An optional class-level `@RequestMapping("...")` sets a prefix;
//! every `@{Post,Get,Put,Delete,Request}Mapping(...)` annotation
//! contributes its URL argument (a quoted string or a `name = "..."`
//! argument), except one exactly equal to the class prefix. Argument
//! names are ASCII words (see `strutil::spec_is_word`), deliberately.
use vstd::prelude::*;
use crate::model::{files_view, lemma_lines_view_push, lines_view, FileView, SourceFile};
use crate::project::JAVAProject;
use crate::strutil::{chars_to_string, contains_chars, copy_range_chars, find_char,
    lemma_find_char_props, match_at, match_at_exec, remove_all_chars, skip_spaces, skip_word,
    spec_contains, spec_find_char, spec_is_word, spec_remove_all, spec_skip_spaces,
    spec_skip_word, spec_starts_with, starts_with_chars, to_chars, is_word};

verus! {

/// A class-level mapping `@RequestMapping\s*("...")` at `i`; the result is
/// the quoted capture.
pub open spec fn spec_req_mapping_at(s: Seq<char>, i: int) -> Option<Seq<char>> {
    if !match_at(s, "@RequestMapping"@, i) {
        None
    } else {
        let j = spec_skip_spaces(s, i + 15);
        if !(j + 1 < s.len() && s[j] == '(' && s[j + 1] == '"') {
            None
        } else {
            match spec_find_char(s, '"', j + 2) {
                None => None,
                Some(k) => if k + 1 < s.len() && s[k + 1] == ')' {
                    Some(s.subrange(j + 2, k))
                } else {
                    None
                },
            }
        }
    }
}

/// The first class-level capture in `s`, scanning from `i`.
pub open spec fn spec_class_prefix_raw(s: Seq<char>, i: int) -> Option<Seq<char>>
    decreases s.len() - i,
{
    if i < 0 || i >= s.len() {
        None
    } else {
        match spec_req_mapping_at(s, i) {
            Some(cap) => Some(cap),
            None => spec_class_prefix_raw(s, i + 1),
        }
    }
}

/// The class prefix: the first capture, with a leading `/` added when it
/// is missing; empty when no class-level mapping exists.
pub open spec fn spec_class_prefix(s: Seq<char>) -> Seq<char> {
    match spec_class_prefix_raw(s, 0) {
        None => Seq::empty(),
        Some(cap) => if spec_starts_with(cap, "/"@) {
            cap
        } else {
            seq!['/'] + cap
        },
    }
}

/// A method-level mapping annotation at `i`; the result is the position
/// after its closing `)`, which must come before any newline.
pub open spec fn spec_ann_at(s: Seq<char>, i: int) -> Option<int> {
    if match_at(s, "@PostMapping("@, i) {
        spec_ann_end(s, i + 13)
    } else if match_at(s, "@GetMapping("@, i) {
        spec_ann_end(s, i + 12)
    } else if match_at(s, "@PutMapping("@, i) {
        spec_ann_end(s, i + 12)
    } else if match_at(s, "@DeleteMapping("@, i) {
        spec_ann_end(s, i + 15)
    } else if match_at(s, "@RequestMapping("@, i) {
        spec_ann_end(s, i + 16)
    } else {
        None
    }
}

pub open spec fn spec_ann_end(s: Seq<char>, c: int) -> Option<int> {
    match spec_find_char(s, ')', c) {
        None => None,
        Some(k) => match spec_find_char(s, '\n', c) {
            None => Some(k + 1),
            Some(nl) => if k < nl {
                Some(k + 1)
            } else {
                None
            },
        },
    }
}

/// The URL argument starting at `p` of the annotation text: either a
/// quoted string of at least one character, or a word, `=`, and such a
/// quoted string, whitespace allowed around the `=`. The result includes
/// the quotes and the name part, as matched.
pub open spec fn spec_url_tok_at(a: Seq<char>, p: int) -> Option<Seq<char>> {
    if !(0 <= p && p < a.len()) {
        None
    } else if a[p] == '"' {
        match spec_find_char(a, '"', p + 1) {
            Some(q) => if q > p + 1 {
                Some(a.subrange(p, q + 1))
            } else {
                None
            },
            None => None,
        }
    } else if spec_is_word(a[p]) {
        let w = spec_skip_word(a, p);
        let sp = spec_skip_spaces(a, w);
        if !(sp < a.len() && a[sp] == '=') {
            None
        } else {
            let sp2 = spec_skip_spaces(a, sp + 1);
            if !(sp2 < a.len() && a[sp2] == '"') {
                None
            } else {
                match spec_find_char(a, '"', sp2 + 1) {
                    Some(q) => if q > sp2 + 1 {
                        Some(a.subrange(p, q + 1))
                    } else {
                        None
                    },
                    None => None,
                }
            }
        }
    } else {
        None
    }
}

/// The first URL argument of the annotation, scanning from `p`.
pub open spec fn spec_url_tok(a: Seq<char>, p: int) -> Option<Seq<char>>
    decreases a.len() - p,
{
    if p < 0 || p >= a.len() {
        None
    } else {
        match spec_url_tok_at(a, p) {
            Some(t) => Some(t),
            None => spec_url_tok(a, p + 1),
        }
    }
}

/// The cleanup applied to the matched argument: every quote, space, and
/// `value=` occurrence removed, in that order.
pub open spec fn spec_clean_url(t: Seq<char>) -> Seq<char> {
    spec_remove_all(spec_remove_all(spec_remove_all(t, "\""@), " "@), "value="@)
}

/// The URL one annotation contributes under class prefix `pf`: the cleaned
/// argument, suppressed when it equals the prefix, else the prefix plus
/// the `/`-normalised argument.
pub open spec fn spec_ann_url(a: Seq<char>, pf: Seq<char>) -> Option<Seq<char>> {
    match spec_url_tok(a, 0) {
        None => None,
        Some(t) => {
            let u = spec_clean_url(t);
            if u == pf {
                None
            } else {
                Some(
                    pf + (if spec_starts_with(u, "/"@) {
                        u
                    } else {
                        seq!['/'] + u
                    }),
                )
            }
        },
    }
}

/// A method-level mapping whose cleaned URL argument equals the class
/// prefix contributes no endpoint: the bare class annotation is never
/// double-counted.
pub proof fn lemma_prefix_mapping_suppressed(a: Seq<char>, pf: Seq<char>)
    requires
        spec_url_tok(a, 0) matches Some(t) && spec_clean_url(t) == pf,
    ensures
        spec_ann_url(a, pf) is None,
{
}

/// All URLs of the annotations in `s`, non-overlapping, left to right.
pub open spec fn spec_spring_scan(s: Seq<char>, pf: Seq<char>, i: int) -> Seq<Seq<char>>
    decreases s.len() - i,
{
    if i < 0 || i >= s.len() {
        seq![]
    } else {
        match spec_ann_at(s, i) {
            None => spec_spring_scan(s, pf, i + 1),
            Some(end) => {
                let j = if i < end && end <= s.len() {
                    end
                } else {
                    i + 1
                };
                let a = s.subrange(i, j);
                (match spec_ann_url(a, pf) {
                    Some(u) => seq![u],
                    None => seq![],
                }) + spec_spring_scan(s, pf, j)
            },
        }
    }
}

/// The Spring endpoints of one source text: nothing unless the text
/// mentions `@RequestMapping` at all (a deliberate pre-filter), else the
/// annotation scan under the class prefix.
pub open spec fn spec_spring_file(content: Seq<char>) -> Seq<Seq<char>> {
    if spec_contains(content, "@RequestMapping"@) {
        spec_spring_scan(content, spec_class_prefix(content), 0)
    } else {
        seq![]
    }
}

pub open spec fn spec_spring_files(files: Seq<FileView>, k: int) -> Seq<Seq<char>>
    decreases files.len() - k,
{
    if k < 0 || k >= files.len() {
        seq![]
    } else {
        spec_spring_file(files[k].content) + spec_spring_files(files, k + 1)
    }
}

/// Class-level mapping match at one position.
fn req_mapping_at(s: &Vec<char>, i: usize) -> (r: Option<Vec<char>>)
    requires
        i < s@.len(),
    ensures
        match r {
            Some(cap) => spec_req_mapping_at(s@, i as int) == Some(cap@),
            None => spec_req_mapping_at(s@, i as int) is None,
        },
{
    proof {
        reveal_strlit("@RequestMapping");
    }
    let n = s.len();
    let lit = to_chars("@RequestMapping");
    if !match_at_exec(s, &lit, i) {
        return None;
    }
    let j = skip_spaces(s, i + 15);
    if j >= n || j + 1 >= n || s[j] != '(' || s[j + 1] != '"' {
        return None;
    }
    proof {
        lemma_find_char_props(s@, '"', j as int + 2);
    }
    match find_char(s, '"', j + 2) {
        None => None,
        Some(k) => {
            if k + 1 < n && s[k + 1] == ')' {
                Some(copy_range_chars(s, j + 2, k))
            } else {
                None
            }
        },
    }
}

/// The class prefix of one source text.
fn class_prefix(s: &Vec<char>) -> (r: Vec<char>)
    ensures
        r@ == spec_class_prefix(s@),
{
    let mut i: usize = 0;
    while i < s.len()
        invariant
            i <= s@.len(),
            spec_class_prefix_raw(s@, 0) == spec_class_prefix_raw(s@, i as int),
        decreases s@.len() - i,
    {
        match req_mapping_at(s, i) {
            Some(cap) => {
                proof {
                    reveal_strlit("/");
                }
                let slash = to_chars("/");
                if starts_with_chars(&cap, &slash) {
                    return cap;
                }
                let mut out: Vec<char> = Vec::new();
                out.push('/');
                let mut cap_copy = cap;
                out.append(&mut cap_copy);
                proof {
                    assert(out@ =~= seq!['/'] + spec_class_prefix_raw(s@, 0).unwrap());
                }
                return out;
            },
            None => {},
        }
        i = i + 1;
    }
    proof {
        assert(spec_class_prefix(s@) =~= Seq::<char>::empty());
    }
    Vec::new()
}

/// Method-level annotation match at one position.
fn ann_at(s: &Vec<char>, i: usize) -> (r: Option<usize>)
    requires
        i < s@.len(),
    ensures
        match r {
            Some(end) => spec_ann_at(s@, i as int) == Some(end as int) && i < end <= s@.len(),
            None => spec_ann_at(s@, i as int) is None,
        },
{
    proof {
        reveal_strlit("@PostMapping(");
        reveal_strlit("@GetMapping(");
        reveal_strlit("@PutMapping(");
        reveal_strlit("@DeleteMapping(");
        reveal_strlit("@RequestMapping(");
    }
    let n = s.len();
    let post_l = to_chars("@PostMapping(");
    let get_l = to_chars("@GetMapping(");
    let put_l = to_chars("@PutMapping(");
    let delete_l = to_chars("@DeleteMapping(");
    let request_l = to_chars("@RequestMapping(");
    let c: usize = if match_at_exec(s, &post_l, i) {
        i + 13
    } else if match_at_exec(s, &get_l, i) {
        i + 12
    } else if match_at_exec(s, &put_l, i) {
        i + 12
    } else if match_at_exec(s, &delete_l, i) {
        i + 15
    } else if match_at_exec(s, &request_l, i) {
        i + 16
    } else {
        return None;
    };
    proof {
        lemma_find_char_props(s@, ')', c as int);
        lemma_find_char_props(s@, '\n', c as int);
    }
    match find_char(s, ')', c) {
        None => None,
        Some(k) => match find_char(s, '\n', c) {
            None => Some(k + 1),
            Some(nl) => if k < nl {
                Some(k + 1)
            } else {
                None
            },
        },
    }
}

/// URL-argument match at one position of the annotation text.
fn url_tok_at(a: &Vec<char>, p: usize) -> (r: Option<Vec<char>>)
    requires
        p < a@.len(),
    ensures
        match r {
            Some(t) => spec_url_tok_at(a@, p as int) == Some(t@),
            None => spec_url_tok_at(a@, p as int) is None,
        },
{
    let n = a.len();
    if a[p] == '"' {
        proof {
            lemma_find_char_props(a@, '"', p as int + 1);
        }
        match find_char(a, '"', p + 1) {
            Some(q) => {
                if q > p + 1 {
                    Some(copy_range_chars(a, p, q + 1))
                } else {
                    None
                }
            },
            None => None,
        }
    } else if is_word(a[p]) {
        let w = skip_word(a, p);
        let sp = skip_spaces(a, w);
        if !(sp < n && a[sp] == '=') {
            return None;
        }
        let sp2 = skip_spaces(a, sp + 1);
        if !(sp2 < n && a[sp2] == '"') {
            return None;
        }
        proof {
            lemma_find_char_props(a@, '"', sp2 as int + 1);
        }
        match find_char(a, '"', sp2 + 1) {
            Some(q) => {
                if q > sp2 + 1 {
                    Some(copy_range_chars(a, p, q + 1))
                } else {
                    None
                }
            },
            None => None,
        }
    } else {
        None
    }
}

/// First URL argument of the annotation text.
fn url_tok(a: &Vec<char>) -> (r: Option<Vec<char>>)
    ensures
        match r {
            Some(t) => spec_url_tok(a@, 0) == Some(t@),
            None => spec_url_tok(a@, 0) is None,
        },
{
    let mut p: usize = 0;
    while p < a.len()
        invariant
            p <= a@.len(),
            spec_url_tok(a@, 0) == spec_url_tok(a@, p as int),
        decreases a@.len() - p,
    {
        match url_tok_at(a, p) {
            Some(t) => {
                return Some(t);
            },
            None => {},
        }
        p = p + 1;
    }
    None
}

/// Character-wise equality of two vectors.
fn chars_eq(a: &Vec<char>, b: &Vec<char>) -> (r: bool)
    ensures
        r == (a@ == b@),
{
    if a.len() != b.len() {
        return false;
    }
    if match_at_exec(a, b, 0) {
        proof {
            assert(a@.subrange(0, b@.len() as int) =~= a@);
        }
        true
    } else {
        proof {
            if a@ == b@ {
                assert(a@.subrange(0, b@.len() as int) =~= b@);
            }
        }
        false
    }
}

/// The URL one annotation contributes.
fn ann_url(a: &Vec<char>, pf: &Vec<char>) -> (r: Option<Vec<char>>)
    ensures
        match r {
            Some(u) => spec_ann_url(a@, pf@) == Some(u@),
            None => spec_ann_url(a@, pf@) is None,
        },
{
    proof {
        reveal_strlit("\"");
        reveal_strlit(" ");
        reveal_strlit("value=");
        reveal_strlit("/");
    }
    match url_tok(a) {
        None => None,
        Some(t) => {
            let quote_l = to_chars("\"");
            let space_l = to_chars(" ");
            let value_l = to_chars("value=");
            let u0 = remove_all_chars(&t, &quote_l);
            let u1 = remove_all_chars(&u0, &space_l);
            let u = remove_all_chars(&u1, &value_l);
            if chars_eq(&u, pf) {
                return None;
            }
            let slash = to_chars("/");
            let mut out = pf.clone();
            if starts_with_chars(&u, &slash) {
                let mut u_copy = u;
                out.append(&mut u_copy);
                proof {
                    assert(out@ =~= pf@ + spec_clean_url(spec_url_tok(a@, 0).unwrap()));
                }
                Some(out)
            } else {
                out.push('/');
                let mut u_copy = u;
                out.append(&mut u_copy);
                proof {
                    assert(out@ =~= pf@ + (seq!['/'] + spec_clean_url(
                        spec_url_tok(a@, 0).unwrap(),
                    )));
                }
                Some(out)
            }
        },
    }
}

impl JAVAProject {
    /// The Spring endpoints of one source text.
    pub fn collection_spring_file(content: &str) -> (r: Vec<String>)
        ensures
            lines_view(r@) == spec_spring_file(content@),
    {
        let s = to_chars(content);
        let req_l = to_chars("@RequestMapping");
        proof {
            reveal_strlit("@RequestMapping");
        }
        if !contains_chars(&s, &req_l) {
            let r: Vec<String> = Vec::new();
            proof {
                assert(lines_view(r@) =~= spec_spring_file(content@));
            }
            return r;
        }
        let pf = class_prefix(&s);
        let mut out: Vec<String> = Vec::new();
        let mut i: usize = 0;
        while i < s.len()
            invariant
                s@ == content@,
                i <= s@.len(),
                pf@ == spec_class_prefix(content@),
                spec_spring_scan(content@, pf@, 0) == lines_view(out@) + spec_spring_scan(
                    content@,
                    pf@,
                    i as int,
                ),
            decreases s@.len() - i,
        {
            match ann_at(&s, i) {
                None => {
                    i = i + 1;
                },
                Some(end) => {
                    let a = copy_range_chars(&s, i, end);
                    match ann_url(&a, &pf) {
                        Some(u) => {
                            let u_s = chars_to_string(&u);
                            let ghost old_out = out@;
                            out.push(u_s);
                            proof {
                                lemma_lines_view_push(old_out, u_s);
                                assert(lines_view(out@) + spec_spring_scan(
                                    content@,
                                    pf@,
                                    end as int,
                                ) =~= lines_view(old_out) + spec_spring_scan(
                                    content@,
                                    pf@,
                                    i as int,
                                ));
                            }
                        },
                        None => {
                            proof {
                                assert(lines_view(out@) + spec_spring_scan(
                                    content@,
                                    pf@,
                                    end as int,
                                ) =~= lines_view(out@) + spec_spring_scan(
                                    content@,
                                    pf@,
                                    i as int,
                                ));
                            }
                        },
                    }
                    i = end;
                },
            }
        }
        proof {
            assert(lines_view(out@) =~= lines_view(out@) + spec_spring_scan(
                content@,
                pf@,
                i as int,
            ));
        }
        out
    }

    /// The Spring endpoints of the given source files, in file order.
    pub fn collection_spring(path_list: &Vec<SourceFile>) -> (r: Vec<String>)
        ensures
            lines_view(r@) == spec_spring_files(files_view(path_list@), 0),
    {
        let ghost fv = files_view(path_list@);
        let mut out: Vec<String> = Vec::new();
        let mut k: usize = 0;
        while k < path_list.len()
            invariant
                k <= path_list@.len(),
                fv == files_view(path_list@),
                fv.len() == path_list@.len(),
                spec_spring_files(fv, 0) == lines_view(out@) + spec_spring_files(fv, k as int),
            decreases path_list@.len() - k,
        {
            proof {
                assert(fv[k as int] == path_list@[k as int]@);
            }
            let mut urls = Self::collection_spring_file(path_list[k].content.as_str());
            let ghost old_out = lines_view(out@);
            let ghost new_urls = lines_view(urls@);
            out.append(&mut urls);
            proof {
                assert(lines_view(out@) =~= old_out + new_urls);
                assert(old_out + new_urls + spec_spring_files(fv, k as int + 1) =~= old_out
                    + spec_spring_files(fv, k as int));
            }
            k = k + 1;
        }
        proof {
            assert(lines_view(out@) =~= lines_view(out@) + spec_spring_files(fv, k as int));
        }
        out
    }
}

} // verus!
