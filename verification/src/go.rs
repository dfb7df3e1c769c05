//! Endpoint extraction for Go projects: router registration calls of the
//! form `router.METHOD("path", handler)` for the standard HTTP verbs.
use vstd::prelude::*;
use crate::model::{files_view, lemma_lines_view_push, lines_view, FileView, SourceFile};
use crate::project::GOProject;
use crate::strutil::{chars_to_string, copy_range_chars, find_char, lemma_find_char_props,
    match_at, match_at_exec, skip_spaces, spec_find_char, spec_skip_spaces, to_chars};

verus! {

/// A router registration starting at `i`: `router.` followed by one of the
/// HTTP verbs, `(`, optional whitespace, a double-quoted path without a
/// newline, optional whitespace, `,`, optional whitespace again (line
/// breaks allowed), and a `)` before the next line break. The result is
/// the end of the match and the captured path.
pub open spec fn spec_go_route_at(s: Seq<char>, i: int) -> Option<(int, Seq<char>)> {
    if !match_at(s, "router."@, i) {
        None
    } else {
        let v = i + 7;
        if match_at(s, "GET"@, v) {
            spec_go_route_tail(s, v + 3)
        } else if match_at(s, "POST"@, v) {
            spec_go_route_tail(s, v + 4)
        } else if match_at(s, "PUT"@, v) {
            spec_go_route_tail(s, v + 3)
        } else if match_at(s, "DELETE"@, v) {
            spec_go_route_tail(s, v + 6)
        } else if match_at(s, "PATCH"@, v) {
            spec_go_route_tail(s, v + 5)
        } else if match_at(s, "OPTIONS"@, v) {
            spec_go_route_tail(s, v + 7)
        } else if match_at(s, "HEAD"@, v) {
            spec_go_route_tail(s, v + 4)
        } else {
            None
        }
    }
}

/// The part after the verb: `(`, optional whitespace, a double-quoted
/// path without a newline, optional whitespace, `,`, optional whitespace
/// again (line breaks allowed), then anything up to a `)` with no newline
/// once the whitespace ends.
pub open spec fn spec_go_route_tail(s: Seq<char>, p: int) -> Option<(int, Seq<char>)> {
    if !(0 <= p && p < s.len() && s[p] == '(') {
        None
    } else {
        let q = spec_skip_spaces(s, p + 1);
        if !(q < s.len() && s[q] == '"') {
            None
        } else {
            match spec_find_char(s, '"', q + 1) {
                None => None,
                Some(e) => if !newline_free(s, q + 1, e) {
                    None
                } else {
                    let r = spec_skip_spaces(s, e + 1);
                    if !(r < s.len() && s[r] == ',') {
                        None
                    } else {
                        let t = spec_skip_spaces(s, r + 1);
                        match spec_find_char(s, ')', t) {
                            None => None,
                            Some(u) => if newline_free(s, t, u) {
                                Some((u + 1, s.subrange(q + 1, e)))
                            } else {
                                None
                            },
                        }
                    }
                },
            }
        }
    }
}

/// No newline in `s[from..to)`.
pub open spec fn newline_free(s: Seq<char>, from: int, to: int) -> bool {
    forall|m: int| from <= m < to && 0 <= m < s.len() ==> s[m] != '\n'
}

/// All captured paths of the registrations in `s`, scanning from `i`,
/// non-overlapping and left to right.
pub open spec fn spec_go_scan(s: Seq<char>, i: int) -> Seq<Seq<char>>
    decreases s.len() - i,
{
    if i < 0 || i >= s.len() {
        seq![]
    } else {
        match spec_go_route_at(s, i) {
            None => spec_go_scan(s, i + 1),
            Some((end, cap)) => {
                let j = if i < end && end <= s.len() {
                    end
                } else {
                    i + 1
                };
                seq![cap] + spec_go_scan(s, j)
            },
        }
    }
}

/// The registrations of every file, in file order.
pub open spec fn spec_go_files(files: Seq<FileView>, k: int) -> Seq<Seq<char>>
    decreases files.len() - k,
{
    if k < 0 || k >= files.len() {
        seq![]
    } else {
        spec_go_scan(files[k].content, 0) + spec_go_files(files, k + 1)
    }
}

/// Try to match one registration at position `i`.
fn go_route_at(s: &Vec<char>, i: usize) -> (r: Option<(usize, Vec<char>)>)
    requires
        i < s@.len(),
    ensures
        match r {
            Some((end, cap)) => spec_go_route_at(s@, i as int) == Some(
                (end as int, cap@),
            ) && i < end <= s@.len(),
            None => spec_go_route_at(s@, i as int) is None,
        },
{
    let n = s.len();
    let router_lit = to_chars("router.");
    proof {
        reveal_strlit("router.");
    }
    if !match_at_exec(s, &router_lit, i) {
        return None;
    }
    let v = i + 7;
    let mut verb_end: usize = 0;
    let mut found = false;
    proof {
        reveal_strlit("GET");
        reveal_strlit("POST");
        reveal_strlit("PUT");
        reveal_strlit("DELETE");
        reveal_strlit("PATCH");
        reveal_strlit("OPTIONS");
        reveal_strlit("HEAD");
    }
    let g = to_chars("GET");
    let po = to_chars("POST");
    let pu = to_chars("PUT");
    let d = to_chars("DELETE");
    let pa = to_chars("PATCH");
    let o = to_chars("OPTIONS");
    let h = to_chars("HEAD");
    if match_at_exec(s, &g, v) {
        verb_end = v + 3;
        found = true;
    } else if match_at_exec(s, &po, v) {
        verb_end = v + 4;
        found = true;
    } else if match_at_exec(s, &pu, v) {
        verb_end = v + 3;
        found = true;
    } else if match_at_exec(s, &d, v) {
        verb_end = v + 6;
        found = true;
    } else if match_at_exec(s, &pa, v) {
        verb_end = v + 5;
        found = true;
    } else if match_at_exec(s, &o, v) {
        verb_end = v + 7;
        found = true;
    } else if match_at_exec(s, &h, v) {
        verb_end = v + 4;
        found = true;
    }
    if !found {
        return None;
    }
    go_route_tail(s, verb_end)
}

/// Match the `("path", handler)` tail from position `p` (at the `(`).
fn go_route_tail(s: &Vec<char>, p: usize) -> (r: Option<(usize, Vec<char>)>)
    requires
        p <= s@.len(),
    ensures
        match r {
            Some((end, cap)) => spec_go_route_tail(s@, p as int) == Some(
                (end as int, cap@),
            ) && p < end <= s@.len(),
            None => spec_go_route_tail(s@, p as int) is None,
        },
{
    if !(p < s.len() && s[p] == '(') {
        return None;
    }
    let q = skip_spaces(s, p + 1);
    if !(q < s.len() && s[q] == '"') {
        return None;
    }
    proof {
        lemma_find_char_props(s@, '"', q as int + 1);
    }
    let e = match find_char(s, '"', q + 1) {
        None => {
            return None;
        },
        Some(e) => e,
    };
    proof {
        lemma_find_char_props(s@, '\n', q as int + 1);
    }
    match find_char(s, '\n', q + 1) {
        Some(nl) => {
            if nl < e {
                proof {
                    assert(!newline_free(s@, q as int + 1, e as int));
                }
                return None;
            }
        },
        None => {},
    }
    proof {
        assert(newline_free(s@, q as int + 1, e as int));
    }
    let r = skip_spaces(s, e + 1);
    if !(r < s.len() && s[r] == ',') {
        return None;
    }
    let t = skip_spaces(s, r + 1);
    proof {
        lemma_find_char_props(s@, ')', t as int);
    }
    let u = match find_char(s, ')', t) {
        None => {
            return None;
        },
        Some(u) => u,
    };
    proof {
        lemma_find_char_props(s@, '\n', t as int);
    }
    match find_char(s, '\n', t) {
        Some(nl) => {
            if nl < u {
                proof {
                    assert(!newline_free(s@, t as int, u as int));
                }
                return None;
            }
        },
        None => {},
    }
    proof {
        assert(newline_free(s@, t as int, u as int));
    }
    let cap = copy_range_chars(s, q + 1, e);
    Some((u + 1, cap))
}

impl GOProject {
    /// The registered router paths of one Go source text.
    pub fn collection_go_routes(content: &str) -> (r: Vec<String>)
        ensures
            lines_view(r@) == spec_go_scan(content@, 0),
    {
        let s = to_chars(content);
        let mut out: Vec<String> = Vec::new();
        let mut i: usize = 0;
        loop
            invariant
                s@ == content@,
                spec_go_scan(content@, 0) == lines_view(out@) + spec_go_scan(
                    content@,
                    i as int,
                ),
            decreases s@.len() + 1 - i,
        {
            if i >= s.len() {
                proof {
                    assert(lines_view(out@) =~= lines_view(out@) + spec_go_scan(
                        content@,
                        i as int,
                    ));
                }
                return out;
            }
            match go_route_at(&s, i) {
                Some((end, cap)) => {
                    let cap_s = chars_to_string(&cap);
                    let ghost old_out = out@;
                    out.push(cap_s);
                    proof {
                        lemma_lines_view_push(old_out, cap_s);
                        assert(lines_view(out@) + spec_go_scan(content@, end as int)
                            =~= lines_view(old_out) + spec_go_scan(content@, i as int));
                    }
                    i = end;
                },
                None => {
                    i = i + 1;
                },
            }
        }
    }

    /// The registered router paths of every file, in file order.
    pub fn collection_interface(path_list: &Vec<SourceFile>) -> (r: Vec<String>)
        ensures
            lines_view(r@) == spec_go_files(files_view(path_list@), 0),
    {
        let ghost fv = files_view(path_list@);
        let mut out: Vec<String> = Vec::new();
        let mut k: usize = 0;
        while k < path_list.len()
            invariant
                k <= path_list@.len(),
                fv == files_view(path_list@),
                fv.len() == path_list@.len(),
                spec_go_files(fv, 0) == lines_view(out@) + spec_go_files(fv, k as int),
            decreases path_list@.len() - k,
        {
            proof {
                assert(fv[k as int] == path_list@[k as int]@);
            }
            let mut urls = Self::collection_go_routes(path_list[k].content.as_str());
            let ghost old_out = lines_view(out@);
            let ghost new_urls = lines_view(urls@);
            out.append(&mut urls);
            proof {
                assert(lines_view(out@) =~= old_out + new_urls);
                assert(old_out + new_urls + spec_go_files(fv, k as int + 1) =~= old_out
                    + spec_go_files(fv, k as int));
            }
            k = k + 1;
        }
        proof {
            assert(lines_view(out@) =~= lines_view(out@) + spec_go_files(fv, k as int));
        }
        out
    }
}

} // verus!

verus! {

/// Re-running Go extraction against an unchanged file tree yields the
/// identical endpoint list, in the same order.
pub proof fn lemma_go_extraction_idempotent(
    files: Seq<FileView>,
    r1: Seq<Seq<char>>,
    r2: Seq<Seq<char>>,
)
    requires
        r1 == spec_go_files(files, 0),
        r2 == spec_go_files(files, 0),
    ensures
        r1 == r2,
{
}

} // verus!
