//! Endpoint extraction for PHP projects: the Laravel line-oriented prefix
//! scan, the ThinkPHP route/convention passes, and the native
//! request-handling file filter. Class and method names are ASCII words
//! (see `strutil::spec_is_word`), deliberately.
use vstd::prelude::*;
use crate::model::{files_view, lemma_lines_view_push, lines_view, Config, FileView, SourceFile};
use crate::project::PHPProject;
use crate::rulecheck::{spec_split_lines, split_lines};
use crate::strutil::{chars_to_string, contains_chars, copy_range_chars, find_char, find_from,
    find_quote, is_alpha, is_space, is_word, lemma_find_char_props, lemma_find_props, lower_chars,
    match_at, match_at_exec, remove_all_chars, skip_alpha, skip_spaces, skip_word,
    spec_contains, spec_find, spec_find_char, spec_find_quote, spec_is_alpha, spec_is_space,
    spec_is_upper, spec_is_word, spec_lower, spec_remove_all, spec_skip_alpha, spec_skip_spaces,
    spec_skip_word, spec_starts_with, starts_with_chars, to_chars};

verus! {

// ------------------------------------------------------------------
// Laravel: a line-oriented scan with a mutable group prefix. A
// `Route::prefix('X')` line sets the prefix to X, a `Route::get('Y')`
// line emits `prefix/Y`, and a `Route::group(` line resets the prefix
// to empty without restoring the previous one (no nesting stack).
// ------------------------------------------------------------------

/// The scan state: the current group prefix and the URLs emitted so far.
pub ghost struct LaravelState {
    pub prefix: Seq<char>,
    pub urls: Seq<Seq<char>>,
}

/// One line's effect on the state.
pub open spec fn spec_laravel_line(st: LaravelState, line: Seq<char>) -> LaravelState {
    if spec_starts_with(line, "Route::prefix('"@) {
        let rest = line.subrange(15, line.len() as int);
        let part = match spec_find_char(rest, '\'', 0) {
            Some(q) => rest.subrange(0, q),
            None => rest,
        };
        LaravelState { prefix: part, urls: st.urls }
    } else if spec_contains(line, "Route::get('"@) {
        match spec_find(line, "Route::get('"@, 0) {
            None => st,
            Some(f) => {
                let start = f + 12;
                let seg_end = match spec_find(line, "Route::get('"@, start) {
                    Some(g) => g,
                    None => line.len() as int,
                };
                let seg = line.subrange(start, seg_end);
                match spec_find_char(seg, '\'', 0) {
                    Some(e) => LaravelState {
                        prefix: st.prefix,
                        urls: st.urls.push(st.prefix + "/"@ + seg.subrange(0, e)),
                    },
                    None => st,
                }
            },
        }
    } else if spec_contains(line, "Route::group("@) {
        LaravelState { prefix: Seq::empty(), urls: st.urls }
    } else {
        st
    }
}

pub open spec fn spec_laravel_lines(
    lines: Seq<Seq<char>>,
    i: int,
    st: LaravelState,
) -> LaravelState
    decreases lines.len() - i,
{
    if i < 0 || i >= lines.len() {
        st
    } else {
        spec_laravel_lines(lines, i + 1, spec_laravel_line(st, lines[i]))
    }
}

/// The URLs of all files: the prefix resets at each file, the URL list
/// accumulates across files.
pub open spec fn spec_laravel_files(
    files: Seq<FileView>,
    k: int,
    urls: Seq<Seq<char>>,
) -> Seq<Seq<char>>
    decreases files.len() - k,
{
    if k < 0 || k >= files.len() {
        urls
    } else {
        let st = spec_laravel_lines(
            spec_split_lines(files[k].content),
            0,
            LaravelState { prefix: Seq::empty(), urls },
        );
        spec_laravel_files(files, k + 1, st.urls)
    }
}

/// Apply one line to the Laravel scan state.
fn laravel_step(prefix: Vec<char>, line: &Vec<char>, urls: &mut Vec<String>) -> (np: Vec<char>)
    ensures
        ({
            let st2 = spec_laravel_line(
                LaravelState { prefix: prefix@, urls: lines_view(old(urls)@) },
                line@,
            );
            np@ == st2.prefix && lines_view(final(urls)@) == st2.urls
        }),
{
    proof {
        reveal_strlit("Route::prefix('");
        reveal_strlit("Route::get('");
        reveal_strlit("Route::group(");
        reveal_strlit("/");
    }
    let n = line.len();
    let prefix_lit = to_chars("Route::prefix('");
    let get_lit = to_chars("Route::get('");
    let group_lit = to_chars("Route::group(");
    if starts_with_chars(line, &prefix_lit) {
        let rest = copy_range_chars(line, 15, line.len());
        proof {
            lemma_find_char_props(rest@, '\'', 0);
        }
        let part_end = match find_char(&rest, '\'', 0) {
            Some(q) => q,
            None => rest.len(),
        };
        let part = copy_range_chars(&rest, 0, part_end);
        proof {
            assert(rest@.subrange(0, rest@.len() as int) =~= rest@);
        }
        return part;
    }
    proof {
        lemma_find_props(line@, get_lit@, 0);
    }
    match find_from(line, &get_lit, 0) {
        Some(f) => {
            let start = f + 12;
            proof {
                lemma_find_props(line@, get_lit@, start as int);
            }
            let seg_end = match find_from(line, &get_lit, start) {
                Some(g) => g,
                None => line.len(),
            };
            let seg = copy_range_chars(line, start, seg_end);
            proof {
                lemma_find_char_props(seg@, '\'', 0);
            }
            match find_char(&seg, '\'', 0) {
                Some(e) => {
                    let mut url = prefix.clone();
                    url.push('/');
                    let mut capture = copy_range_chars(&seg, 0, e);
                    url.append(&mut capture);
                    let url_s = chars_to_string(&url);
                    let ghost old_urls = urls@;
                    urls.push(url_s);
                    proof {
                        lemma_lines_view_push(old_urls, url_s);
                        assert(url@ =~= prefix@ + "/"@ + seg@.subrange(0, e as int));
                        assert(lines_view(urls@) =~= lines_view(old_urls).push(
                            prefix@ + "/"@ + seg@.subrange(0, e as int),
                        ));
                    }
                    prefix
                },
                None => prefix,
            }
        },
        None => {
            proof {
                assert(!spec_contains(line@, "Route::get('"@)) by {
                    assert forall|i: int| !match_at(line@, "Route::get('"@, i) by {
                        if 0 <= i {
                            assert(!match_at(line@, "Route::get('"@, i));
                        }
                    }
                }
                lemma_find_props(line@, group_lit@, 0);
            }
            match find_from(line, &group_lit, 0) {
                Some(_) => Vec::new(),
                None => {
                    proof {
                        assert(!spec_contains(line@, "Route::group("@)) by {
                            assert forall|i: int| !match_at(line@, "Route::group("@, i) by {
                                if 0 <= i {
                                    assert(!match_at(line@, "Route::group("@, i));
                                }
                            }
                        }
                    }
                    prefix
                },
            }
        },
    }
}

// ------------------------------------------------------------------
// ThinkPHP route pass: a combined scan over the file text recognising
// the route-registration verbs (which emit their path), the
// prefix-group form (which pushes its captured prefix), the bare-group
// form (recognised, emitting nothing), and a bare `}` which removes
// the most recently emitted entry.
// ------------------------------------------------------------------

/// One recognised token: where it ends, the path it emits (for the
/// route verbs), and whether it pops the last entry (`}`).
pub ghost struct TpTok {
    pub end: int,
    pub path: Option<Seq<char>>,
    pub pop: bool,
}

/// A quoted capture at `p`: an opening quote (either kind), the shortest
/// run to the next quote of either kind, and that closing quote.
pub open spec fn spec_quote_cap(s: Seq<char>, p: int) -> Option<(int, Seq<char>)> {
    if !(0 <= p && p < s.len() && (s[p] == '\'' || s[p] == '"')) {
        None
    } else {
        match spec_find_quote(s, p + 1) {
            Some(e) => Some((e + 1, s.subrange(p + 1, e))),
            None => None,
        }
    }
}

pub open spec fn spec_tp_token_at(s: Seq<char>, i: int) -> Option<TpTok> {
    if match_at(s, "Route::get("@, i) {
        spec_tp_verb_tail(s, i + 11)
    } else if match_at(s, "Route::post("@, i) {
        spec_tp_verb_tail(s, i + 12)
    } else if match_at(s, "Route::put("@, i) {
        spec_tp_verb_tail(s, i + 11)
    } else if match_at(s, "Route::delete("@, i) {
        spec_tp_verb_tail(s, i + 14)
    } else if match_at(s, "Route::any("@, i) {
        spec_tp_verb_tail(s, i + 11)
    } else if match_at(s, "Route::prefix("@, i) {
        spec_tp_prefix_tail(s, i + 14)
    } else if match_at(s, "Route::group"@, i) {
        spec_tp_group_tail(s, i + 12)
    } else if 0 <= i && i < s.len() && s[i] == '}' {
        Some(TpTok { end: i + 1, path: Some(Seq::empty()), pop: true })
    } else {
        None
    }
}

/// After a route verb's `(`: a quoted path capture.
pub open spec fn spec_tp_verb_tail(s: Seq<char>, p: int) -> Option<TpTok> {
    match spec_quote_cap(s, p) {
        Some((end, cap)) => Some(TpTok { end, path: Some(cap), pop: false }),
        None => None,
    }
}

/// After `Route::prefix(`: a quoted capture, `)`, `->`, `group(`, `)`,
/// each separated by optional whitespace; the token pushes the captured
/// prefix.
pub open spec fn spec_tp_prefix_tail(s: Seq<char>, p: int) -> Option<TpTok> {
    match spec_quote_cap(s, p) {
        None => None,
        Some((e1, cap)) => if !(e1 < s.len() && s[e1] == ')') {
            None
        } else {
            let a = spec_skip_spaces(s, e1 + 1);
            if !match_at(s, "->"@, a) {
                None
            } else {
                let b = spec_skip_spaces(s, a + 2);
                if !match_at(s, "group("@, b) {
                    None
                } else {
                    let c = spec_skip_spaces(s, b + 6);
                    if !(c < s.len() && s[c] == ')') {
                        None
                    } else {
                        Some(
                            TpTok { end: spec_skip_spaces(s, c + 1), path: Some(cap), pop: false },
                        )
                    }
                }
            }
        },
    }
}

/// After `Route::group`: `(`, `)`, separated by optional whitespace.
pub open spec fn spec_tp_group_tail(s: Seq<char>, p: int) -> Option<TpTok> {
    let a = spec_skip_spaces(s, p);
    if !(0 <= a && a < s.len() && s[a] == '(') {
        None
    } else {
        let b = spec_skip_spaces(s, a + 1);
        if !(b < s.len() && s[b] == ')') {
            None
        } else {
            Some(TpTok { end: spec_skip_spaces(s, b + 1), path: None, pop: false })
        }
    }
}

/// The route-pass fold: tokens apply left to right, non-overlapping.
pub open spec fn spec_tp_scan(s: Seq<char>, i: int, acc: Seq<Seq<char>>) -> Seq<Seq<char>>
    decreases s.len() - i,
{
    if i < 0 || i >= s.len() {
        acc
    } else {
        match spec_tp_token_at(s, i) {
            None => spec_tp_scan(s, i + 1, acc),
            Some(t) => {
                let j = if i < t.end && t.end <= s.len() {
                    t.end
                } else {
                    i + 1
                };
                let acc2 = if t.pop {
                    if acc.len() > 0 {
                        acc.drop_last()
                    } else {
                        acc
                    }
                } else {
                    match t.path {
                        Some(p) => acc.push(p),
                        None => acc,
                    }
                };
                spec_tp_scan(s, j, acc2)
            },
        }
    }
}

/// The route pass over all files, one running list across them.
pub open spec fn spec_tp_files_pass1(
    files: Seq<FileView>,
    k: int,
    acc: Seq<Seq<char>>,
) -> Seq<Seq<char>>
    decreases files.len() - k,
{
    if k < 0 || k >= files.len() {
        acc
    } else {
        spec_tp_files_pass1(files, k + 1, spec_tp_scan(files[k].content, 0, acc))
    }
}

// ------------------------------------------------------------------
// ThinkPHP convention pass: files under an `application/` tree whose
// text declares a class extending `Controller` contribute one endpoint
// per public method, except the constructor.
// ------------------------------------------------------------------

/// A class declaration `class Name extends Controller` at `i`, with word
/// boundaries, the name starting with an upper-case letter.
pub open spec fn spec_class_at(s: Seq<char>, i: int) -> bool {
    &&& match_at(s, "class"@, i)
    &&& (i == 0 || !spec_is_word(s[i - 1]))
    &&& i + 5 < s.len() && spec_is_space(s[i + 5])
    &&& {
        let b = spec_skip_spaces(s, i + 5);
        &&& b < s.len() && spec_is_upper(s[b])
        &&& {
            let w = spec_skip_word(s, b + 1);
            &&& w < s.len() && spec_is_space(s[w])
            &&& {
                let c = spec_skip_spaces(s, w);
                &&& match_at(s, "extends"@, c)
                &&& c + 7 < s.len() && spec_is_space(s[c + 7])
                &&& {
                    let d = spec_skip_spaces(s, c + 7);
                    &&& match_at(s, "Controller"@, d)
                    &&& (d + 10 >= s.len() || !spec_is_word(s[d + 10]))
                }
            }
        }
    }
}

pub open spec fn spec_has_controller_class(s: Seq<char>, i: int) -> bool
    decreases s.len() - i,
{
    if i < 0 || i >= s.len() {
        false
    } else if spec_class_at(s, i) {
        true
    } else {
        spec_has_controller_class(s, i + 1)
    }
}

/// The module and controller captures of
/// `application/<module>/controller/<Controller>.php` at position `i` of
/// the path.
pub open spec fn spec_path_capture_at(p: Seq<char>, i: int) -> Option<(Seq<char>, Seq<char>)> {
    if !match_at(p, "application/"@, i) {
        None
    } else {
        let m0 = i + 12;
        let m1 = spec_skip_alpha(p, m0);
        if m1 <= m0 {
            None
        } else if !match_at(p, "/controller/"@, m1) {
            None
        } else {
            let c0 = m1 + 12;
            let c1 = spec_skip_alpha(p, c0);
            if c1 <= c0 {
                None
            } else if !match_at(p, ".php"@, c1) {
                None
            } else {
                Some((p.subrange(m0, m1), p.subrange(c0, c1)))
            }
        }
    }
}

pub open spec fn spec_path_capture(p: Seq<char>, i: int) -> Option<(Seq<char>, Seq<char>)>
    decreases p.len() - i,
{
    if i < 0 || i >= p.len() {
        None
    } else {
        match spec_path_capture_at(p, i) {
            Some(c) => Some(c),
            None => spec_path_capture(p, i + 1),
        }
    }
}

/// A public method declaration `public function name(` at `i`, with a
/// word boundary before `public`; the result is the position after the
/// `(` and the method name.
pub open spec fn spec_method_at(s: Seq<char>, i: int) -> Option<(int, Seq<char>)> {
    if !(match_at(s, "public"@, i) && (i == 0 || !spec_is_word(s[i - 1]))) {
        None
    } else if !(i + 6 < s.len() && spec_is_space(s[i + 6])) {
        None
    } else {
        let a = spec_skip_spaces(s, i + 6);
        if !match_at(s, "function"@, a) {
            None
        } else if !(a + 8 < s.len() && spec_is_space(s[a + 8])) {
            None
        } else {
            let b = spec_skip_spaces(s, a + 8);
            if !(b < s.len() && (spec_is_alpha(s[b]) || s[b] == '_')) {
                None
            } else {
                let e = spec_skip_word(s, b);
                let f = spec_skip_spaces(s, e);
                if f < s.len() && s[f] == '(' {
                    Some((f + 1, s.subrange(b, e)))
                } else {
                    None
                }
            }
        }
    }
}

/// Every public method name except `__construct`, prefixed, scanning
/// non-overlapping from `i`.
pub open spec fn spec_methods_scan(s: Seq<char>, i: int, pfx: Seq<char>) -> Seq<Seq<char>>
    decreases s.len() - i,
{
    if i < 0 || i >= s.len() {
        seq![]
    } else {
        match spec_method_at(s, i) {
            None => spec_methods_scan(s, i + 1, pfx),
            Some((end, name)) => {
                let j = if i < end && end <= s.len() {
                    end
                } else {
                    i + 1
                };
                if name == "__construct"@ {
                    spec_methods_scan(s, j, pfx)
                } else {
                    seq![pfx + "/"@ + name] + spec_methods_scan(s, j, pfx)
                }
            },
        }
    }
}

/// The constructor is never an endpoint: the convention pass never emits
/// `{prefix}/__construct`, whatever the scanned text declares.
pub proof fn lemma_no_constructor_endpoint(s: Seq<char>, i: int, pfx: Seq<char>)
    requires
        0 <= i,
    ensures
        !spec_methods_scan(s, i, pfx).contains(pfx + "/"@ + "__construct"@),
    decreases s.len() - i,
{
    reveal_strlit("/");
    reveal_strlit("__construct");
    if i < 0 || i >= s.len() {
    } else {
        let whole = spec_methods_scan(s, i, pfx);
        let target = pfx + "/"@ + "__construct"@;
        match spec_method_at(s, i) {
            None => {
                lemma_no_constructor_endpoint(s, i + 1, pfx);
            },
            Some((end, name)) => {
                let j = if i < end && end <= s.len() {
                    end
                } else {
                    i + 1
                };
                lemma_no_constructor_endpoint(s, j, pfx);
                let rest = spec_methods_scan(s, j, pfx);
                if name == "__construct"@ {
                } else {
                    // The head differs from the target: equal concatenations
                    // with the same prefix would force equal names.
                    assert(pfx + "/"@ + name != target) by {
                        if pfx + "/"@ + name == target {
                            assert((pfx + "/"@ + name).len() == pfx.len() + 1 + name.len());
                            assert(target.len() == pfx.len() + 1 + "__construct"@.len());
                            assert(name.len() == "__construct"@.len());
                            assert forall|m: int| 0 <= m < name.len() implies name[m]
                                == "__construct"@[m] by {
                                assert((pfx + "/"@ + name)[pfx.len() + 1 + m] == name[m]);
                                assert(target[pfx.len() + 1 + m] == "__construct"@[m]);
                            }
                            assert(name =~= "__construct"@);
                        }
                    }
                    if whole.contains(target) {
                        let x = choose|x: int| 0 <= x < whole.len() && whole[x] == target;
                        assert(x > 0);
                        assert(rest[x - 1] == target);
                        assert(rest.contains(target));
                    }
                }
            },
        }
    }
}

/// The convention-pass endpoints of one file.
pub open spec fn spec_tp_convention_file(f: FileView) -> Seq<Seq<char>> {
    if !spec_contains(f.path, "/application/"@) {
        seq![]
    } else if !spec_has_controller_class(f.content, 0) {
        seq![]
    } else {
        match spec_path_capture(f.path, 0) {
            None => seq![],
            Some((module, controller)) => {
                let pfx = spec_lower(
                    seq!['/'] + module + seq!['/'] + spec_remove_all(controller, "Controller"@),
                );
                spec_methods_scan(f.content, 0, pfx)
            },
        }
    }
}

pub open spec fn spec_tp_pass2(files: Seq<FileView>, k: int) -> Seq<Seq<char>>
    decreases files.len() - k,
{
    if k < 0 || k >= files.len() {
        seq![]
    } else {
        spec_tp_convention_file(files[k]) + spec_tp_pass2(files, k + 1)
    }
}

// ------------------------------------------------------------------
// Native request-handling PHP files.
// ------------------------------------------------------------------

/// Whether a file's text reads one of the request superglobals.
pub open spec fn spec_reads_request(content: Seq<char>) -> bool {
    spec_contains(content, "$_GET"@) || spec_contains(content, "$_POST"@) || spec_contains(
        content,
        "$_REQUEST"@,
    )
}

pub open spec fn spec_request_php(files: Seq<FileView>, k: int) -> Seq<Seq<char>>
    decreases files.len() - k,
{
    if k < 0 || k >= files.len() {
        seq![]
    } else {
        let rest = spec_request_php(files, k + 1);
        if spec_reads_request(files[k].content) {
            seq![files[k].path] + rest
        } else {
            rest
        }
    }
}

} // verus!

verus! {

/// A quoted capture at `p`.
fn quote_cap(s: &Vec<char>, p: usize) -> (r: Option<(usize, Vec<char>)>)
    ensures
        match r {
            Some((end, cap)) => spec_quote_cap(s@, p as int) == Some((end as int, cap@))
                && p < end <= s@.len(),
            None => spec_quote_cap(s@, p as int) is None,
        },
{
    if !(p < s.len() && (s[p] == '\'' || s[p] == '"')) {
        return None;
    }
    match find_quote(s, p + 1) {
        Some(e) => {
            proof {
                lemma_find_quote_bounds(s@, p as int + 1);
            }
            let cap = copy_range_chars(s, p + 1, e);
            Some((e + 1, cap))
        },
        None => None,
    }
}

proof fn lemma_find_quote_bounds(s: Seq<char>, from: int)
    requires
        0 <= from,
    ensures
        spec_find_quote(s, from) matches Some(i) ==> from <= i < s.len(),
    decreases s.len() - from,
{
    if from < s.len() && !(s[from] == '\'' || s[from] == '"') {
        lemma_find_quote_bounds(s, from + 1);
    }
}

/// Recognise one route-pass token at `i`.
fn tp_token_at(s: &Vec<char>, i: usize) -> (r: Option<(usize, Option<Vec<char>>, bool)>)
    requires
        i < s@.len(),
    ensures
        match r {
            Some((end, path, pop)) => {
                &&& spec_tp_token_at(s@, i as int) matches Some(t)
                &&& t.end == end as int
                &&& (match (t.path, path) {
                    (Some(tp), Some(ep)) => tp == ep@,
                    (None, None) => true,
                    _ => false,
                })
                &&& t.pop == pop
                &&& i < end <= s@.len()
            },
            None => spec_tp_token_at(s@, i as int) is None,
        },
{
    proof {
        reveal_strlit("Route::get(");
        reveal_strlit("Route::post(");
        reveal_strlit("Route::put(");
        reveal_strlit("Route::delete(");
        reveal_strlit("Route::any(");
        reveal_strlit("Route::prefix(");
        reveal_strlit("Route::group");
        reveal_strlit("->");
        reveal_strlit("group(");
    }
    let n = s.len();
    let get_l = to_chars("Route::get(");
    let post_l = to_chars("Route::post(");
    let put_l = to_chars("Route::put(");
    let delete_l = to_chars("Route::delete(");
    let any_l = to_chars("Route::any(");
    let prefix_l = to_chars("Route::prefix(");
    let group_l = to_chars("Route::group");
    if match_at_exec(s, &get_l, i) {
        match quote_cap(s, i + 11) {
            Some((end, cap)) => Some((end, Some(cap), false)),
            None => None,
        }
    } else if match_at_exec(s, &post_l, i) {
        match quote_cap(s, i + 12) {
            Some((end, cap)) => Some((end, Some(cap), false)),
            None => None,
        }
    } else if match_at_exec(s, &put_l, i) {
        match quote_cap(s, i + 11) {
            Some((end, cap)) => Some((end, Some(cap), false)),
            None => None,
        }
    } else if match_at_exec(s, &delete_l, i) {
        match quote_cap(s, i + 14) {
            Some((end, cap)) => Some((end, Some(cap), false)),
            None => None,
        }
    } else if match_at_exec(s, &any_l, i) {
        match quote_cap(s, i + 11) {
            Some((end, cap)) => Some((end, Some(cap), false)),
            None => None,
        }
    } else if match_at_exec(s, &prefix_l, i) {
        match quote_cap(s, i + 14) {
            None => None,
            Some((e1, cap)) => {
                if !(e1 < n && s[e1] == ')') {
                    return None;
                }
                let a = skip_spaces(s, e1 + 1);
                let arrow_l = to_chars("->");
                if !match_at_exec(s, &arrow_l, a) {
                    return None;
                }
                let b = skip_spaces(s, a + 2);
                let groupp_l = to_chars("group(");
                if !match_at_exec(s, &groupp_l, b) {
                    return None;
                }
                let c = skip_spaces(s, b + 6);
                if !(c < n && s[c] == ')') {
                    return None;
                }
                let end = skip_spaces(s, c + 1);
                Some((end, Some(cap), false))
            },
        }
    } else if match_at_exec(s, &group_l, i) {
        let a = skip_spaces(s, i + 12);
        if !(a < n && s[a] == '(') {
            return None;
        }
        let b = skip_spaces(s, a + 1);
        if !(b < n && s[b] == ')') {
            return None;
        }
        let end = skip_spaces(s, b + 1);
        Some((end, None, false))
    } else if s[i] == '}' {
        let empty_path: Vec<char> = Vec::new();
        Some((i + 1, Some(empty_path), true))
    } else {
        None
    }
}

/// Whether the text declares a class extending `Controller` at `i`.
fn class_at_exec(s: &Vec<char>, i: usize) -> (r: bool)
    requires
        i < s@.len(),
    ensures
        r == spec_class_at(s@, i as int),
{
    proof {
        reveal_strlit("class");
        reveal_strlit("extends");
        reveal_strlit("Controller");
    }
    let n = s.len();
    let class_l = to_chars("class");
    if !match_at_exec(s, &class_l, i) {
        return false;
    }
    if !(i == 0 || !is_word(s[i - 1])) {
        return false;
    }
    if !(i + 5 < n && is_space(s[i + 5])) {
        return false;
    }
    let b = skip_spaces(s, i + 5);
    if !(b < n && 'A' <= s[b] && s[b] <= 'Z') {
        return false;
    }
    let w = skip_word(s, b + 1);
    if !(w < n && is_space(s[w])) {
        return false;
    }
    let c = skip_spaces(s, w);
    let extends_l = to_chars("extends");
    if !match_at_exec(s, &extends_l, c) {
        return false;
    }
    if !(c + 7 < n && is_space(s[c + 7])) {
        return false;
    }
    let d = skip_spaces(s, c + 7);
    let controller_l = to_chars("Controller");
    if !match_at_exec(s, &controller_l, d) {
        return false;
    }
    d + 10 >= n || !is_word(s[d + 10])
}

/// Whether the text declares a class extending `Controller` anywhere.
fn has_controller_class(s: &Vec<char>) -> (r: bool)
    ensures
        r == spec_has_controller_class(s@, 0),
{
    let mut i: usize = 0;
    while i < s.len()
        invariant
            i <= s@.len(),
            spec_has_controller_class(s@, 0) == spec_has_controller_class(s@, i as int),
        decreases s@.len() - i,
    {
        if class_at_exec(s, i) {
            return true;
        }
        i = i + 1;
    }
    false
}

/// The module/controller captures of the first path match.
fn path_capture(p: &Vec<char>) -> (r: Option<(Vec<char>, Vec<char>)>)
    ensures
        match r {
            Some((m, c)) => spec_path_capture(p@, 0) == Some((m@, c@)),
            None => spec_path_capture(p@, 0) is None,
        },
{
    proof {
        reveal_strlit("application/");
        reveal_strlit("/controller/");
        reveal_strlit(".php");
    }
    let app_l = to_chars("application/");
    let ctrl_l = to_chars("/controller/");
    let php_l = to_chars(".php");
    let n = p.len();
    let mut i: usize = 0;
    while i < n
        invariant
            n == p@.len(),
            app_l@ == "application/"@,
            ctrl_l@ == "/controller/"@,
            php_l@ == ".php"@,
            i <= n,
            spec_path_capture(p@, 0) == spec_path_capture(p@, i as int),
        decreases n - i,
    {
        proof {
            reveal_strlit("application/");
            reveal_strlit("/controller/");
            reveal_strlit(".php");
        }
        if match_at_exec(p, &app_l, i) {
            let m0 = i + 12;
            let m1 = skip_alpha(p, m0);
            if m1 > m0 && match_at_exec(p, &ctrl_l, m1) {
                let c0 = m1 + 12;
                let c1 = skip_alpha(p, c0);
                if c1 > c0 && match_at_exec(p, &php_l, c1) {
                    let module = copy_range_chars(p, m0, m1);
                    let controller = copy_range_chars(p, c0, c1);
                    return Some((module, controller));
                }
            }
        }
        proof {
            assert(spec_path_capture_at(p@, i as int) is None);
        }
        i = i + 1;
    }
    None
}

/// One public-method match at `i`.
fn method_at(s: &Vec<char>, i: usize) -> (r: Option<(usize, Vec<char>)>)
    requires
        i < s@.len(),
    ensures
        match r {
            Some((end, name)) => spec_method_at(s@, i as int) == Some((end as int, name@))
                && i < end <= s@.len(),
            None => spec_method_at(s@, i as int) is None,
        },
{
    proof {
        reveal_strlit("public");
        reveal_strlit("function");
    }
    let n = s.len();
    let public_l = to_chars("public");
    if !match_at_exec(s, &public_l, i) {
        return None;
    }
    if !(i == 0 || !is_word(s[i - 1])) {
        return None;
    }
    if !(i + 6 < n && is_space(s[i + 6])) {
        return None;
    }
    let a = skip_spaces(s, i + 6);
    let function_l = to_chars("function");
    if !match_at_exec(s, &function_l, a) {
        return None;
    }
    if !(a + 8 < n && is_space(s[a + 8])) {
        return None;
    }
    let b = skip_spaces(s, a + 8);
    if !(b < n && (is_alpha(s[b]) || s[b] == '_')) {
        return None;
    }
    let e = skip_word(s, b);
    let f = skip_spaces(s, e);
    if f < n && s[f] == '(' {
        let name = copy_range_chars(s, b, e);
        Some((f + 1, name))
    } else {
        None
    }
}

/// All prefixed method endpoints of one text.
fn methods_scan(s: &Vec<char>, pfx: &Vec<char>, urls: &mut Vec<String>)
    ensures
        lines_view(final(urls)@) == lines_view(old(urls)@) + spec_methods_scan(s@, 0, pfx@),
{
    let construct_l = to_chars("__construct");
    let mut i: usize = 0;
    loop
        invariant
            construct_l@ == "__construct"@,
            lines_view(old(urls)@) + spec_methods_scan(s@, 0, pfx@) == lines_view(urls@)
                + spec_methods_scan(s@, i as int, pfx@),
        decreases s@.len() + 1 - i,
    {
        proof {
            reveal_strlit("__construct");
        }
        if i >= s.len() {
            proof {
                assert(lines_view(urls@) =~= lines_view(urls@) + spec_methods_scan(
                    s@,
                    i as int,
                    pfx@,
                ));
            }
            return ;
        }
        match method_at(s, i) {
            None => {
                i = i + 1;
            },
            Some((end, name)) => {
                let is_construct = {
                    let mut eqv = name.len() == construct_l.len();
                    if eqv {
                        eqv = match_at_exec(&name, &construct_l, 0);
                    }
                    eqv
                };
                proof {
                    if name@.len() == construct_l@.len() {
                        if name@ == "__construct"@ {
                            assert(name@.subrange(0, construct_l@.len() as int) =~= name@);
                        }
                        if match_at(name@, construct_l@, 0) {
                            assert(name@.subrange(0, construct_l@.len() as int) =~= name@);
                        }
                    }
                    assert(is_construct == (name@ == "__construct"@));
                }
                if !is_construct {
                    let mut url = pfx.clone();
                    url.push('/');
                    let mut name_copy = name;
                    url.append(&mut name_copy);
                    let url_s = chars_to_string(&url);
                    let ghost old_urls = urls@;
                    urls.push(url_s);
                    proof {
                        reveal_strlit("/");
                        lemma_lines_view_push(old_urls, url_s);
                        assert(url@ =~= pfx@ + "/"@ + name@);
                        assert(lines_view(urls@) + spec_methods_scan(s@, end as int, pfx@)
                            =~= lines_view(old_urls) + spec_methods_scan(s@, i as int, pfx@));
                    }
                } else {
                    proof {
                        assert(lines_view(urls@) + spec_methods_scan(s@, end as int, pfx@)
                            =~= lines_view(urls@) + spec_methods_scan(s@, i as int, pfx@));
                    }
                }
                i = end;
            },
        }
    }
}

impl PHPProject {
    /// The Laravel endpoints of the given files.
    pub fn collection_laravel_interface(file_path_list: &Vec<SourceFile>) -> (r: Vec<String>)
        ensures
            lines_view(r@) == spec_laravel_files(
                files_view(file_path_list@),
                0,
                Seq::<Seq<char>>::empty(),
            ),
    {
        let ghost fv = files_view(file_path_list@);
        let mut urls: Vec<String> = Vec::new();
        proof {
            assert(lines_view(urls@) =~= Seq::<Seq<char>>::empty());
        }
        let mut k: usize = 0;
        while k < file_path_list.len()
            invariant
                k <= file_path_list@.len(),
                fv == files_view(file_path_list@),
                fv.len() == file_path_list@.len(),
                spec_laravel_files(fv, 0, Seq::<Seq<char>>::empty()) == spec_laravel_files(
                    fv,
                    k as int,
                    lines_view(urls@),
                ),
            decreases file_path_list@.len() - k,
        {
            proof {
                assert(fv[k as int] == file_path_list@[k as int]@);
            }
            let lines = split_lines(file_path_list[k].content.as_str());
            let ghost lv = spec_split_lines(fv[k as int].content);
            let ghost st0 = LaravelState { prefix: Seq::empty(), urls: lines_view(urls@) };
            let mut prefix: Vec<char> = Vec::new();
            let mut i: usize = 0;
            while i < lines.len()
                invariant
                    i <= lines@.len(),
                    lv == lines_view(lines@),
                    lv.len() == lines@.len(),
                    spec_laravel_lines(lv, 0, st0) == spec_laravel_lines(
                        lv,
                        i as int,
                        LaravelState { prefix: prefix@, urls: lines_view(urls@) },
                    ),
                decreases lines@.len() - i,
            {
                proof {
                    assert(lv[i as int] == lines@[i as int]@);
                }
                let line_chars = to_chars(lines[i].as_str());
                prefix = laravel_step(prefix, &line_chars, &mut urls);
                i = i + 1;
            }
            k = k + 1;
        }
        urls
    }

    /// The ThinkPHP endpoints of the given files: the route pass over
    /// every file, then the convention pass over the `application/` files.
    pub fn collection_thinkphp_interface(file_path_list: &Vec<SourceFile>) -> (r: Vec<String>)
        ensures
            lines_view(r@) == spec_tp_files_pass1(
                files_view(file_path_list@),
                0,
                Seq::<Seq<char>>::empty(),
            ) + spec_tp_pass2(files_view(file_path_list@), 0),
    {
        let ghost fv = files_view(file_path_list@);
        let mut urls: Vec<String> = Vec::new();
        proof {
            assert(lines_view(urls@) =~= Seq::<Seq<char>>::empty());
        }
        // route pass
        let mut k: usize = 0;
        while k < file_path_list.len()
            invariant
                k <= file_path_list@.len(),
                fv == files_view(file_path_list@),
                fv.len() == file_path_list@.len(),
                spec_tp_files_pass1(fv, 0, Seq::<Seq<char>>::empty()) == spec_tp_files_pass1(
                    fv,
                    k as int,
                    lines_view(urls@),
                ),
            decreases file_path_list@.len() - k,
        {
            proof {
                assert(fv[k as int] == file_path_list@[k as int]@);
            }
            let s = to_chars(file_path_list[k].content.as_str());
            let ghost acc0 = lines_view(urls@);
            let mut i: usize = 0;
            while i < s.len()
                invariant
                    s@ == fv[k as int].content,
                    i <= s@.len(),
                    spec_tp_scan(s@, 0, acc0) == spec_tp_scan(s@, i as int, lines_view(urls@)),
                decreases s@.len() - i,
            {
                match tp_token_at(&s, i) {
                    None => {
                        i = i + 1;
                    },
                    Some((end, path, pop)) => {
                        let ghost pre = lines_view(urls@);
                        if pop {
                            if urls.len() > 0 {
                                let ghost old_urls = urls@;
                                let _ = urls.pop();
                                proof {
                                    assert(lines_view(urls@) =~= lines_view(
                                        old_urls,
                                    ).drop_last());
                                }
                            }
                        } else {
                            match &path {
                                Some(cap) => {
                                    let cap_s = chars_to_string(cap);
                                    let ghost old_urls = urls@;
                                    urls.push(cap_s);
                                    proof {
                                        lemma_lines_view_push(old_urls, cap_s);
                                    }
                                },
                                None => {},
                            }
                        }
                        proof {
                            let tok = spec_tp_token_at(s@, i as int).unwrap();
                            let acc2 = if tok.pop {
                                if pre.len() > 0 {
                                    pre.drop_last()
                                } else {
                                    pre
                                }
                            } else {
                                match tok.path {
                                    Some(pp) => pre.push(pp),
                                    None => pre,
                                }
                            };
                            assert(lines_view(urls@) =~= acc2);
                            assert(spec_tp_scan(s@, i as int, pre) == spec_tp_scan(
                                s@,
                                end as int,
                                acc2,
                            ));
                        }
                        i = end;
                    },
                }
            }
            proof {
                assert(spec_tp_scan(s@, i as int, lines_view(urls@)) == lines_view(urls@));
            }
            k = k + 1;
        }
        // convention pass
        let ghost pass1 = lines_view(urls@);
        proof {
            assert(pass1 == spec_tp_files_pass1(fv, 0, Seq::<Seq<char>>::empty()));
        }
        let mut k2: usize = 0;
        while k2 < file_path_list.len()
            invariant
                k2 <= file_path_list@.len(),
                fv == files_view(file_path_list@),
                fv.len() == file_path_list@.len(),
                pass1 + spec_tp_pass2(fv, 0) == lines_view(urls@) + spec_tp_pass2(fv, k2 as int),
            decreases file_path_list@.len() - k2,
        {
            proof {
                assert(fv[k2 as int] == file_path_list@[k2 as int]@);
            }
            let path_chars = to_chars(file_path_list[k2].path.as_str());
            let app_lit = to_chars("/application/");
            let mut handled = false;
            if contains_chars(&path_chars, &app_lit) {
                let content_chars = to_chars(file_path_list[k2].content.as_str());
                if has_controller_class(&content_chars) {
                    match path_capture(&path_chars) {
                        Some((module, controller)) => {
                            let controller_lit = to_chars("Controller");
                            let stripped = remove_all_chars(&controller, &controller_lit);
                            let mut raw: Vec<char> = Vec::new();
                            raw.push('/');
                            let mut module_copy = module;
                            raw.append(&mut module_copy);
                            raw.push('/');
                            let mut stripped_copy = stripped;
                            raw.append(&mut stripped_copy);
                            let pfx = lower_chars(&raw);
                            let ghost old_lines = lines_view(urls@);
                            proof {
                                let cap = spec_path_capture(fv[k2 as int].path, 0).unwrap();
                                assert(raw@ =~= seq!['/'] + cap.0 + seq!['/'] + spec_remove_all(
                                    cap.1,
                                    "Controller"@,
                                ));
                                assert(spec_tp_convention_file(fv[k2 as int])
                                    == spec_methods_scan(fv[k2 as int].content, 0, pfx@));
                            }
                            methods_scan(&content_chars, &pfx, &mut urls);
                            proof {
                                assert(lines_view(urls@) + spec_tp_pass2(fv, k2 as int + 1)
                                    =~= old_lines + spec_tp_pass2(fv, k2 as int));
                            }
                            handled = true;
                        },
                        None => {},
                    }
                }
            }
            if !handled {
                proof {
                    assert(spec_tp_convention_file(fv[k2 as int]) =~= Seq::<Seq<char>>::empty());
                    assert(lines_view(urls@) + spec_tp_pass2(fv, k2 as int + 1) =~= lines_view(
                        urls@,
                    ) + spec_tp_pass2(fv, k2 as int));
                }
            }
            k2 = k2 + 1;
        }
        proof {
            assert(lines_view(urls@) =~= lines_view(urls@) + spec_tp_pass2(fv, k2 as int));
            assert(lines_view(urls@) =~= pass1 + spec_tp_pass2(fv, 0));
        }
        urls
    }

    /// The paths of files that read a request superglobal.
    pub fn collection_request_php(file_path_list: &Vec<SourceFile>) -> (r: Vec<String>)
        ensures
            lines_view(r@) == spec_request_php(files_view(file_path_list@), 0),
    {
        let ghost fv = files_view(file_path_list@);
        let mut out: Vec<String> = Vec::new();
        let mut k: usize = 0;
        while k < file_path_list.len()
            invariant
                k <= file_path_list@.len(),
                fv == files_view(file_path_list@),
                fv.len() == file_path_list@.len(),
                spec_request_php(fv, 0) == lines_view(out@) + spec_request_php(fv, k as int),
            decreases file_path_list@.len() - k,
        {
            proof {
                assert(fv[k as int] == file_path_list@[k as int]@);
                reveal_strlit("$_GET");
                reveal_strlit("$_POST");
                reveal_strlit("$_REQUEST");
            }
            let content_chars = to_chars(file_path_list[k].content.as_str());
            let get_l = to_chars("$_GET");
            let post_l = to_chars("$_POST");
            let req_l = to_chars("$_REQUEST");
            let hit = contains_chars(&content_chars, &get_l) || contains_chars(
                &content_chars,
                &post_l,
            ) || contains_chars(&content_chars, &req_l);
            if hit {
                let p = file_path_list[k].path.clone();
                let ghost old_out = out@;
                out.push(p);
                proof {
                    lemma_lines_view_push(old_out, p);
                    assert(lines_view(out@) + spec_request_php(fv, k as int + 1) =~= lines_view(
                        old_out,
                    ) + spec_request_php(fv, k as int));
                }
            }
            k = k + 1;
        }
        proof {
            assert(lines_view(out@) =~= lines_view(out@) + spec_request_php(fv, k as int));
        }
        out
    }
}

} // verus!

verus! {

/// The whole PHP endpoint list: the framework strategy's URLs, then the
/// native request-handling files; empty when interface collection is off.
pub open spec fn spec_php_interfaces(
    fw: crate::enums::Framwork,
    collect: bool,
    files: Seq<FileView>,
) -> Seq<Seq<char>> {
    if !collect {
        seq![]
    } else {
        (match fw {
            crate::enums::Framwork::Laravel => spec_laravel_files(
                files,
                0,
                Seq::<Seq<char>>::empty(),
            ),
            crate::enums::Framwork::ThinkPhp => spec_tp_files_pass1(
                files,
                0,
                Seq::<Seq<char>>::empty(),
            ) + spec_tp_pass2(files, 0),
            _ => seq![],
        }) + spec_request_php(files, 0)
    }
}

impl PHPProject {
    /// The PHP endpoint list, dispatching on the framework strategy.
    pub fn collection_interface(config: &Config, file_path_list: &Vec<SourceFile>) -> (r: Vec<
        String,
    >)
        requires
            config.framework is Laravel || config.framework is ThinkPhp
                || config.framework is Unspecified,
        ensures
            lines_view(r@) == spec_php_interfaces(
                config.framework,
                config.collection_interface,
                files_view(file_path_list@),
            ),
    {
        let ghost fv = files_view(file_path_list@);
        if !config.collection_interface {
            let r: Vec<String> = Vec::new();
            proof {
                assert(lines_view(r@) =~= spec_php_interfaces(
                    config.framework,
                    false,
                    fv,
                ));
            }
            return r;
        }
        let mut out: Vec<String> = match config.framework {
            crate::enums::Framwork::Laravel => Self::collection_laravel_interface(file_path_list),
            crate::enums::Framwork::ThinkPhp => Self::collection_thinkphp_interface(
                file_path_list,
            ),
            _ => Vec::new(),
        };
        let ghost fw_done = lines_view(out@);
        let mut native = Self::collection_request_php(file_path_list);
        let ghost native_done = lines_view(native@);
        out.append(&mut native);
        proof {
            assert(lines_view(out@) =~= fw_done + native_done);
            assert(lines_view(out@) =~= spec_php_interfaces(
                config.framework,
                true,
                fv,
            ));
        }
        out
    }
}

/// Re-running PHP extraction against an unchanged file tree yields the
/// identical endpoint list, in the same order.
pub proof fn lemma_php_extraction_idempotent(
    fw: crate::enums::Framwork,
    collect: bool,
    files: Seq<FileView>,
    r1: Seq<Seq<char>>,
    r2: Seq<Seq<char>>,
)
    requires
        r1 == spec_php_interfaces(fw, collect, files),
        r2 == spec_php_interfaces(fw, collect, files),
    ensures
        r1 == r2,
{
}

} // verus!
