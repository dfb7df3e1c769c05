//! Verified string utilities.
//!
//! Every scanner in this crate reasons over `Seq<char>` views; the helpers
//! here provide the shared primitives: substring search, character classes,
//! trimming, line splitting and occurrence removal.
use vstd::prelude::*;
use vstd::string::StrSliceExecFns;
use vstd::string::StringExecFns;

verus! {

/// Utility holder for path-related helpers.
pub struct PathUtil;

/// The whitespace characters this library recognises: the Unicode
/// White_Space set, as char::is_whitespace documents it. Both the line
/// trimming and the scanners' whitespace runs use this one set.
pub open spec fn spec_is_space(c: char) -> bool {
    ||| c == ' ' || c == '\t' || c == '\n' || c == '\u{b}' || c == '\u{c}' || c == '\r'
    ||| c == '\u{85}' || c == '\u{a0}' || c == '\u{1680}'
    ||| ('\u{2000}' <= c && c <= '\u{200a}')
    ||| c == '\u{2028}' || c == '\u{2029}' || c == '\u{202f}' || c == '\u{205f}'
    ||| c == '\u{3000}'
}

/// Word characters: ASCII letters, digits and underscore. This is a
/// deliberate restriction of the scanners' token grammar to ASCII
/// identifiers; a class or method name with a letter outside ASCII is not
/// treated as a word here.
pub open spec fn spec_is_word(c: char) -> bool {
    ('a' <= c && c <= 'z') || ('A' <= c && c <= 'Z') || ('0' <= c && c <= '9') || c == '_'
}

/// ASCII letters, by the same deliberate restriction as `spec_is_word`.
pub open spec fn spec_is_alpha(c: char) -> bool {
    ('a' <= c && c <= 'z') || ('A' <= c && c <= 'Z')
}

/// ASCII capital letters.
pub open spec fn spec_is_upper(c: char) -> bool {
    'A' <= c && c <= 'Z'
}

/// ASCII lower-casing of a single character; letters outside ASCII are
/// kept as they are (the module paths the scanners lower-case are ASCII
/// by the path grammar).
pub open spec fn spec_lower_char(c: char) -> char {
    if spec_is_upper(c) {
        ((c as u32) + 32) as char
    } else {
        c
    }
}

pub fn is_space(c: char) -> (r: bool)
    ensures
        r == spec_is_space(c),
{
    (c == ' ' || c == '\t' || c == '\n' || c == '\u{b}' || c == '\u{c}' || c == '\r')
        || (c == '\u{85}' || c == '\u{a0}' || c == '\u{1680}')
        || ('\u{2000}' <= c && c <= '\u{200a}')
        || (c == '\u{2028}' || c == '\u{2029}' || c == '\u{202f}' || c == '\u{205f}')
        || c == '\u{3000}'
}

pub fn is_word(c: char) -> (r: bool)
    ensures
        r == spec_is_word(c),
{
    ('a' <= c && c <= 'z') || ('A' <= c && c <= 'Z') || ('0' <= c && c <= '9') || c == '_'
}

pub fn is_alpha(c: char) -> (r: bool)
    ensures
        r == spec_is_alpha(c),
{
    ('a' <= c && c <= 'z') || ('A' <= c && c <= 'Z')
}

pub fn lower_char(c: char) -> (r: char)
    ensures
        r == spec_lower_char(c),
{
    if 'A' <= c && c <= 'Z' {
        let x: u32 = (c as u32) + 32;
        char_from_code(x)
    } else {
        c
    }
}

/// Relies on char::from_u32: every code point below 0xD800 is a valid char.
#[verifier::external_body]
fn char_from_code(x: u32) -> (c: char)
    requires
        x < 0xD800,
    ensures
        c as u32 == x,
{
    char::from_u32(x).unwrap()
}

/// Relies on String::push: appends one character at the end.
#[verifier::external_body]
pub fn push_char(s: &mut String, c: char)
    ensures
        final(s)@ == old(s)@.push(c),
{
    s.push(c)
}

/// Collect the characters of a string slice into a vector.
pub fn to_chars(s: &str) -> (v: Vec<char>)
    ensures
        v@ == s@,
{
    let n: usize = s.unicode_len();
    let mut v: Vec<char> = Vec::new();
    let mut i: usize = 0;
    while i < n
        invariant
            n == s@.len(),
            i <= n,
            v@ == s@.subrange(0, i as int),
        decreases n - i,
    {
        let c = s.get_char(i);
        v.push(c);
        i = i + 1;
        proof {
            assert(v@ =~= s@.subrange(0, i as int));
        }
    }
    proof {
        assert(v@ =~= s@);
    }
    v
}

/// Rebuild a string from a vector of characters.
pub fn chars_to_string(v: &Vec<char>) -> (s: String)
    ensures
        s@ == v@,
{
    let mut s = String::new();
    let mut i: usize = 0;
    while i < v.len()
        invariant
            i <= v@.len(),
            s@ == v@.subrange(0, i as int),
        decreases v@.len() - i,
    {
        push_char(&mut s, v[i]);
        i = i + 1;
        proof {
            assert(s@ =~= v@.subrange(0, i as int));
        }
    }
    proof {
        assert(s@ =~= v@);
    }
    s
}

/// `needle` occurs in `hay` starting at position `i`.
pub open spec fn match_at(hay: Seq<char>, needle: Seq<char>, i: int) -> bool {
    0 <= i && i + needle.len() <= hay.len() && hay.subrange(i, i + needle.len()) == needle
}

/// `needle` occurs somewhere in `hay`.
pub open spec fn spec_contains(hay: Seq<char>, needle: Seq<char>) -> bool {
    exists|i: int| match_at(hay, needle, i)
}

/// The first position at or after `from` where `needle` occurs in `hay`.
pub open spec fn spec_find(hay: Seq<char>, needle: Seq<char>, from: int) -> Option<int>
    decreases hay.len() - from + 1,
{
    if from < 0 || from + needle.len() > hay.len() {
        None
    } else if match_at(hay, needle, from) {
        Some(from)
    } else {
        spec_find(hay, needle, from + 1)
    }
}

pub proof fn lemma_find_props(hay: Seq<char>, needle: Seq<char>, from: int)
    requires
        0 <= from,
    ensures
        spec_find(hay, needle, from) matches Some(i) ==> from <= i && match_at(hay, needle, i)
            && forall|j: int| from <= j < i ==> !match_at(hay, needle, j),
        spec_find(hay, needle, from) is None ==> forall|j: int|
            j >= from ==> !match_at(hay, needle, j),
    decreases hay.len() - from + 1,
{
    if from < 0 || from + needle.len() > hay.len() {
    } else if match_at(hay, needle, from) {
    } else {
        lemma_find_props(hay, needle, from + 1);
    }
}

/// Compare `hay[i..i+needle.len()]` with `needle`.
pub fn match_at_exec(hay: &Vec<char>, needle: &Vec<char>, i: usize) -> (r: bool)
    ensures
        r == match_at(hay@, needle@, i as int),
{
    if i > hay.len() || needle.len() > hay.len() - i {
        return false;
    }
    let mut j: usize = 0;
    while j < needle.len()
        invariant
            i + needle@.len() <= hay@.len(),
            hay@.len() <= usize::MAX,
            j <= needle@.len(),
            forall|k: int| 0 <= k < j ==> hay@[i + k] == needle@[k],
        decreases needle@.len() - j,
    {
        if hay[i + j] != needle[j] {
            proof {
                assert(hay@.subrange(i as int, i + needle@.len())[j as int] != needle@[j as int]);
            }
            return false;
        }
        j = j + 1;
    }
    proof {
        assert(hay@.subrange(i as int, i + needle@.len()) =~= needle@);
    }
    true
}

/// First occurrence of `needle` in `hay` at or after `from`.
pub fn find_from(hay: &Vec<char>, needle: &Vec<char>, from: usize) -> (r: Option<usize>)
    ensures
        match r {
            Some(i) => Some(i as int) == spec_find(hay@, needle@, from as int),
            None => spec_find(hay@, needle@, from as int) is None,
        },
{
    let mut i: usize = from;
    loop
        invariant
            from <= i,
            spec_find(hay@, needle@, from as int) == spec_find(hay@, needle@, i as int),
        decreases hay@.len() + 1 - i,
    {
        if i > hay.len() || needle.len() > hay.len() - i {
            return None;
        }
        if match_at_exec(hay, needle, i) {
            return Some(i);
        }
        proof {
            if needle@.len() == 0 {
                assert(hay@.subrange(i as int, i as int) =~= needle@);
                assert(false);
            }
        }
        i = i + 1;
    }
}

/// Substring test, stated over `spec_contains`.
pub fn contains_chars(hay: &Vec<char>, needle: &Vec<char>) -> (r: bool)
    ensures
        r == spec_contains(hay@, needle@),
{
    proof {
        lemma_find_props(hay@, needle@, 0);
    }
    match find_from(hay, needle, 0) {
        Some(_) => true,
        None => {
            proof {
                assert forall|i: int| !match_at(hay@, needle@, i) by {
                    if 0 <= i {
                        assert(!match_at(hay@, needle@, i));
                    }
                }
            }
            false
        },
    }
}

/// Substring test on string slices.
pub fn str_contains(hay: &str, needle: &str) -> (r: bool)
    ensures
        r == spec_contains(hay@, needle@),
{
    let h = to_chars(hay);
    let n = to_chars(needle);
    contains_chars(&h, &n)
}

pub open spec fn spec_starts_with(s: Seq<char>, p: Seq<char>) -> bool {
    p.len() <= s.len() && s.subrange(0, p.len() as int) == p
}

pub open spec fn spec_ends_with(s: Seq<char>, p: Seq<char>) -> bool {
    p.len() <= s.len() && s.subrange(s.len() - p.len(), s.len() as int) == p
}

pub fn starts_with_chars(s: &Vec<char>, p: &Vec<char>) -> (r: bool)
    ensures
        r == spec_starts_with(s@, p@),
{
    match_at_exec(s, p, 0)
}

pub fn ends_with_chars(s: &Vec<char>, p: &Vec<char>) -> (r: bool)
    ensures
        r == spec_ends_with(s@, p@),
{
    if p.len() > s.len() {
        return false;
    }
    match_at_exec(s, p, s.len() - p.len())
}

/// First position at or after `i` whose character is not a space.
pub open spec fn spec_skip_spaces(s: Seq<char>, i: int) -> int
    decreases s.len() - i,
{
    if i < 0 || i >= s.len() {
        i
    } else if spec_is_space(s[i]) {
        spec_skip_spaces(s, i + 1)
    } else {
        i
    }
}

pub fn skip_spaces(s: &Vec<char>, i: usize) -> (r: usize)
    requires
        i <= s@.len(),
    ensures
        r == spec_skip_spaces(s@, i as int),
        i <= r <= s@.len(),
{
    let mut j: usize = i;
    while j < s.len() && is_space(s[j])
        invariant
            i <= j <= s@.len(),
            spec_skip_spaces(s@, i as int) == spec_skip_spaces(s@, j as int),
        decreases s@.len() - j,
    {
        j = j + 1;
    }
    j
}

/// First position at or after `i` whose character is not a word character.
pub open spec fn spec_skip_word(s: Seq<char>, i: int) -> int
    decreases s.len() - i,
{
    if i < 0 || i >= s.len() {
        i
    } else if spec_is_word(s[i]) {
        spec_skip_word(s, i + 1)
    } else {
        i
    }
}

pub fn skip_word(s: &Vec<char>, i: usize) -> (r: usize)
    requires
        i <= s@.len(),
    ensures
        r == spec_skip_word(s@, i as int),
        i <= r <= s@.len(),
{
    let mut j: usize = i;
    while j < s.len() && is_word(s[j])
        invariant
            i <= j <= s@.len(),
            spec_skip_word(s@, i as int) == spec_skip_word(s@, j as int),
        decreases s@.len() - j,
    {
        j = j + 1;
    }
    j
}

/// First position at or after `i` whose character is not an ASCII letter.
pub open spec fn spec_skip_alpha(s: Seq<char>, i: int) -> int
    decreases s.len() - i,
{
    if i < 0 || i >= s.len() {
        i
    } else if spec_is_alpha(s[i]) {
        spec_skip_alpha(s, i + 1)
    } else {
        i
    }
}

pub fn skip_alpha(s: &Vec<char>, i: usize) -> (r: usize)
    requires
        i <= s@.len(),
    ensures
        r == spec_skip_alpha(s@, i as int),
        i <= r <= s@.len(),
{
    let mut j: usize = i;
    while j < s.len() && is_alpha(s[j])
        invariant
            i <= j <= s@.len(),
            spec_skip_alpha(s@, i as int) == spec_skip_alpha(s@, j as int),
        decreases s@.len() - j,
    {
        j = j + 1;
    }
    j
}

/// First position at or after `i` holding character `c`, if any.
pub open spec fn spec_find_char(s: Seq<char>, c: char, from: int) -> Option<int>
    decreases s.len() - from,
{
    if from < 0 || from >= s.len() {
        None
    } else if s[from] == c {
        Some(from)
    } else {
        spec_find_char(s, c, from + 1)
    }
}

pub proof fn lemma_find_char_props(s: Seq<char>, c: char, from: int)
    requires
        0 <= from,
    ensures
        spec_find_char(s, c, from) matches Some(i) ==> from <= i < s.len() && s[i] == c
            && forall|j: int| from <= j < i && 0 <= j ==> s[j] != c,
        spec_find_char(s, c, from) is None ==> forall|j: int|
            from <= j < s.len() && 0 <= j ==> s[j] != c,
    decreases s.len() - from,
{
    if from < 0 || from >= s.len() {
    } else if s[from] == c {
    } else {
        lemma_find_char_props(s, c, from + 1);
    }
}

pub fn find_char(s: &Vec<char>, c: char, from: usize) -> (r: Option<usize>)
    ensures
        match r {
            Some(i) => Some(i as int) == spec_find_char(s@, c, from as int),
            None => spec_find_char(s@, c, from as int) is None,
        },
{
    let mut i: usize = from;
    loop
        invariant
            from <= i,
            spec_find_char(s@, c, from as int) == spec_find_char(s@, c, i as int),
        decreases s@.len() + 1 - i,
    {
        if i >= s.len() {
            return None;
        }
        if s[i] == c {
            return Some(i);
        }
        i = i + 1;
    }
}

/// `s` with every non-overlapping occurrence of `pat` removed, scanning
/// left to right from position `i` (the behaviour of `str::replace`
/// with an empty replacement).
pub open spec fn spec_remove_all_from(s: Seq<char>, pat: Seq<char>, i: int) -> Seq<char>
    decreases s.len() - i,
{
    if i < 0 || i >= s.len() {
        Seq::empty()
    } else if pat.len() > 0 && match_at(s, pat, i) {
        spec_remove_all_from(s, pat, i + pat.len())
    } else {
        seq![s[i]] + spec_remove_all_from(s, pat, i + 1)
    }
}

pub open spec fn spec_remove_all(s: Seq<char>, pat: Seq<char>) -> Seq<char> {
    spec_remove_all_from(s, pat, 0)
}

pub fn remove_all_chars(s: &Vec<char>, pat: &Vec<char>) -> (r: Vec<char>)
    ensures
        r@ == spec_remove_all(s@, pat@),
{
    let mut out: Vec<char> = Vec::new();
    let mut i: usize = 0;
    while i < s.len()
        invariant
            i <= s@.len(),
            spec_remove_all(s@, pat@) == out@ + spec_remove_all_from(s@, pat@, i as int),
        decreases s@.len() - i,
    {
        if pat.len() > 0 && match_at_exec(s, pat, i) {
            i = i + pat.len();
        } else {
            out.push(s[i]);
            i = i + 1;
        }
    }
    proof {
        assert(out@ =~= out@ + spec_remove_all_from(s@, pat@, i as int));
    }
    out
}

/// Remove every occurrence of `pat` from `s`.
pub fn str_remove_all(s: &str, pat: &str) -> (r: String)
    ensures
        r@ == spec_remove_all(s@, pat@),
{
    let sc = to_chars(s);
    let pc = to_chars(pat);
    let out = remove_all_chars(&sc, &pc);
    chars_to_string(&out)
}

/// All characters of `s` are whitespace.
pub open spec fn spec_all_space(s: Seq<char>) -> bool {
    forall|i: int| 0 <= i < s.len() ==> spec_is_space(s[i])
}

/// `s` without leading whitespace.
pub open spec fn spec_trim_start(s: Seq<char>) -> Seq<char>
    decreases s.len(),
{
    if s.len() == 0 {
        s
    } else if spec_is_space(s[0]) {
        spec_trim_start(s.drop_first())
    } else {
        s
    }
}

/// `s` without trailing whitespace.
pub open spec fn spec_trim_end(s: Seq<char>) -> Seq<char>
    decreases s.len(),
{
    if s.len() == 0 {
        s
    } else if spec_is_space(s[s.len() - 1]) {
        spec_trim_end(s.drop_last())
    } else {
        s
    }
}

/// `s` without leading and trailing whitespace.
pub open spec fn spec_trim(s: Seq<char>) -> Seq<char> {
    spec_trim_end(spec_trim_start(s))
}

/// Dropping leading spaces up to a first non-space at `lo` is exactly
/// what `spec_trim_start` does.
pub proof fn lemma_trim_start_eq(s: Seq<char>, lo: int)
    requires
        0 <= lo <= s.len(),
        forall|j: int| 0 <= j < lo ==> spec_is_space(s[j]),
        lo == s.len() || !spec_is_space(s[lo]),
    ensures
        spec_trim_start(s) == s.subrange(lo, s.len() as int),
    decreases s.len(),
{
    if s.len() == 0 {
        assert(s.subrange(0, 0) =~= s);
    } else if lo == 0 {
        assert(!spec_is_space(s[0]));
        assert(s.subrange(0, s.len() as int) =~= s);
    } else {
        assert(spec_is_space(s[0]));
        let t = s.drop_first();
        assert forall|j: int| 0 <= j < lo - 1 implies spec_is_space(t[j]) by {
            assert(t[j] == s[j + 1]);
        }
        lemma_trim_start_eq(t, lo - 1);
        assert(t.subrange(lo - 1, t.len() as int) =~= s.subrange(lo, s.len() as int));
    }
}

/// Dropping trailing spaces back to a last non-space before `hi` is exactly
/// what `spec_trim_end` does.
pub proof fn lemma_trim_end_eq(s: Seq<char>, hi: int)
    requires
        0 <= hi <= s.len(),
        forall|j: int| hi <= j < s.len() ==> spec_is_space(s[j]),
        hi == 0 || !spec_is_space(s[hi - 1]),
    ensures
        spec_trim_end(s) == s.subrange(0, hi),
    decreases s.len(),
{
    if s.len() == 0 {
        assert(s.subrange(0, 0) =~= s);
    } else if hi == s.len() {
        assert(!spec_is_space(s[s.len() - 1]));
        assert(s.subrange(0, s.len() as int) =~= s);
    } else {
        assert(spec_is_space(s[s.len() - 1]));
        let t = s.drop_last();
        lemma_trim_end_eq(t, hi);
        assert(t.subrange(0, hi) =~= s.subrange(0, hi));
    }
}

/// Blank lines are those that trim to nothing.
pub proof fn lemma_blank_is_all_space(s: Seq<char>)
    ensures
        spec_trim(s).len() == 0 <==> spec_all_space(s),
    decreases s.len(),
{
    if s.len() == 0 {
    } else if spec_is_space(s[0]) {
        let t = s.drop_first();
        lemma_blank_is_all_space(t);
        assert(spec_all_space(t) ==> spec_all_space(s)) by {
            if spec_all_space(t) {
                assert forall|i: int| 0 <= i < s.len() implies spec_is_space(s[i]) by {
                    if i > 0 {
                        assert(t[i - 1] == s[i]);
                    }
                }
            }
        }
        assert(spec_all_space(s) ==> spec_all_space(t)) by {
            if spec_all_space(s) {
                assert forall|i: int| 0 <= i < t.len() implies spec_is_space(t[i]) by {
                    assert(t[i] == s[i + 1]);
                }
            }
        }
    } else {
        // trim_start(s) == s, whose first character is not a space, so
        // trim_end keeps at least that character.
        lemma_trim_end_keeps_head(s);
        assert(!spec_all_space(s));
    }
}

/// If the head of `s` is not a space, trimming the tail keeps the head.
proof fn lemma_trim_end_keeps_head(s: Seq<char>)
    requires
        s.len() > 0,
        !spec_is_space(s[0]),
    ensures
        spec_trim_end(s).len() > 0,
    decreases s.len(),
{
    if spec_is_space(s[s.len() - 1]) {
        assert(s.len() > 1);
        let t = s.drop_last();
        assert(t[0] == s[0]);
        lemma_trim_end_keeps_head(t);
    }
}

/// Trim whitespace from both ends.
pub fn trim_chars(s: &Vec<char>) -> (r: Vec<char>)
    ensures
        r@ == spec_trim(s@),
{
    let mut lo: usize = 0;
    while lo < s.len() && is_space(s[lo])
        invariant
            lo <= s@.len(),
            forall|j: int| 0 <= j < lo ==> spec_is_space(s@[j]),
        decreases s@.len() - lo,
    {
        lo = lo + 1;
    }
    proof {
        lemma_trim_start_eq(s@, lo as int);
    }
    if lo == s.len() {
        proof {
            assert(s@.subrange(lo as int, s@.len() as int) =~= Seq::<char>::empty());
        }
        let r: Vec<char> = Vec::new();
        return r;
    }
    let ghost t = s@.subrange(lo as int, s@.len() as int);
    let mut hi: usize = s.len();
    while hi > lo + 1 && is_space(s[hi - 1])
        invariant
            lo < hi <= s@.len(),
            forall|j: int| hi <= j < s@.len() ==> spec_is_space(s@[j]),
        decreases hi,
    {
        hi = hi - 1;
    }
    // At this point either hi == lo + 1 or s[hi - 1] is not a space; in the
    // former case s[lo] itself is not a space, so both give a non-space end.
    proof {
        assert(!spec_is_space(s@[hi - 1]));
        assert forall|j: int| hi - lo <= j < t.len() implies spec_is_space(t[j]) by {
            assert(t[j] == s@[lo + j]);
        }
        assert(t[hi - lo - 1] == s@[hi - 1]);
        lemma_trim_end_eq(t, hi as int - lo as int);
    }
    let mut out: Vec<char> = Vec::new();
    let mut i: usize = lo;
    while i < hi
        invariant
            lo <= i <= hi <= s@.len(),
            out@ == s@.subrange(lo as int, i as int),
        decreases hi - i,
    {
        out.push(s[i]);
        i = i + 1;
        proof {
            assert(out@ =~= s@.subrange(lo as int, i as int));
        }
    }
    proof {
        assert(t.subrange(0, hi as int - lo as int) =~= s@.subrange(lo as int, hi as int));
    }
    out
}

/// Trim a string slice.
pub fn str_trim(s: &str) -> (r: String)
    ensures
        r@ == spec_trim(s@),
{
    let sc = to_chars(s);
    let out = trim_chars(&sc);
    chars_to_string(&out)
}

} // verus!

verus! {

/// First position at or after `from` holding a single or double quote.
pub open spec fn spec_find_quote(s: Seq<char>, from: int) -> Option<int>
    decreases s.len() - from,
{
    if from < 0 || from >= s.len() {
        None
    } else if s[from] == '\'' || s[from] == '"' {
        Some(from)
    } else {
        spec_find_quote(s, from + 1)
    }
}

pub fn find_quote(s: &Vec<char>, from: usize) -> (r: Option<usize>)
    ensures
        match r {
            Some(i) => Some(i as int) == spec_find_quote(s@, from as int) && i < s@.len(),
            None => spec_find_quote(s@, from as int) is None,
        },
{
    let mut i: usize = from;
    loop
        invariant
            from <= i,
            spec_find_quote(s@, from as int) == spec_find_quote(s@, i as int),
        decreases s@.len() + 1 - i,
    {
        if i >= s.len() {
            return None;
        }
        if s[i] == '\'' || s[i] == '"' {
            return Some(i);
        }
        i = i + 1;
    }
}

/// Copy `s[from..to]` into a fresh vector.
pub fn copy_range_chars(s: &Vec<char>, from: usize, to: usize) -> (r: Vec<char>)
    requires
        from <= to <= s@.len(),
    ensures
        r@ == s@.subrange(from as int, to as int),
{
    let mut out: Vec<char> = Vec::new();
    let mut i: usize = from;
    while i < to
        invariant
            from <= i <= to <= s@.len(),
            out@ == s@.subrange(from as int, i as int),
        decreases to - i,
    {
        out.push(s[i]);
        i = i + 1;
        proof {
            assert(out@ =~= s@.subrange(from as int, i as int));
        }
    }
    out
}

/// ASCII lower-casing, character by character.
pub open spec fn spec_lower(s: Seq<char>) -> Seq<char> {
    s.map_values(|c: char| spec_lower_char(c))
}

pub fn lower_chars(s: &Vec<char>) -> (r: Vec<char>)
    ensures
        r@ == spec_lower(s@),
{
    let mut out: Vec<char> = Vec::new();
    let mut i: usize = 0;
    while i < s.len()
        invariant
            i <= s@.len(),
            out@.len() == i,
            forall|j: int| 0 <= j < i ==> out@[j] == spec_lower_char(s@[j]),
        decreases s@.len() - i,
    {
        out.push(lower_char(s[i]));
        i = i + 1;
    }
    proof {
        assert(out@ =~= spec_lower(s@));
    }
    out
}

} // verus!

verus! {

/// Each path with every occurrence of `prefix` removed, in order.
pub open spec fn spec_clear_prefix(paths: Seq<Seq<char>>, prefix: Seq<char>) -> Seq<Seq<char>> {
    paths.map_values(|p: Seq<char>| spec_remove_all(p, prefix))
}

impl PathUtil {
    /// Strip a directory prefix (every occurrence of it) from each path.
    pub fn clear_prefix(list: Vec<String>, prefix: &str) -> (r: Vec<String>)
        ensures
            crate::model::lines_view(r@) == spec_clear_prefix(
                crate::model::lines_view(list@),
                prefix@,
            ),
    {
        let pc = to_chars(prefix);
        let mut out: Vec<String> = Vec::new();
        let mut i: usize = 0;
        while i < list.len()
            invariant
                i <= list@.len(),
                pc@ == prefix@,
                out@.len() == i,
                forall|j: int|
                    0 <= j < i ==> out@[j]@ == spec_remove_all(#[trigger] list@[j]@, prefix@),
            decreases list@.len() - i,
        {
            let item = to_chars(list[i].as_str());
            let cleaned = remove_all_chars(&item, &pc);
            out.push(chars_to_string(&cleaned));
            i = i + 1;
        }
        proof {
            assert(crate::model::lines_view(out@) =~= spec_clear_prefix(
                crate::model::lines_view(list@),
                prefix@,
            ));
        }
        out
    }
}

} // verus!
