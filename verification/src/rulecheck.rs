//! The rule-matching scanner: line splitting, ordered rule evaluation
//! (first match wins), per-file scanning and run-wide aggregation.
use vstd::prelude::*;
use vstd::string::StringExecFns;
use crate::enums::RuleCondition;
use crate::model::{files_view, hits_view, lemma_lines_view_push, lines_view, FileView, HitView, Rule, ScanCounters,
    ScanReport, SourceFile, VulnerabilityHit};
use crate::strutil::{chars_to_string, contains_chars, copy_range_chars, find_char, lemma_blank_is_all_space,
    spec_all_space, spec_contains, spec_find_char, spec_trim, to_chars, trim_chars};
use crate::strutil::lemma_find_char_props;

verus! {

/// Whether `pattern` is accepted by the regex engine.
pub uninterp spec fn regex_valid(pattern: Seq<char>) -> bool;

/// Whether `pattern` (assumed valid) matches anywhere inside `text`.
pub uninterp spec fn regex_match(pattern: Seq<char>, text: Seq<char>) -> bool;

/// Relies on regex::Regex::new: whether a pattern compiles depends on the
/// pattern text alone.
#[verifier::external_body]
fn regex_compiles(pattern: &str) -> (r: bool)
    ensures
        r == regex_valid(pattern@),
{
    regex::Regex::new(pattern).is_ok()
}

/// Relies on regex::Regex::new and regex::Regex::is_match: for a valid
/// pattern, whether it matches somewhere in a text depends on the pattern
/// and the text alone.
#[verifier::external_body]
fn regex_find_match(pattern: &str, text: &str) -> (r: Option<bool>)
    ensures
        r is Some <==> regex_valid(pattern@),
        r matches Some(b) ==> b == regex_match(pattern@, text@),
{
    match regex::Regex::new(pattern) {
        Ok(re) => Some(re.is_match(text)),
        Err(_) => None,
    }
}

/// A line ending in a carriage return loses it once the newline is split off.
pub open spec fn spec_strip_cr(l: Seq<char>) -> Seq<char> {
    if l.len() > 0 && l[l.len() - 1] == '\r' {
        l.drop_last()
    } else {
        l
    }
}

/// The lines of `s` from position `pos` on: split at every newline, with a
/// carriage return before the newline dropped; a last line without a
/// newline is kept as it stands, and a trailing newline adds no empty line.
pub open spec fn spec_lines_from(s: Seq<char>, pos: int) -> Seq<Seq<char>>
    decreases s.len() - pos,
    via spec_lines_from_dec
{
    if pos < 0 || pos >= s.len() {
        seq![]
    } else {
        match spec_find_char(s, '\n', pos) {
            None => seq![s.subrange(pos, s.len() as int)],
            Some(k) => seq![spec_strip_cr(s.subrange(pos, k))] + spec_lines_from(s, k + 1),
        }
    }
}

#[via_fn]
proof fn spec_lines_from_dec(s: Seq<char>, pos: int) {
    if !(pos < 0 || pos >= s.len()) {
        lemma_find_char_props(s, '\n', pos);
    }
}

pub open spec fn spec_split_lines(s: Seq<char>) -> Seq<Seq<char>> {
    spec_lines_from(s, 0)
}

/// Split a text into lines.
pub fn split_lines(s: &str) -> (r: Vec<String>)
    ensures
        lines_view(r@) == spec_split_lines(s@),
{
    let chars = to_chars(s);
    let mut out: Vec<String> = Vec::new();
    let mut pos: usize = 0;
    loop
        invariant
            chars@ == s@,
            pos <= chars@.len() || chars@.len() == 0,
            spec_split_lines(s@) == lines_view(out@) + spec_lines_from(s@, pos as int),
        decreases chars@.len() - pos + 1,
    {
        if pos >= chars.len() {
            proof {
                assert(lines_view(out@) + spec_lines_from(s@, pos as int) =~= lines_view(out@));
            }
            return out;
        }
        proof {
            lemma_find_char_props(chars@, '\n', pos as int);
        }
        match find_char(&chars, '\n', pos) {
            None => {
                let line = copy_range_chars(&chars, pos, chars.len());
                let line_s = chars_to_string(&line);
                let ghost old_out = out@;
                out.push(line_s);
                proof {
                    lemma_lines_view_push(old_out, line_s);
                    assert(lines_view(out@) =~= lines_view(out@) + spec_lines_from(
                        s@,
                        s@.len() as int,
                    ));
                }
                pos = chars.len();
            },
            Some(k) => {
                let mut line = copy_range_chars(&chars, pos, k);
                if line.len() > 0 && line[line.len() - 1] == '\r' {
                    let _ = line.pop();
                    proof {
                        assert(line@ =~= spec_strip_cr(s@.subrange(pos as int, k as int)));
                    }
                }
                let line_s = chars_to_string(&line);
                let ghost old_out = out@;
                out.push(line_s);
                proof {
                    lemma_lines_view_push(old_out, line_s);
                }
                pos = k + 1;
            },
        }
    }
}

/// Whether a rule applies to a raw line.
pub open spec fn rule_matches(rule: Rule, line: Seq<char>) -> bool {
    match rule.condition {
        RuleCondition::Contain => spec_contains(line, rule.keyword@),
        RuleCondition::Regex => regex_match(rule.keyword@, line),
    }
}

/// The lowest index at or after `i` of a rule matching `line`.
pub open spec fn spec_first_match_from(rules: Seq<Rule>, line: Seq<char>, i: int) -> Option<int>
    decreases rules.len() - i,
{
    if i < 0 || i >= rules.len() {
        None
    } else if rule_matches(rules[i], line) {
        Some(i)
    } else {
        spec_first_match_from(rules, line, i + 1)
    }
}

/// The first (lowest-index) rule matching `line`, if any.
pub open spec fn spec_first_match(rules: Seq<Rule>, line: Seq<char>) -> Option<int> {
    spec_first_match_from(rules, line, 0)
}

/// Every regex-conditioned rule carries a pattern the engine accepts.
pub open spec fn rules_wf(rules: Seq<Rule>) -> bool {
    forall|i: int|
        0 <= i < rules.len() ==> ((#[trigger] rules[i]).condition is Regex ==> regex_valid(
            rules[i].keyword@,
        ))
}

/// The first rule to match decides the hit: a match at `i` means no rule
/// before `i` matched, and no match at all means no rule matched.
pub proof fn lemma_first_match_wins(rules: Seq<Rule>, line: Seq<char>, i: int)
    requires
        0 <= i,
    ensures
        spec_first_match_from(rules, line, i) matches Some(m) ==> i <= m < rules.len()
            && rule_matches(rules[m], line) && forall|j: int|
            i <= j < m ==> !rule_matches(rules[j], line),
        spec_first_match_from(rules, line, i) is None ==> forall|j: int|
            i <= j < rules.len() ==> !rule_matches(rules[j], line),
    decreases rules.len() - i,
{
    if i < 0 || i >= rules.len() {
    } else if rule_matches(rules[i], line) {
    } else {
        lemma_first_match_wins(rules, line, i + 1);
    }
}

/// The scanner entry point and its helpers.
pub struct RuleCheck;

/// The scanner's fatal error: the first rule whose regex pattern the
/// engine refuses.
#[derive(Debug, PartialEq, Eq, Structural)]
pub enum ScanError {
    InvalidRegex(usize),
}

/// First rule index with an invalid regex pattern, if any.
pub open spec fn spec_first_invalid(rules: Seq<Rule>, i: int) -> Option<int>
    decreases rules.len() - i,
{
    if i < 0 || i >= rules.len() {
        None
    } else if rules[i].condition is Regex && !regex_valid(rules[i].keyword@) {
        Some(i)
    } else {
        spec_first_invalid(rules, i + 1)
    }
}

pub proof fn lemma_first_invalid_none(rules: Seq<Rule>, i: int)
    requires
        0 <= i,
    ensures
        spec_first_invalid(rules, i) is None <==> (forall|j: int|
            i <= j < rules.len() ==> ((#[trigger] rules[j]).condition is Regex ==> regex_valid(
                rules[j].keyword@,
            ))),
        spec_first_invalid(rules, i) matches Some(m) ==> i <= m < rules.len()
            && rules[m].condition is Regex && !regex_valid(rules[m].keyword@),
    decreases rules.len() - i,
{
    if i < 0 || i >= rules.len() {
    } else {
        lemma_first_invalid_none(rules, i + 1);
    }
}

/// Hits of the lines from index `i` on: one hit per non-blank line with a
/// matching rule, carrying the 1-based line number, the trimmed text and
/// the first matching rule's note.
pub open spec fn spec_file_hits_from(
    rules: Seq<Rule>,
    path: Seq<char>,
    lines: Seq<Seq<char>>,
    i: int,
) -> Seq<HitView>
    decreases lines.len() - i,
{
    if i < 0 || i >= lines.len() {
        seq![]
    } else {
        let rest = spec_file_hits_from(rules, path, lines, i + 1);
        if !spec_all_space(lines[i]) && spec_first_match(rules, lines[i]) is Some {
            seq![
                HitView {
                    path: path,
                    line_number: i + 1,
                    text: spec_trim(lines[i]),
                    note: rules[spec_first_match(rules, lines[i]).unwrap()].note@,
                },
            ] + rest
        } else {
            rest
        }
    }
}

pub open spec fn spec_file_hits(rules: Seq<Rule>, path: Seq<char>, lines: Seq<Seq<char>>) -> Seq<
    HitView,
> {
    spec_file_hits_from(rules, path, lines, 0)
}

/// How many lines from index `i` on are not purely whitespace.
pub open spec fn spec_count_non_blank(lines: Seq<Seq<char>>, i: int) -> int
    decreases lines.len() - i,
{
    if i < 0 || i >= lines.len() {
        0
    } else {
        (if spec_all_space(lines[i]) {
            0int
        } else {
            1int
        }) + spec_count_non_blank(lines, i + 1)
    }
}

pub proof fn lemma_count_non_blank_bounds(lines: Seq<Seq<char>>, i: int)
    requires
        0 <= i <= lines.len(),
    ensures
        0 <= spec_count_non_blank(lines, i) <= lines.len() - i,
        spec_count_non_blank(lines, i) == lines.len() - i <==> (forall|j: int|
            i <= j < lines.len() ==> !spec_all_space(#[trigger] lines[j])),
    decreases lines.len() - i,
{
    if i < lines.len() {
        lemma_count_non_blank_bounds(lines, i + 1);
    }
}

/// The scan result of a single file.
pub struct FileScan {
    pub hits: Vec<VulnerabilityHit>,
    pub total_lines: usize,
    pub non_blank_lines: usize,
}

impl RuleCheck {
    /// Index of the first rule whose regex pattern does not compile.
    pub fn validate_rules(rules: &Vec<Rule>) -> (r: Option<usize>)
        ensures
            match r {
                Some(i) => Some(i as int) == spec_first_invalid(rules@, 0),
                None => spec_first_invalid(rules@, 0) is None,
            },
            r is None <==> rules_wf(rules@),
    {
        proof {
            lemma_first_invalid_none(rules@, 0);
        }
        let mut i: usize = 0;
        while i < rules.len()
            invariant
                i <= rules@.len(),
                spec_first_invalid(rules@, 0) == spec_first_invalid(rules@, i as int),
        decreases rules@.len() - i,
        {
            let is_regex = match rules[i].condition {
                RuleCondition::Regex => true,
                RuleCondition::Contain => false,
            };
            if is_regex && !regex_compiles(rules[i].keyword.as_str()) {
                return Some(i);
            }
            i = i + 1;
        }
        None
    }

    /// Evaluate the ordered rule list against one raw line: whether some
    /// rule matches, and the note of the first matching rule (empty when
    /// none matches).
    pub fn rule_match_hit(rules: &Vec<Rule>, data: &str) -> (r: (bool, String))
        requires
            rules_wf(rules@),
        ensures
            r.0 == spec_first_match(rules@, data@) is Some,
            spec_first_match(rules@, data@) matches Some(m) ==> r.1@ == rules@[m].note@,
            spec_first_match(rules@, data@) is None ==> r.1@ == Seq::<char>::empty(),
    {
        let data_chars = to_chars(data);
        let mut i: usize = 0;
        while i < rules.len()
            invariant
                rules_wf(rules@),
                i <= rules@.len(),
                data_chars@ == data@,
                spec_first_match(rules@, data@) == spec_first_match_from(
                    rules@,
                    data@,
                    i as int,
                ),
            decreases rules@.len() - i,
        {
            let hit = match rules[i].condition {
                RuleCondition::Contain => {
                    let kw = to_chars(rules[i].keyword.as_str());
                    contains_chars(&data_chars, &kw)
                },
                RuleCondition::Regex => {
                    match regex_find_match(rules[i].keyword.as_str(), data) {
                        Some(b) => b,
                        None => {
                            proof {
                                assert(regex_valid(rules@[i as int].keyword@));
                                assert(false);
                            }
                            false
                        },
                    }
                },
            };
            if hit {
                return (true, rules[i].note.clone());
            }
            i = i + 1;
        }
        (false, String::new())
    }

    /// Scan one file's lines: blank lines are counted but never evaluated;
    /// each non-blank line with a matching rule yields one hit.
    pub fn check_file(rules: &Vec<Rule>, path: &str, lines: &Vec<String>) -> (r: FileScan)
        requires
            rules_wf(rules@),
        ensures
            hits_view(r.hits@) == spec_file_hits(rules@, path@, lines_view(lines@)),
            r.total_lines == lines@.len(),
            r.non_blank_lines == spec_count_non_blank(lines_view(lines@), 0),
    {
        let ghost lv = lines_view(lines@);
        let mut hits: Vec<VulnerabilityHit> = Vec::new();
        let mut non_blank: usize = 0;
        let mut i: usize = 0;
        proof {
            lemma_count_non_blank_bounds(lv, 0);
        }
        while i < lines.len()
            invariant
                rules_wf(rules@),
                i <= lines@.len(),
                lv == lines_view(lines@),
                lv.len() == lines@.len(),
                spec_file_hits(rules@, path@, lv) == hits_view(hits@) + spec_file_hits_from(
                    rules@,
                    path@,
                    lv,
                    i as int,
                ),
                spec_count_non_blank(lv, 0) == non_blank + spec_count_non_blank(lv, i as int),
                non_blank <= i,
            decreases lines@.len() - i,
        {
            proof {
                assert(lv[i as int] == lines@[i as int]@);
            }
            let line_chars = to_chars(lines[i].as_str());
            let trimmed = trim_chars(&line_chars);
            proof {
                lemma_blank_is_all_space(lv[i as int]);
            }
            if trimmed.len() > 0 {
                non_blank = non_blank + 1;
                let (hit, note) = Self::rule_match_hit(rules, lines[i].as_str());
                if hit {
                    let text = chars_to_string(&trimmed);
                    let h = VulnerabilityHit {
                        file_path: path_to_string(path),
                        line_number: i + 1,
                        raw_line: text,
                        rule_note: note,
                    };
                    let ghost old_hits = hits@;
                    hits.push(h);
                    proof {
                        lemma_hits_view_push(old_hits, h);
                    }
                }
            }
            i = i + 1;
        }
        proof {
            assert(hits_view(hits@) =~= hits_view(hits@) + spec_file_hits_from(
                rules@,
                path@,
                lv,
                i as int,
            ));
        }
        FileScan { hits, total_lines: lines.len(), non_blank_lines: non_blank }
    }

    /// Scan one file, validating the rules first; `None` reports an
    /// invalid regex pattern among the rules.
    pub fn check_file_checked(rules: &Vec<Rule>, file: &SourceFile) -> (r: Option<FileScan>)
        ensures
            r is Some <==> rules_wf(rules@),
            r matches Some(fs) ==> {
                let lines = spec_split_lines(file.content@);
                &&& hits_view(fs.hits@) == spec_file_hits(rules@, file.path@, lines)
                &&& fs.total_lines == lines.len()
                &&& fs.non_blank_lines == spec_count_non_blank(lines, 0)
            },
    {
        match Self::validate_rules(rules) {
            Some(_) => None,
            None => {
                let lines = split_lines(file.content.as_str());
                Some(Self::check_file(rules, file.path.as_str(), &lines))
            },
        }
    }

    /// Run the scanner over every file: a fatal error exactly when some
    /// rule's regex pattern is invalid; otherwise all per-file hits in
    /// file order, and the two exact line counters.
    pub fn start(rules: &Vec<Rule>, files: &Vec<SourceFile>) -> (r: Result<ScanReport, ScanError>)
        requires
            spec_total_lines(files_view(files@), 0) <= usize::MAX,
        ensures
            r is Err <==> !rules_wf(rules@),
            r matches Err(e) ==> e matches ScanError::InvalidRegex(i) && Some(i as int)
                == spec_first_invalid(rules@, 0),
            r matches Ok(rep) ==> {
                &&& hits_view(rep.hits@) == spec_all_hits(rules@, files_view(files@), 0)
                &&& rep.counters.total_lines == spec_total_lines(files_view(files@), 0)
                &&& rep.counters.non_blank_lines == spec_total_non_blank(files_view(files@), 0)
            },
    {
        let ghost fv = files_view(files@);
        match Self::validate_rules(rules) {
            Some(i) => Err(ScanError::InvalidRegex(i)),
            None => {
                let mut hits: Vec<VulnerabilityHit> = Vec::new();
                let mut total: usize = 0;
                let mut non_blank: usize = 0;
                let mut k: usize = 0;
                proof {
                    lemma_total_bounds(fv, 0);
                }
                while k < files.len()
                    invariant
                        rules_wf(rules@),
                        k <= files@.len(),
                        fv == files_view(files@),
                        fv.len() == files@.len(),
                        spec_total_lines(fv, 0) <= usize::MAX,
                        spec_all_hits(rules@, fv, 0) == hits_view(hits@) + spec_all_hits(
                            rules@,
                            fv,
                            k as int,
                        ),
                        total + spec_total_lines(fv, k as int) == spec_total_lines(fv, 0),
                        non_blank + spec_total_non_blank(fv, k as int) == spec_total_non_blank(
                            fv,
                            0,
                        ),
                        non_blank <= total,
                    decreases files@.len() - k,
                {
                    proof {
                        assert(fv[k as int] == files@[k as int]@);
                        lemma_total_bounds(fv, k as int + 1);
                        let lines = spec_split_lines(fv[k as int].content);
                        lemma_count_non_blank_bounds(lines, 0);
                    }
                    let lines = split_lines(files[k].content.as_str());
                    let mut fs = Self::check_file(rules, files[k].path.as_str(), &lines);
                    let ghost old_hits = hits_view(hits@);
                    let ghost fs_hits = hits_view(fs.hits@);
                    hits.append(&mut fs.hits);
                    proof {
                        assert(hits_view(hits@) =~= old_hits + fs_hits);
                        assert(old_hits + fs_hits + spec_all_hits(rules@, fv, k as int + 1)
                            =~= old_hits + spec_all_hits(rules@, fv, k as int));
                    }
                    total = total + fs.total_lines;
                    non_blank = non_blank + fs.non_blank_lines;
                    k = k + 1;
                }
                proof {
                    assert(hits_view(hits@) =~= hits_view(hits@) + spec_all_hits(
                        rules@,
                        fv,
                        k as int,
                    ));
                }
                Ok(
                    ScanReport {
                        hits,
                        counters: ScanCounters { total_lines: total, non_blank_lines: non_blank },
                    },
                )
            },
        }
    }
}

/// Relies on nothing outside: builds an owned copy of a path string.
fn path_to_string(path: &str) -> (r: String)
    ensures
        r@ == path@,
{
    String::from_str(path)
}

/// Pushing a hit extends the view sequence by its view.
proof fn lemma_hits_view_push(v: Seq<VulnerabilityHit>, x: VulnerabilityHit)
    ensures
        hits_view(v.push(x)) == hits_view(v) + seq![x@],
{
    assert(hits_view(v.push(x)) =~= hits_view(v) + seq![x@]);
}

/// All hits across the files from index `k` on, in file order.
pub open spec fn spec_all_hits(rules: Seq<Rule>, files: Seq<FileView>, k: int) -> Seq<HitView>
    decreases files.len() - k,
{
    if k < 0 || k >= files.len() {
        seq![]
    } else {
        spec_file_hits(rules, files[k].path, spec_split_lines(files[k].content))
            + spec_all_hits(rules, files, k + 1)
    }
}

/// Total line count of the files from index `k` on.
pub open spec fn spec_total_lines(files: Seq<FileView>, k: int) -> int
    decreases files.len() - k,
{
    if k < 0 || k >= files.len() {
        0
    } else {
        spec_split_lines(files[k].content).len() + spec_total_lines(files, k + 1)
    }
}

/// Total non-blank line count of the files from index `k` on.
pub open spec fn spec_total_non_blank(files: Seq<FileView>, k: int) -> int
    decreases files.len() - k,
{
    if k < 0 || k >= files.len() {
        0
    } else {
        spec_count_non_blank(spec_split_lines(files[k].content), 0) + spec_total_non_blank(
            files,
            k + 1,
        )
    }
}

/// Counters are consistent: the non-blank count never exceeds the total,
/// and they are equal exactly when no scanned file holds a blank line.
pub proof fn lemma_counters_consistent(files: Seq<FileView>, k: int)
    requires
        0 <= k <= files.len(),
    ensures
        0 <= spec_total_non_blank(files, k) <= spec_total_lines(files, k),
        spec_total_non_blank(files, k) == spec_total_lines(files, k) <==> (forall|i: int, j: int|
            k <= i < files.len() && 0 <= j < spec_split_lines(#[trigger] files[i].content).len()
                ==> !spec_all_space(#[trigger] spec_split_lines(files[i].content)[j])),
    decreases files.len() - k,
{
    if k < files.len() {
        lemma_counters_consistent(files, k + 1);
        lemma_count_non_blank_bounds(spec_split_lines(files[k].content), 0);
    }
}

proof fn lemma_total_bounds(files: Seq<FileView>, k: int)
    requires
        0 <= k <= files.len(),
    ensures
        0 <= spec_total_non_blank(files, k) <= spec_total_lines(files, k),
    decreases files.len() - k,
{
    lemma_counters_consistent(files, k);
}

/// A blank line never produces a hit: every hit's line number points at a
/// non-blank line, whatever rules are configured.
pub proof fn lemma_blank_no_hit(
    rules: Seq<Rule>,
    path: Seq<char>,
    lines: Seq<Seq<char>>,
    i: int,
)
    requires
        0 <= i,
    ensures
        forall|h: HitView| #[trigger]
            spec_file_hits_from(rules, path, lines, i).contains(h) ==> i < h.line_number
                <= lines.len() && !spec_all_space(lines[h.line_number - 1]),
    decreases lines.len() - i,
{
    if i < 0 || i >= lines.len() {
    } else {
        lemma_blank_no_hit(rules, path, lines, i + 1);
        let rest = spec_file_hits_from(rules, path, lines, i + 1);
        let whole = spec_file_hits_from(rules, path, lines, i);
        if !spec_all_space(lines[i]) && spec_first_match(rules, lines[i]) is Some {
            assert forall|h: HitView| #[trigger] whole.contains(h) implies i < h.line_number
                <= lines.len() && !spec_all_space(lines[h.line_number - 1]) by {
                if h == whole[0] {
                } else {
                    let x = choose|x: int| 0 <= x < whole.len() && whole[x] == h;
                    assert(rest[x - 1] == h);
                    assert(rest.contains(h));
                }
            }
        } else {
            assert forall|h: HitView| #[trigger] whole.contains(h) implies i < h.line_number
                <= lines.len() && !spec_all_space(lines[h.line_number - 1]) by {
                assert(rest.contains(h));
            }
        }
    }
}

/// Within one file, hits come in line order: the hit list's 1-based line
/// numbers are strictly increasing.
pub proof fn lemma_hits_in_line_order(
    rules: Seq<Rule>,
    path: Seq<char>,
    lines: Seq<Seq<char>>,
    i: int,
)
    requires
        0 <= i,
    ensures
        ({
            let hs = spec_file_hits_from(rules, path, lines, i);
            forall|a: int, b: int|
                0 <= a < b < hs.len() ==> (#[trigger] hs[a]).line_number
                    < (#[trigger] hs[b]).line_number
        }),
    decreases lines.len() - i,
{
    if i < 0 || i >= lines.len() {
    } else {
        lemma_hits_in_line_order(rules, path, lines, i + 1);
        lemma_blank_no_hit(rules, path, lines, i + 1);
        let whole = spec_file_hits_from(rules, path, lines, i);
        let rest = spec_file_hits_from(rules, path, lines, i + 1);
        if !spec_all_space(lines[i]) && spec_first_match(rules, lines[i]) is Some {
            assert forall|a: int, b: int|
                0 <= a < b < whole.len() implies (#[trigger] whole[a]).line_number
                < (#[trigger] whole[b]).line_number by {
                assert(whole[b] == rest[b - 1]);
                assert(rest.contains(rest[b - 1]));
                if a > 0 {
                    assert(whole[a] == rest[a - 1]);
                }
            }
        }
    }
}

/// A hit's note is always the first matching rule's note: no rule with a
/// lower index matches the hit's line.
pub proof fn lemma_hit_note_is_first(rules: Seq<Rule>, line: Seq<char>)
    ensures
        spec_first_match(rules, line) matches Some(m) ==> 0 <= m < rules.len() && rule_matches(
            rules[m],
            line,
        ) && forall|j: int| 0 <= j < m ==> !rule_matches(rules[j], line),
        spec_first_match(rules, line) is None ==> forall|j: int|
            0 <= j < rules.len() ==> !rule_matches(rules[j], line),
{
    lemma_first_match_wins(rules, line, 0);
}

} // verus!
