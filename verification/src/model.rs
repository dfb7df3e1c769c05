//! The data model: rules, configuration, scan inputs and outputs.
use vstd::prelude::*;
use crate::enums::{Framwork, LangType, ORM, RuleCondition};

verus! {

/// A discovered endpoint list.
pub type Interfaces = Vec<String>;

/// One vulnerability-signature rule: a keyword applied to every scanned
/// line, first matching rule wins.
pub struct Rule {
    pub keyword: String,
    pub note: String,
    pub condition: RuleCondition,
}

/// The default rule list is empty.
pub fn empty_rule() -> (r: Vec<Rule>)
    ensures
        r@ == Seq::<Rule>::empty(),
{
    Vec::new()
}

/// One body-matching rule of the unauthorized-access policy.
pub struct Match {
    pub match_rule: String,
    pub value: String,
}

/// The response-classification policy of the unauthorized-access verifier.
pub struct UnauthorizedRule {
    pub status_code: Vec<u16>,
    pub response_body: Vec<Match>,
}

/// The unauthorized-access verification policy from the configuration.
pub struct Unauthorized {
    pub prefix: String,
    pub rule: UnauthorizedRule,
    pub valid: bool,
}

/// One flagged endpoint: the probe's status code, body and full URL.
pub struct UnauthorizedInterface {
    pub code: u16,
    pub body: String,
    pub url: String,
}

/// The run configuration. Loading it from disk is the application's job;
/// the library only consumes the plain values.
pub struct Config {
    pub project_name: String,
    pub lang_type: LangType,
    pub work_dir: String,
    pub exclude_path: Vec<String>,
    pub scan_ext: Vec<String>,
    pub collection_interface: bool,
    pub framework: Framwork,
    pub orm: ORM,
    pub depency_file: String,
    pub unauthorized: Unauthorized,
    pub report_file_path: String,
    pub use_ui: bool,
    pub rule: Vec<Rule>,
}

/// A source file handed to the library: its path and its full text.
pub struct SourceFile {
    pub path: String,
    pub content: String,
}

/// Ghost image of a source file.
pub ghost struct FileView {
    pub path: Seq<char>,
    pub content: Seq<char>,
}

impl View for SourceFile {
    type V = FileView;

    open spec fn view(&self) -> FileView {
        FileView { path: self.path@, content: self.content@ }
    }
}

impl DeepView for SourceFile {
    type V = FileView;

    open spec fn deep_view(&self) -> FileView {
        self.view()
    }
}

/// One line flagged by the scanner: 1-based line number, the trimmed line
/// text and the note of the winning rule.
pub struct VulnerabilityHit {
    pub file_path: String,
    pub line_number: usize,
    pub raw_line: String,
    pub rule_note: String,
}

/// Ghost image of a hit.
pub ghost struct HitView {
    pub path: Seq<char>,
    pub line_number: int,
    pub text: Seq<char>,
    pub note: Seq<char>,
}

impl View for VulnerabilityHit {
    type V = HitView;

    open spec fn view(&self) -> HitView {
        HitView {
            path: self.file_path@,
            line_number: self.line_number as int,
            text: self.raw_line@,
            note: self.rule_note@,
        }
    }
}

impl DeepView for VulnerabilityHit {
    type V = HitView;

    open spec fn deep_view(&self) -> HitView {
        self.view()
    }
}

/// The two run-wide line counters, read only after the whole scan is done.
pub struct ScanCounters {
    pub total_lines: usize,
    pub non_blank_lines: usize,
}

impl ScanCounters {
    pub fn new() -> (r: ScanCounters)
        ensures
            r.total_lines == 0,
            r.non_blank_lines == 0,
    {
        ScanCounters { total_lines: 0, non_blank_lines: 0 }
    }

    /// Merge another counter pair into this one, refusing on overflow.
    pub fn try_merge(&mut self, other: &ScanCounters) -> (ok: bool)
        ensures
            ok ==> final(self).total_lines == old(self).total_lines + other.total_lines
                && final(self).non_blank_lines == old(self).non_blank_lines
                + other.non_blank_lines,
            !ok ==> *final(self) == *old(self),
    {
        if self.total_lines <= usize::MAX - other.total_lines && self.non_blank_lines
            <= usize::MAX - other.non_blank_lines {
            self.total_lines = self.total_lines + other.total_lines;
            self.non_blank_lines = self.non_blank_lines + other.non_blank_lines;
            true
        } else {
            false
        }
    }
}

/// The views of a string sequence, element-wise.
pub open spec fn lines_view(v: Seq<String>) -> Seq<Seq<char>> {
    Seq::new(v.len(), |i: int| v[i]@)
}

/// The views of a hit sequence, element-wise.
pub open spec fn hits_view(v: Seq<VulnerabilityHit>) -> Seq<HitView> {
    Seq::new(v.len(), |i: int| v[i]@)
}

/// The views of a file sequence, element-wise.
pub open spec fn files_view(v: Seq<SourceFile>) -> Seq<FileView> {
    Seq::new(v.len(), |i: int| v[i]@)
}

/// Pushing a string extends the view sequence by the string's view.
pub proof fn lemma_lines_view_push(v: Seq<String>, x: String)
    ensures
        lines_view(v.push(x)) == lines_view(v) + seq![x@],
{
    assert(lines_view(v.push(x)) =~= lines_view(v) + seq![x@]);
}

/// The scanner's structured result: every hit, and the run-wide counters.
pub struct ScanReport {
    pub hits: Vec<VulnerabilityHit>,
    pub counters: ScanCounters,
}

} // verus!
