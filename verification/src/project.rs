//! The per-language project scanners and the run orchestrator's state
//! machine.
use vstd::prelude::*;
use crate::enums::LangType;
use crate::strutil::push_char;

verus! {

/// Scanner of Java projects.
pub struct JAVAProject;

/// Scanner of PHP projects.
pub struct PHPProject;

/// Scanner of Go projects.
pub struct GOProject;

/// The orchestrator: it sequences the run's stages.
pub struct Application;

/// The stages of one run, in order. Bracketed stages of the pipeline are
/// skipped when their condition does not hold.
#[derive(Debug, Clone, Copy, PartialEq, Eq, Structural)]
pub enum ScanStage {
    Init,
    FileDiscovery,
    DependencyExtraction,
    AttackSurfaceExtraction,
    RuleScan,
    UnauthorizedVerification,
    ReportFinalize,
    Done,
}

/// The run options that decide which stages run.
#[derive(Clone, Copy)]
pub struct StagePlan {
    pub lang: LangType,
    pub dependency_file_present: bool,
    pub collect_interfaces: bool,
    pub unauthorized_enabled: bool,
}

/// Which stage follows `cur` under `plan`: dependency extraction runs only
/// on the Java path with a dependency descriptor present; attack-surface
/// extraction only when interface collection is on; unauthorized
/// verification only when enabled. Transitions are one-directional and
/// `Done` is final.
pub open spec fn spec_next_stage(cur: ScanStage, plan: StagePlan) -> ScanStage {
    match cur {
        ScanStage::Init => ScanStage::FileDiscovery,
        ScanStage::FileDiscovery => if plan.lang is JAVA && plan.dependency_file_present {
            ScanStage::DependencyExtraction
        } else if plan.collect_interfaces {
            ScanStage::AttackSurfaceExtraction
        } else {
            ScanStage::RuleScan
        },
        ScanStage::DependencyExtraction => if plan.collect_interfaces {
            ScanStage::AttackSurfaceExtraction
        } else {
            ScanStage::RuleScan
        },
        ScanStage::AttackSurfaceExtraction => ScanStage::RuleScan,
        ScanStage::RuleScan => if plan.unauthorized_enabled {
            ScanStage::UnauthorizedVerification
        } else {
            ScanStage::ReportFinalize
        },
        ScanStage::UnauthorizedVerification => ScanStage::ReportFinalize,
        ScanStage::ReportFinalize => ScanStage::Done,
        ScanStage::Done => ScanStage::Done,
    }
}

impl Application {
    /// Advance the orchestrator by one stage.
    pub fn next_stage(cur: &ScanStage, plan: &StagePlan) -> (r: ScanStage)
        ensures
            r == spec_next_stage(*cur, *plan),
    {
        match cur {
            ScanStage::Init => ScanStage::FileDiscovery,
            ScanStage::FileDiscovery => {
                if matches!(plan.lang, LangType::JAVA) && plan.dependency_file_present {
                    ScanStage::DependencyExtraction
                } else if plan.collect_interfaces {
                    ScanStage::AttackSurfaceExtraction
                } else {
                    ScanStage::RuleScan
                }
            },
            ScanStage::DependencyExtraction => {
                if plan.collect_interfaces {
                    ScanStage::AttackSurfaceExtraction
                } else {
                    ScanStage::RuleScan
                }
            },
            ScanStage::AttackSurfaceExtraction => ScanStage::RuleScan,
            ScanStage::RuleScan => {
                if plan.unauthorized_enabled {
                    ScanStage::UnauthorizedVerification
                } else {
                    ScanStage::ReportFinalize
                }
            },
            ScanStage::UnauthorizedVerification => ScanStage::ReportFinalize,
            ScanStage::ReportFinalize => ScanStage::Done,
            ScanStage::Done => ScanStage::Done,
        }
    }

    /// The stage order never goes backwards: iterating `next_stage` from
    /// `Init` reaches `Done`, whatever the plan says.
    pub proof fn lemma_stages_terminate(plan: StagePlan)
        ensures
            forall|s: ScanStage|
                s is Done || spec_stage_rank(spec_next_stage(s, plan)) > spec_stage_rank(s),
    {
    }

    /// Render a duration of `secs` seconds as zero-padded `HH:MM:SS`.
    pub fn format_duration(secs: u64) -> (r: String)
        ensures
            r@ == spec_pad2((secs / 3600) as nat) + seq![':'] + spec_pad2(
                ((secs / 60) % 60) as nat,
            ) + seq![':'] + spec_pad2((secs % 60) as nat),
    {
        let hours: u64 = secs / 3600;
        let minutes_rem: u64 = (secs / 60) % 60;
        let seconds_rem: u64 = secs % 60;
        let mut out = pad2(hours);
        push_char(&mut out, ':');
        let m = pad2(minutes_rem);
        append_string(&mut out, m);
        push_char(&mut out, ':');
        let sec = pad2(seconds_rem);
        append_string(&mut out, sec);
        proof {
            assert(out@ =~= spec_pad2((secs / 3600) as nat) + seq![':'] + spec_pad2(
                ((secs / 60) % 60) as nat,
            ) + seq![':'] + spec_pad2((secs % 60) as nat));
        }
        out
    }
}

/// A rank that each transition strictly increases, until `Done`.
pub open spec fn spec_stage_rank(s: ScanStage) -> int {
    match s {
        ScanStage::Init => 0,
        ScanStage::FileDiscovery => 1,
        ScanStage::DependencyExtraction => 2,
        ScanStage::AttackSurfaceExtraction => 3,
        ScanStage::RuleScan => 4,
        ScanStage::UnauthorizedVerification => 5,
        ScanStage::ReportFinalize => 6,
        ScanStage::Done => 7,
    }
}

/// The decimal digit character of `d` (which must be below ten).
pub open spec fn spec_digit(d: nat) -> char {
    if d == 0 {
        '0'
    } else if d == 1 {
        '1'
    } else if d == 2 {
        '2'
    } else if d == 3 {
        '3'
    } else if d == 4 {
        '4'
    } else if d == 5 {
        '5'
    } else if d == 6 {
        '6'
    } else if d == 7 {
        '7'
    } else if d == 8 {
        '8'
    } else {
        '9'
    }
}

/// The decimal digits of `n`, most significant first.
pub open spec fn spec_decimal(n: nat) -> Seq<char>
    decreases n,
{
    if n < 10 {
        seq![spec_digit(n)]
    } else {
        spec_decimal(n / 10).push(spec_digit(n % 10))
    }
}

/// `n` in decimal, zero-padded on the left to at least two digits.
pub open spec fn spec_pad2(n: nat) -> Seq<char> {
    if n < 10 {
        seq!['0'].push(spec_digit(n))
    } else {
        spec_decimal(n)
    }
}

fn digit_char(d: u64) -> (r: char)
    requires
        d < 10,
    ensures
        r == spec_digit(d as nat),
{
    if d == 0 {
        '0'
    } else if d == 1 {
        '1'
    } else if d == 2 {
        '2'
    } else if d == 3 {
        '3'
    } else if d == 4 {
        '4'
    } else if d == 5 {
        '5'
    } else if d == 6 {
        '6'
    } else if d == 7 {
        '7'
    } else if d == 8 {
        '8'
    } else {
        '9'
    }
}

/// `n` in decimal.
pub fn u64_to_decimal(n: u64) -> (r: String)
    ensures
        r@ == spec_decimal(n as nat),
    decreases n,
{
    if n < 10 {
        let mut s = String::new();
        push_char(&mut s, digit_char(n));
        proof {
            assert(s@ =~= seq![spec_digit(n as nat)]);
        }
        s
    } else {
        let mut s = u64_to_decimal(n / 10);
        push_char(&mut s, digit_char(n % 10));
        s
    }
}

fn pad2(n: u64) -> (r: String)
    ensures
        r@ == spec_pad2(n as nat),
{
    if n < 10 {
        let mut s = String::new();
        push_char(&mut s, '0');
        push_char(&mut s, digit_char(n));
        proof {
            assert(s@ =~= seq!['0'].push(spec_digit(n as nat)));
        }
        s
    } else {
        u64_to_decimal(n)
    }
}

/// Append an owned string.
fn append_string(s: &mut String, tail: String)
    ensures
        final(s)@ == old(s)@ + tail@,
{
    vstd::string::StringExecFns::append(s, tail.as_str());
}

} // verus!
