use auditor::enums::LangType;
use auditor::model::ScanCounters;
use auditor::project::{Application, ScanStage, StagePlan};

fn plan(lang: LangType, dep: bool, collect: bool, unauthorized: bool) -> StagePlan {
    StagePlan {
        lang,
        dependency_file_present: dep,
        collect_interfaces: collect,
        unauthorized_enabled: unauthorized,
    }
}

fn run_to_done(p: StagePlan) -> Vec<ScanStage> {
    let mut stages = vec![ScanStage::Init];
    let mut cur = ScanStage::Init;
    while !matches!(cur, ScanStage::Done) {
        cur = Application::next_stage(&cur, &p);
        stages.push(cur);
    }
    stages
}

#[test]
fn full_java_pipeline_visits_every_stage() {
    let stages = run_to_done(plan(LangType::JAVA, true, true, true));
    assert_eq!(
        stages,
        vec![
            ScanStage::Init,
            ScanStage::FileDiscovery,
            ScanStage::DependencyExtraction,
            ScanStage::AttackSurfaceExtraction,
            ScanStage::RuleScan,
            ScanStage::UnauthorizedVerification,
            ScanStage::ReportFinalize,
            ScanStage::Done,
        ]
    );
}

#[test]
fn conditional_stages_are_skipped() {
    let stages = run_to_done(plan(LangType::PHP, true, false, false));
    assert_eq!(
        stages,
        vec![
            ScanStage::Init,
            ScanStage::FileDiscovery,
            ScanStage::RuleScan,
            ScanStage::ReportFinalize,
            ScanStage::Done,
        ]
    );
}

#[test]
fn dependency_stage_needs_java_and_a_descriptor() {
    let no_dep = run_to_done(plan(LangType::JAVA, false, true, false));
    assert!(!no_dep.contains(&ScanStage::DependencyExtraction));
    let go = run_to_done(plan(LangType::GO, true, true, false));
    assert!(!go.contains(&ScanStage::DependencyExtraction));
}

#[test]
fn duration_formats_zero_padded() {
    assert_eq!(Application::format_duration(0), "00:00:00");
    assert_eq!(Application::format_duration(3661), "01:01:01");
    assert_eq!(Application::format_duration(59), "00:00:59");
    assert_eq!(Application::format_duration(3600 * 100 + 62), "100:01:02");
}

#[test]
fn counters_merge_and_refuse_overflow() {
    let mut c = ScanCounters::new();
    let other = ScanCounters { total_lines: 5, non_blank_lines: 3 };
    assert!(c.try_merge(&other));
    assert_eq!(c.total_lines, 5);
    assert_eq!(c.non_blank_lines, 3);
    let huge = ScanCounters { total_lines: usize::MAX, non_blank_lines: 0 };
    assert!(!c.try_merge(&huge));
    assert_eq!(c.total_lines, 5);
}
