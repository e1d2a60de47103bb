use cover::pipeline::{exit_code, step, Event, Stage};

#[test]
fn complete_run_visits_every_stage_in_order() {
    let events = [
        Event::LocateOk,
        Event::ToolFound,
        Event::Cleaned,
        Event::TestsExited,
        Event::ReportWritten,
        Event::ReportWritten,
        Event::ReportWritten,
    ];
    let mut stage = Stage::Locating;
    let mut visited = vec![stage];
    for e in events {
        stage = step(stage, e);
        visited.push(stage);
    }
    assert_eq!(
        visited,
        vec![
            Stage::Locating,
            Stage::CheckingTool,
            Stage::Sanitizing,
            Stage::RunningTests,
            Stage::ReportingMarkdown,
            Stage::ReportingHtml,
            Stage::ReportingLcov,
            Stage::Done,
        ]
    );
    assert_eq!(exit_code(stage), 0);
}

#[test]
fn missing_tool_ends_the_run_with_status_one() {
    let mut stage = Stage::Locating;
    stage = step(stage, Event::LocateOk);
    stage = step(stage, Event::ToolMissing);
    assert_eq!(stage, Stage::NoTool);
    assert_eq!(exit_code(stage), 1);
    stage = step(stage, Event::TestsExited);
    assert_eq!(stage, Stage::NoTool);
    stage = step(stage, Event::ReportWritten);
    assert_eq!(stage, Stage::NoTool);
}

#[test]
fn locate_failure_aborts() {
    let stage = step(Stage::Locating, Event::LocateFailed);
    assert_eq!(stage, Stage::Aborted);
    assert_eq!(exit_code(stage), 101);
}

#[test]
fn stray_events_change_nothing() {
    assert_eq!(step(Stage::Locating, Event::ReportWritten), Stage::Locating);
    assert_eq!(step(Stage::Sanitizing, Event::ToolFound), Stage::Sanitizing);
    assert_eq!(step(Stage::Sanitizing, Event::Cleaned), Stage::RunningTests);
}
