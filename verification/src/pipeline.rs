use vstd::prelude::*;

verus! {

/// The stage the coverage run is in. Each working stage names the step in
/// flight; the three terminal stages say how the run ended.
#[derive(Clone, Copy, Debug, PartialEq, Eq, Structural)]
pub enum Stage {
    /// Asking the build tool for the package root.
    Locating,
    /// Probing whether the aggregation tool is installed.
    CheckingTool,
    /// Deleting stale raw-profile files and the stale report file.
    Sanitizing,
    /// The instrumented test run, awaited to completion.
    RunningTests,
    /// The streamed, colorized report.
    ReportingMarkdown,
    /// The report tree on disk.
    ReportingHtml,
    /// The interchange-format file, written last so consumers see the
    /// freshest run.
    ReportingLcov,
    /// The whole pipeline ran; the process exits 0.
    Done,
    /// The aggregation tool is missing; an installation hint is printed and
    /// the process exits 1 with no test run and no report.
    NoTool,
    /// The package root could not be found; the run stops unrecoverably.
    Aborted,
}

/// What the outside world reported back for the stage in flight.
#[derive(Clone, Copy, Debug, PartialEq, Eq, Structural)]
pub enum Event {
    LocateOk,
    LocateFailed,
    ToolFound,
    ToolMissing,
    Cleaned,
    /// The test process exited; its status is deliberately not inspected.
    TestsExited,
    /// One report invocation ran to completion, whatever its status.
    ReportWritten,
}

/// A stage from which the run never moves again.
pub open spec fn is_terminal(s: Stage) -> bool {
    s is Done || s is NoTool || s is Aborted
}

/// The transition table of the run: locate, check the tool, clean, test,
/// then the three reports with the interchange format last. An event that
/// does not belong to the stage changes nothing.
pub open spec fn step_spec(s: Stage, e: Event) -> Stage {
    match (s, e) {
        (Stage::Locating, Event::LocateOk) => Stage::CheckingTool,
        (Stage::Locating, Event::LocateFailed) => Stage::Aborted,
        (Stage::CheckingTool, Event::ToolFound) => Stage::Sanitizing,
        (Stage::CheckingTool, Event::ToolMissing) => Stage::NoTool,
        (Stage::Sanitizing, Event::Cleaned) => Stage::RunningTests,
        (Stage::RunningTests, Event::TestsExited) => Stage::ReportingMarkdown,
        (Stage::ReportingMarkdown, Event::ReportWritten) => Stage::ReportingHtml,
        (Stage::ReportingHtml, Event::ReportWritten) => Stage::ReportingLcov,
        (Stage::ReportingLcov, Event::ReportWritten) => Stage::Done,
        (_, _) => s,
    }
}

/// Advance the run by one observed event.
pub fn step(s: Stage, e: Event) -> (r: Stage)
    ensures
        r == step_spec(s, e),
{
    match (s, e) {
        (Stage::Locating, Event::LocateOk) => Stage::CheckingTool,
        (Stage::Locating, Event::LocateFailed) => Stage::Aborted,
        (Stage::CheckingTool, Event::ToolFound) => Stage::Sanitizing,
        (Stage::CheckingTool, Event::ToolMissing) => Stage::NoTool,
        (Stage::Sanitizing, Event::Cleaned) => Stage::RunningTests,
        (Stage::RunningTests, Event::TestsExited) => Stage::ReportingMarkdown,
        (Stage::ReportingMarkdown, Event::ReportWritten) => Stage::ReportingHtml,
        (Stage::ReportingHtml, Event::ReportWritten) => Stage::ReportingLcov,
        (Stage::ReportingLcov, Event::ReportWritten) => Stage::Done,
        (_, _) => s,
    }
}

/// The exit status owed at a terminal stage: success, the missing-tool
/// status, or the status of an unrecoverable stop.
pub fn exit_code(s: Stage) -> (r: u8)
    requires
        is_terminal(s),
    ensures
        s is Done ==> r == 0,
        s is NoTool ==> r == 1,
        s is Aborted ==> r == 101,
{
    match s {
        Stage::Done => 0,
        Stage::NoTool => 1,
        _ => 101,
    }
}

/// Every stage the run visits under a sequence of events, starting at
/// `Locating`.
pub open spec fn trace(events: Seq<Event>) -> Seq<Stage>
    decreases events.len(),
{
    if events.len() == 0 {
        seq![Stage::Locating]
    } else {
        let prev = trace(events.drop_last());
        prev.push(step_spec(prev.last(), events.last()))
    }
}

pub proof fn lemma_trace_len(events: Seq<Event>)
    ensures
        trace(events).len() == events.len() + 1,
    decreases events.len(),
{
    if events.len() > 0 {
        lemma_trace_len(events.drop_last());
    }
}

/// The trace starts at `Locating` and follows the transition table.
pub proof fn lemma_trace_step(events: Seq<Event>, i: int)
    requires
        0 <= i < events.len(),
    ensures
        trace(events)[0] == Stage::Locating,
        trace(events)[i + 1] == step_spec(trace(events)[i], events[i]),
    decreases events.len(),
{
    lemma_trace_len(events);
    if events.len() > 0 {
        lemma_trace_len(events.drop_last());
        if i == events.len() - 1 {
            if i > 0 {
                lemma_trace_step(events.drop_last(), i - 1);
            } else {
                lemma_trace_step_zero(events);
            }
        } else {
            lemma_trace_step(events.drop_last(), i);
            assert(events.drop_last()[i] == events[i]);
        }
    }
}

proof fn lemma_trace_step_zero(events: Seq<Event>)
    ensures
        trace(events)[0] == Stage::Locating,
    decreases events.len(),
{
    if events.len() > 0 {
        lemma_trace_step_zero(events.drop_last());
        lemma_trace_len(events.drop_last());
    }
}

/// A terminal stage absorbs every later event.
pub proof fn lemma_terminal_absorbs(events: Seq<Event>, i: int, j: int)
    requires
        0 <= i <= j < trace(events).len(),
        is_terminal(trace(events)[i]),
    ensures
        trace(events)[j] == trace(events)[i],
    decreases j - i,
{
    lemma_trace_len(events);
    if j > i {
        lemma_terminal_absorbs(events, i, j - 1);
        lemma_trace_step(events, j - 1);
    }
}

/// The complete, successful run: each step in its fixed order, the
/// interchange-format report last, ending `Done`, whose exit status is 0.
pub proof fn lemma_full_run()
    ensures
        trace(
            seq![
                Event::LocateOk,
                Event::ToolFound,
                Event::Cleaned,
                Event::TestsExited,
                Event::ReportWritten,
                Event::ReportWritten,
                Event::ReportWritten,
            ],
        ) == seq![
            Stage::Locating,
            Stage::CheckingTool,
            Stage::Sanitizing,
            Stage::RunningTests,
            Stage::ReportingMarkdown,
            Stage::ReportingHtml,
            Stage::ReportingLcov,
            Stage::Done,
        ],
{
    let e0 = Seq::<Event>::empty();
    let e1 = e0.push(Event::LocateOk);
    let e2 = e1.push(Event::ToolFound);
    let e3 = e2.push(Event::Cleaned);
    let e4 = e3.push(Event::TestsExited);
    let e5 = e4.push(Event::ReportWritten);
    let e6 = e5.push(Event::ReportWritten);
    let e7 = e6.push(Event::ReportWritten);
    assert(trace(e0) == seq![Stage::Locating]);
    assert(e1.drop_last() =~= e0);
    assert(trace(e1) =~= seq![Stage::Locating, Stage::CheckingTool]);
    assert(e2.drop_last() =~= e1);
    assert(trace(e2) =~= seq![Stage::Locating, Stage::CheckingTool, Stage::Sanitizing]);
    assert(e3.drop_last() =~= e2);
    assert(trace(e3) =~= seq![
        Stage::Locating,
        Stage::CheckingTool,
        Stage::Sanitizing,
        Stage::RunningTests,
    ]);
    assert(e4.drop_last() =~= e3);
    assert(trace(e4) =~= seq![
        Stage::Locating,
        Stage::CheckingTool,
        Stage::Sanitizing,
        Stage::RunningTests,
        Stage::ReportingMarkdown,
    ]);
    assert(e5.drop_last() =~= e4);
    assert(trace(e5) =~= seq![
        Stage::Locating,
        Stage::CheckingTool,
        Stage::Sanitizing,
        Stage::RunningTests,
        Stage::ReportingMarkdown,
        Stage::ReportingHtml,
    ]);
    assert(e6.drop_last() =~= e5);
    assert(trace(e6) =~= seq![
        Stage::Locating,
        Stage::CheckingTool,
        Stage::Sanitizing,
        Stage::RunningTests,
        Stage::ReportingMarkdown,
        Stage::ReportingHtml,
        Stage::ReportingLcov,
    ]);
    assert(e7.drop_last() =~= e6);
    assert(seq![
        Event::LocateOk,
        Event::ToolFound,
        Event::Cleaned,
        Event::TestsExited,
        Event::ReportWritten,
        Event::ReportWritten,
        Event::ReportWritten,
    ] =~= e7);
    assert(trace(e7) =~= seq![
        Stage::Locating,
        Stage::CheckingTool,
        Stage::Sanitizing,
        Stage::RunningTests,
        Stage::ReportingMarkdown,
        Stage::ReportingHtml,
        Stage::ReportingLcov,
        Stage::Done,
    ]);
}

/// A missing aggregation tool ends the run at once with the missing-tool
/// status: no test ever runs and no report is ever generated.
pub proof fn lemma_missing_tool_runs_nothing(events: Seq<Event>)
    requires
        events.len() >= 2,
        events[0] == Event::LocateOk,
        events[1] == Event::ToolMissing,
    ensures
        trace(events)[2] == Stage::NoTool,
        forall|i: int| 0 <= i < trace(events).len() ==> trace(events)[i] != Stage::RunningTests,
        forall|i: int|
            0 <= i < trace(events).len() ==> !(trace(events)[i] is ReportingMarkdown
                || trace(events)[i] is ReportingHtml || trace(events)[i] is ReportingLcov
                || trace(events)[i] is Done),
{
    lemma_trace_len(events);
    lemma_trace_step(events, 0);
    lemma_trace_step(events, 1);
    assert forall|i: int| 2 <= i < trace(events).len() implies trace(events)[i]
        == Stage::NoTool by {
        lemma_terminal_absorbs(events, 2, i);
    }
}

/// Wherever the test stage is reached, the sanitizing stage lies strictly
/// before it: stale raw profiles are gone before any test writes new ones,
/// however that test run then ends.
pub proof fn lemma_clean_precedes_tests(events: Seq<Event>, i: int)
    requires
        0 <= i < trace(events).len(),
        trace(events)[i] == Stage::RunningTests,
    ensures
        exists|j: int| 0 <= j < i && #[trigger] trace(events)[j] == Stage::Sanitizing,
    decreases i,
{
    lemma_trace_len(events);
    if i == 0 {
        lemma_trace_step_zero(events);
        assert(false);
    } else {
        lemma_trace_step(events, i - 1);
        if trace(events)[i - 1] == Stage::Sanitizing {
            assert(trace(events)[i - 1] == Stage::Sanitizing);
        } else {
            assert(trace(events)[i - 1] == Stage::RunningTests);
            lemma_clean_precedes_tests(events, i - 1);
        }
    }
}

} // verus!
