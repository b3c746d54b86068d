use vstd::prelude::*;

verus! {

/// One field of a C or Rust struct as the layout analyzer measured it.
pub struct Field {
    pub name: String,
    pub field_type: String,
    pub size: usize,
    pub offset: usize,
    pub is_array: bool,
    pub array_len: usize,
    pub line: usize,
    pub is_pointer: bool,
}

/// A struct's measured layout.
pub struct StructLayout {
    pub name: String,
    pub fields: Vec<Field>,
    pub total_size: usize,
    pub file_path: String,
}

/// One member of a C enum with its value.
pub struct EnumMember {
    pub name: String,
    pub value: i64,
    pub line: usize,
}

/// A C enum's members.
pub struct EnumLayout {
    pub name: String,
    pub members: Vec<EnumMember>,
    pub file_path: String,
}

/// The outcome of comparing a server layout with a client layout.
pub struct ValidationResult {
    pub success: bool,
    pub server_size: usize,
    pub client_size: usize,
    pub issues: Vec<String>,
}

/// What the safety analysis saw happen to a variable.
#[derive(Clone, Copy, PartialEq, Eq, Debug, Structural)]
pub enum MemoryEventKind {
    Allocation,
    Free,
    PotentialMove,
    ExplicitMove,
    ConditionalFree,
    UseAfterFree,
    DoubleFree,
    BufferOverflow,
}

/// One finding of the safety analysis, at a source line.
pub struct MemoryEvent {
    pub kind: MemoryEventKind,
    pub variable: String,
    pub line: usize,
    pub context: String,
}

/// The safety analysis of one source file.
pub struct LeakReport {
    pub success: bool,
    pub findings: Vec<String>,
    pub events: Vec<MemoryEvent>,
    pub file_path: String,
}

/// A copy of an event.
pub fn copy_event(e: &MemoryEvent) -> (r: MemoryEvent)
    ensures
        r == *e,
{
    MemoryEvent {
        kind: e.kind,
        variable: e.variable.clone(),
        line: e.line,
        context: e.context.clone(),
    }
}

/// The report after adding overflow events: every event joins the events
/// and its context joins the findings, in order, and any event marks the
/// report as failed.
pub open spec fn spec_with_overflows(
    success: bool,
    findings: Seq<String>,
    events: Seq<MemoryEvent>,
    overflows: Seq<MemoryEvent>,
) -> (bool, Seq<String>, Seq<MemoryEvent>) {
    (
        success && overflows.len() == 0,
        findings + overflows.map_values(|e: MemoryEvent| e.context),
        events + overflows,
    )
}

/// Combines the leak analysis of a file with its overflow analysis.
///
/// A failed leak analysis is the result. Otherwise its report is returned,
/// with the overflow events added as `spec_with_overflows` says when the
/// overflow analysis succeeded, and as it was when that analysis failed.
pub fn run_safety_analysis(
    leaks: Result<LeakReport, String>,
    overflows: Result<Vec<MemoryEvent>, String>,
) -> (r: Result<LeakReport, String>)
    ensures
        (leaks is Err) ==> (r is Err && r->Err_0 == leaks->Err_0),
        (leaks is Ok) ==> (r is Ok && r->Ok_0.file_path == leaks->Ok_0.file_path),
        (leaks is Ok && overflows is Err) ==> (r->Ok_0.success == leaks->Ok_0.success
            && r->Ok_0.findings@ == leaks->Ok_0.findings@ && r->Ok_0.events@
            == leaks->Ok_0.events@),
        (leaks is Ok && overflows is Ok) ==> ((r->Ok_0.success, r->Ok_0.findings@, r->Ok_0.events@)
            == spec_with_overflows(
            leaks->Ok_0.success,
            leaks->Ok_0.findings@,
            leaks->Ok_0.events@,
            overflows->Ok_0@,
        )),
{
    let mut report = match leaks {
        Err(e) => {
            return Err(e);
        },
        Ok(report) => report,
    };
    let events = match overflows {
        Err(_) => {
            return Ok(report);
        },
        Ok(events) => events,
    };
    let ghost f0 = report.findings@;
    let ghost e0 = report.events@;
    let ghost s0 = report.success;
    let ghost p0 = report.file_path;
    let mut i: usize = 0;
    while i < events.len()
        invariant
            i <= events@.len(),
            report.findings@ == f0 + events@.subrange(0, i as int).map_values(
                |e: MemoryEvent| e.context,
            ),
            report.events@ == e0 + events@.subrange(0, i as int),
            report.success == (s0 && i == 0),
            report.file_path == p0,
        decreases events@.len() - i,
    {
        let event = &events[i];
        report.findings.push(event.context.clone());
        report.events.push(copy_event(event));
        report.success = false;
        i = i + 1;
        assert(events@.subrange(0, i as int) =~= events@.subrange(0, i - 1).push(events@[i - 1]));
        assert(report.findings@ =~= f0 + events@.subrange(0, i as int).map_values(
            |e: MemoryEvent| e.context,
        ));
        assert(report.events@ =~= e0 + events@.subrange(0, i as int));
    }
    assert(events@.subrange(0, events@.len() as int) =~= events@);
    Ok(report)
}

} // verus!
