//! From a report to its findings: which kind of report a file name
//! announces, and what is found in a report of each kind.

use crate::crashlog::{CrashLog, OS};
use crate::stack::{
    crashing_thread, holds_crash_entry, is_crashing_thread, lemma_crashing_thread,
    lemma_crashing_thread_is_unique, trace_text, Frame, ProcessState,
};
use crate::text::{decimal_string, decimal_text, ends_with, has_suffix};
use vstd::prelude::*;

verus! {

/// The key of the finding that holds the crash reason.
pub const CRASH_REASON_KEY: &'static str = "Crash reason";

/// The key of the finding that sums up the machine.
pub const OS_KEY: &'static str = "OS";

/// The key of the finding that holds the crashing thread's stack.
pub const STACKTRACE_KEY: &'static str = "Stacktrace";

/// The kinds of report, told apart by the end of the file's name.
#[derive(Debug, Clone, Copy, PartialEq, Eq)]
pub enum ReportKind {
    /// A crash log in plain text.
    CrashLog,
    /// A minidump.
    Minidump,
    /// Anything else: not handled.
    Unhandled,
}

/// One labelled result of the analysis.
#[derive(Debug)]
pub struct Finding {
    pub key: String,
    pub value: String,
}

/// A report once it is decoded.
#[derive(Debug)]
pub enum Report {
    CrashLog(CrashLog),
    Minidump(ProcessState),
    Unhandled,
}

/// What the analysis of one report gives: the findings in the order in
/// which they are to be shown, and whether the report was handled at all.
#[derive(Debug)]
pub struct Analysis {
    pub findings: Vec<Finding>,
    pub handled: bool,
}

impl View for Finding {
    type V = (Seq<char>, Seq<char>);

    open spec fn view(&self) -> (Seq<char>, Seq<char>) {
        (self.key@, self.value@)
    }
}

/// Findings as pairs of key and value.
pub open spec fn shown(findings: Seq<Finding>) -> Seq<(Seq<char>, Seq<char>)> {
    findings.map_values(|finding: Finding| finding@)
}

/// The kind of report that a file of this name holds. Case counts.
pub open spec fn report_kind(name: Seq<char>) -> ReportKind {
    if has_suffix(name, ".json"@) || has_suffix(name, ".json.log"@) {
        ReportKind::CrashLog
    } else if has_suffix(name, ".dmp"@) {
        ReportKind::Minidump
    } else {
        ReportKind::Unhandled
    }
}

/// The machine in one line: system, release, memory and logical cores.
pub open spec fn os_summary(os: OS) -> Seq<char> {
    os.os@ + " ("@ + os.release@ + "), "@ + os.memory@ + " RAM, "@ + decimal_text(
        os.hardware_concurrency as nat,
    ) + " threads"@
}

/// What a crash log shows: why the application crashed, word for word,
/// and then the machine.
pub open spec fn crashlog_report(log: CrashLog) -> Seq<(Seq<char>, Seq<char>)> {
    seq![(CRASH_REASON_KEY@, log.crash.reason@), (OS_KEY@, os_summary(log.info.os))]
}

/// What a symbolized minidump shows: the stack of the thread that crashed,
/// or nothing where no thread is found to have crashed.
pub open spec fn stacktrace_report(threads: Seq<Seq<Frame>>) -> Seq<(Seq<char>, Seq<char>)> {
    match crashing_thread(threads) {
        Some(index) => seq![(STACKTRACE_KEY@, trace_text(threads[index]))],
        None => Seq::empty(),
    }
}

impl ReportKind {
    /// Whether a report of this kind is handled.
    pub fn is_handled(&self) -> (handled: bool)
        ensures
            handled == !(self is Unhandled),
    {
        match self {
            ReportKind::Unhandled => false,
            _ => true,
        }
    }
}

/// The kind of report that the file called `name` holds.
pub fn classify(name: &str) -> (kind: ReportKind)
    ensures
        kind == report_kind(name@),
{
    if ends_with(name, ".json") || ends_with(name, ".json.log") {
        ReportKind::CrashLog
    } else if ends_with(name, ".dmp") {
        ReportKind::Minidump
    } else {
        ReportKind::Unhandled
    }
}

/// The machine in one line.
pub fn os_line(os: &OS) -> (line: String)
    ensures
        line@ == os_summary(*os),
{
    let mut line = os.os.clone();
    line.append(" (");
    line.append(os.release.as_str());
    line.append("), ");
    line.append(os.memory.as_str());
    line.append(" RAM, ");
    line.append(decimal_string(os.hardware_concurrency).as_str());
    line.append(" threads");
    line
}

/// The findings of a crash log.
pub fn crashlog_findings(log: &CrashLog) -> (findings: Vec<Finding>)
    ensures
        shown(findings@) == crashlog_report(*log),
{
    let mut findings = Vec::new();
    findings.push(Finding { key: CRASH_REASON_KEY.to_owned(), value: log.crash.reason.clone() });
    findings.push(Finding { key: OS_KEY.to_owned(), value: os_line(&log.info.os) });
    assert(shown(findings@) =~= crashlog_report(*log));
    findings
}

/// The findings of a symbolized minidump: the stack of the first thread
/// that holds the crash entry, and nothing where there is no such thread.
pub fn stacktrace_findings(state: &ProcessState) -> (findings: Vec<Finding>)
    ensures
        shown(findings@) == stacktrace_report(state@),
        forall|index: int|
            is_crashing_thread(state@, index) ==> shown(findings@) == seq![
                (STACKTRACE_KEY@, trace_text(state@[index])),
            ],
        findings@.len() == 0 <==> forall|index: int|
            0 <= index < state@.len() ==> !holds_crash_entry(#[trigger] state@[index]),
{
    let mut findings = Vec::new();
    proof {
        lemma_crashing_thread(state@);
        assert forall|index: int| is_crashing_thread(state@, index) implies crashing_thread(
            state@,
        ) == Some(index) by {
            lemma_crashing_thread_is_unique(state@, index);
        }
    }
    match state.crashing_thread() {
        Some(index) => {
            let text = state.threads[index].trace();
            findings.push(Finding { key: STACKTRACE_KEY.to_owned(), value: text });
            assert(state@[index as int] == state.threads[index as int]@);
            assert(shown(findings@) =~= stacktrace_report(state@));
        },
        None => {
            assert(shown(findings@) =~= stacktrace_report(state@));
        },
    }
    findings
}

/// The analysis of a decoded report. A report that is not handled gives no
/// findings and fails; one of the other two kinds gives its findings and
/// succeeds, also where a minidump shows no crashing thread.
pub fn analyze(report: &Report) -> (analysis: Analysis)
    ensures
        analysis.handled == !(report is Unhandled),
        shown(analysis.findings@) == (match *report {
            Report::CrashLog(log) => crashlog_report(log),
            Report::Minidump(state) => stacktrace_report(state@),
            Report::Unhandled => Seq::empty(),
        }),
{
    match report {
        Report::CrashLog(log) => Analysis { findings: crashlog_findings(log), handled: true },
        Report::Minidump(state) => Analysis { findings: stacktrace_findings(state), handled: true },
        Report::Unhandled => {
            let findings: Vec<Finding> = Vec::new();
            assert(shown(findings@) =~= Seq::empty());
            Analysis { findings, handled: false }
        },
    }
}

} // verus!
