//! One pass over the selected mutants: the states it goes through, what is to
//! be done in each, and how the answer leads to the next.
//!
//! A file is read or written or the suite is run, and how that went decides what
//! comes next, until the pass finishes with a report or aborts. Every mutated
//! file is restored and read back before its verdict counts.

use crate::config::MutantView;
use crate::mutation::{mutation_of, occurrence_complaint};
use crate::names::{distinct, first_groups};
use crate::pattern::all_matches;
use crate::suite::{baseline_complaint, fail_pattern_distrust, OutcomeView, SuiteOutcome};
use crate::text::decimal;
use crate::verdict::{
    all_killed, names_captured, scored, summary_line, summary_of, verdict_line, Summary, Verdict,
    VerdictView,
};
use crate::views::group_deep_views;
use vstd::prelude::*;
use vstd::string::*;

verus! {

broadcast use group_deep_views;

/// Exit code of a pass that could not run or could not be trusted.
pub const ABORT_EXIT: i32 = 2;

// ---------------------------------------------------------------- report ----
/// The baseline's own tally.
#[derive(Debug, Clone, Copy, PartialEq, Eq)]
pub struct BaselineReport {
    pub passed: u64,
    pub failed: u64,
}

/// One mutant and its verdict.
#[derive(Debug)]
pub struct MutantReport {
    pub name: String,
    pub file: String,
    pub verdict: Verdict,
}

/// A mutant's name and file and its verdict, by their texts.
pub struct MutantReportView {
    pub name: Seq<char>,
    pub file: Seq<char>,
    pub verdict: VerdictView,
}

impl View for MutantReport {
    type V = MutantReportView;

    open spec fn view(&self) -> MutantReportView {
        MutantReportView { name: self.name@, file: self.file@, verdict: self.verdict@ }
    }
}

impl DeepView for MutantReport {
    type V = MutantReportView;

    open spec fn deep_view(&self) -> MutantReportView {
        self@
    }
}

/// What a finished pass found.
#[derive(Debug)]
pub struct Report {
    pub baseline: BaselineReport,
    pub mutants: Vec<MutantReport>,
    pub summary: Summary,
}

/// A report's numbers and texts.
pub struct ReportView {
    pub baseline: BaselineReport,
    pub mutants: Seq<MutantReportView>,
    pub summary: Summary,
}

impl View for Report {
    type V = ReportView;

    open spec fn view(&self) -> ReportView {
        ReportView {
            baseline: self.baseline,
            mutants: self.mutants.deep_view(),
            summary: self.summary,
        }
    }
}

/// A report is seen as it stands: its numbers are its own, and each mutant is listed
/// with its own name, file and verdict.
pub proof fn law_a_report_is_seen_as_it_stands(report: Report, i: int)
    ensures
        report@.baseline == report.baseline,
        report@.summary == report.summary,
        report@.mutants.len() == report.mutants@.len(),
        0 <= i < report.mutants@.len() ==> {
            &&& report@.mutants[i].name == report.mutants@[i].name@
            &&& report@.mutants[i].file == report.mutants@[i].file@
            &&& report@.mutants[i].verdict == report.mutants@[i].verdict@
        },
{
}

// ------------------------------------------------------ actions and events ----
/// What is to be done for a pass.
#[derive(Debug)]
pub enum Action {
    /// Read a file of the suite's root.
    Read { file: String },
    /// Replace a file of the suite's root, all or nothing.
    Write { file: String, content: String },
    /// Run the suite once.
    RunSuite,
    /// The pass is over.
    Finish { report: Report, exit_code: i32 },
    /// The pass cannot go on.
    Abort { message: String },
}

/// An action's texts.
pub enum ActionView {
    Read { file: Seq<char> },
    Write { file: Seq<char>, content: Seq<char> },
    RunSuite,
    Finish { report: ReportView, exit_code: i32 },
    Abort { message: Seq<char> },
}

impl View for Action {
    type V = ActionView;

    open spec fn view(&self) -> ActionView {
        match self {
            Action::Read { file } => ActionView::Read { file: file@ },
            Action::Write { file, content } => ActionView::Write { file: file@, content: content@ },
            Action::RunSuite => ActionView::RunSuite,
            Action::Finish { report, exit_code } => ActionView::Finish {
                report: report@,
                exit_code: *exit_code,
            },
            Action::Abort { message } => ActionView::Abort { message: message@ },
        }
    }
}

/// How an action went. An error comes as the text that tells of it.
pub enum Event {
    FileRead(Result<String, String>),
    FileWritten(Result<(), String>),
    SuiteDone(Result<SuiteOutcome, String>),
}

/// An event's texts.
pub enum EventView {
    FileRead(Result<Seq<char>, Seq<char>>),
    FileWritten(Result<(), Seq<char>>),
    SuiteDone(Result<OutcomeView, Seq<char>>),
}

/// A run's outcome, or the text of the error that kept it from running.
pub open spec fn run_view(run: Result<SuiteOutcome, String>) -> Result<OutcomeView, Seq<char>> {
    match run {
        Ok(outcome) => Ok(outcome@),
        Err(message) => Err(message@),
    }
}

impl View for Event {
    type V = EventView;

    open spec fn view(&self) -> EventView {
        match self {
            Event::FileRead(Ok(content)) => EventView::FileRead(Ok(content@)),
            Event::FileRead(Err(message)) => EventView::FileRead(Err(message@)),
            Event::FileWritten(Ok(())) => EventView::FileWritten(Ok(())),
            Event::FileWritten(Err(message)) => EventView::FileWritten(Err(message@)),
            Event::SuiteDone(run) => EventView::SuiteDone(run_view(*run)),
        }
    }
}

/// What the machine says: lines to print, then an action.
#[derive(Debug)]
pub struct Step {
    pub lines: Vec<String>,
    pub action: Action,
}

/// A step's texts.
pub struct StepView {
    pub lines: Seq<Seq<char>>,
    pub action: ActionView,
}

impl View for Step {
    type V = StepView;

    open spec fn view(&self) -> StepView {
        StepView { lines: self.lines.deep_view(), action: self.action@ }
    }
}

/// An action is seen as it stands, and so are the lines and the action of a step.
pub proof fn law_a_step_is_seen_as_it_stands(step: Step, i: int)
    ensures
        step@.lines.len() == step.lines@.len(),
        0 <= i < step.lines@.len() ==> step@.lines[i] == step.lines@[i]@,
        step@.action == step.action@,
        step.action matches Action::Read { file } ==> step.action@ == (ActionView::Read {
            file: file@,
        }),
        step.action matches Action::Write { file, content } ==> step.action@ == (
        ActionView::Write { file: file@, content: content@ }),
        step.action is RunSuite ==> step.action@ is RunSuite,
        step.action matches Action::Finish { report, exit_code } ==> step.action@ == (
        ActionView::Finish { report: report@, exit_code }),
        step.action matches Action::Abort { message } ==> step.action@ == (ActionView::Abort {
            message: message@,
        }),
{
}

/// An event is seen as it stands: a success with what it brought, a failure with what
/// tells of it.
pub proof fn law_an_event_is_seen_as_it_stands(event: Event)
    ensures
        event matches Event::FileRead(Ok(content)) ==> event@ == EventView::FileRead(
            Ok::<Seq<char>, Seq<char>>(content@),
        ),
        event matches Event::FileRead(Err(message)) ==> event@ == EventView::FileRead(
            Err::<Seq<char>, Seq<char>>(message@),
        ),
        event matches Event::FileWritten(Ok(_)) ==> event@ == EventView::FileWritten(
            Ok::<(), Seq<char>>(()),
        ),
        event matches Event::FileWritten(Err(message)) ==> event@ == EventView::FileWritten(
            Err::<(), Seq<char>>(message@),
        ),
        event matches Event::SuiteDone(Ok(outcome)) ==> event@ == EventView::SuiteDone(
            Ok::<OutcomeView, Seq<char>>(outcome@),
        ),
        event matches Event::SuiteDone(Err(message)) ==> event@ == EventView::SuiteDone(
            Err::<OutcomeView, Seq<char>>(message@),
        ),
{
}

// ----------------------------------------------------------------- states ----
/// What a pass is waiting for, by its texts.
pub enum PhaseView {
    Loading,
    Baseline,
    Checking,
    Mutating,
    Probing,
    Restoring(Result<OutcomeView, Seq<char>>),
    Verifying(Result<OutcomeView, Seq<char>>),
    Finished,
    Aborted(Seq<char>),
}

/// The state of a pass.
pub struct PassView {
    /// The selected mutants.
    pub mutants: Seq<MutantView>,
    /// The source of the fail pattern, if there is one.
    pub fail_pattern: Option<Seq<char>>,
    /// The files that the mutants touch, each once.
    pub files: Seq<Seq<char>>,
    /// The contents of those files that were read before anything ran.
    pub originals: Seq<Seq<char>>,
    /// The baseline's tally, once there is one.
    pub baseline: BaselineReport,
    /// The verdicts so far, in the order of the mutants.
    pub verdicts: Seq<VerdictView>,
    /// What is awaited.
    pub phase: PhaseView,
}

/// The files of some mutants, in order, with repetitions.
pub open spec fn files_of(mutants: Seq<MutantView>) -> Seq<Seq<char>> {
    mutants.map_values(|m: MutantView| m.file)
}

impl PassView {
    /// The state in which a pass over these mutants begins.
    pub open spec fn initial(
        mutants: Seq<MutantView>,
        fail_pattern: Option<Seq<char>>,
    ) -> PassView {
        PassView {
            mutants,
            fail_pattern,
            files: distinct(files_of(mutants)),
            originals: Seq::empty(),
            baseline: BaselineReport { passed: 0, failed: 0 },
            verdicts: Seq::empty(),
            phase: PhaseView::Loading,
        }
    }

    /// The mutant that is probed, or would be next.
    pub open spec fn current(self) -> MutantView {
        self.mutants[self.verdicts.len() as int]
    }

    /// The original content of a file.
    pub open spec fn original_of(self, file: Seq<char>) -> Seq<char> {
        self.originals[self.files.index_of(file)]
    }

    /// What the current mutant makes of its file.
    pub open spec fn mutation(self) -> Result<Seq<char>, nat> {
        mutation_of(self.original_of(self.current().file), self.current())
    }

    /// Whether the pass has ended, one way or the other.
    pub open spec fn is_over(self) -> bool {
        self.phase is Finished || self.phase is Aborted
    }

    /// Whether a mutant is being probed: its mutation is about to be written,
    /// written, or being undone.
    pub open spec fn is_probing(self) -> bool {
        ||| self.phase is Mutating
        ||| self.phase is Probing
        ||| self.phase is Restoring
        ||| self.phase is Verifying
    }

    /// What holds of every pass at every time: the files are those of the
    /// mutants, there is an original for each once they are loaded, no mutant
    /// has a verdict before the baseline was found green, and only a mutant
    /// whose target occurs exactly once is probed.
    pub open spec fn wf(self) -> bool {
        &&& self.mutants.len() > 0
        &&& self.files == distinct(files_of(self.mutants))
        &&& self.verdicts.len() <= self.mutants.len()
        &&& self.originals.len() <= self.files.len()
        &&& self.phase is Loading ==> self.originals.len() < self.files.len()
        &&& !(self.phase is Loading) && !(self.phase is Aborted) ==> self.originals.len()
            == self.files.len()
        &&& self.phase is Loading || self.phase is Baseline ==> self.verdicts.len() == 0
        &&& self.phase is Checking || self.is_probing() ==> self.verdicts.len()
            < self.mutants.len()
        &&& self.phase is Finished ==> self.verdicts.len() == self.mutants.len()
        &&& self.is_probing() ==> self.mutation() is Ok
        &&& self.verdicts.len() > 0 || self.phase is Checking || self.is_probing()
            || self.phase is Finished ==> self.baseline.passed > 0 && self.baseline.failed == 0
    }

    /// The report of a pass in this state.
    pub open spec fn report(self) -> ReportView {
        ReportView {
            baseline: self.baseline,
            mutants: Seq::new(
                self.verdicts.len(),
                |i: int|
                    MutantReportView {
                        name: self.mutants[i].name,
                        file: self.mutants[i].file,
                        verdict: self.verdicts[i],
                    },
            ),
            summary: summary_of(self.verdicts),
        }
    }

    /// What is to be done in this state.
    pub open spec fn action(self) -> ActionView {
        match self.phase {
            PhaseView::Loading => ActionView::Read {
                file: self.files[self.originals.len() as int],
            },
            PhaseView::Baseline => ActionView::RunSuite,
            PhaseView::Checking => ActionView::Read { file: self.current().file },
            PhaseView::Mutating => ActionView::Write {
                file: self.current().file,
                content: self.mutation()->Ok_0,
            },
            PhaseView::Probing => ActionView::RunSuite,
            PhaseView::Restoring(_) => ActionView::Write {
                file: self.current().file,
                content: self.original_of(self.current().file),
            },
            PhaseView::Verifying(_) => ActionView::Read { file: self.current().file },
            PhaseView::Finished => ActionView::Finish {
                report: self.report(),
                exit_code: if all_killed(self.verdicts) {
                    0
                } else {
                    1
                },
            },
            PhaseView::Aborted(message) => ActionView::Abort { message },
        }
    }

    /// The same pass, waiting for something else.
    pub open spec fn awaiting(self, phase: PhaseView) -> PassView {
        PassView { phase, ..self }
    }

    /// The pass ended by a message.
    pub open spec fn aborted(self, message: Seq<char>) -> (PassView, Seq<Seq<char>>) {
        (self.awaiting(PhaseView::Aborted(message)), Seq::empty())
    }

    /// The pass with the current mutant's verdict, and the lines that report
    /// it. After the last one the pass is finished.
    pub open spec fn recorded(self, verdict: VerdictView) -> (PassView, Seq<Seq<char>>) {
        let verdicts = self.verdicts.push(verdict);
        let line = self.current().name + ": "@ + verdict_line(verdict, self.fail_pattern is Some);
        if verdicts.len() < self.mutants.len() {
            (PassView { verdicts, phase: PhaseView::Checking, ..self }, seq![line])
        } else {
            (
                PassView { verdicts, phase: PhaseView::Finished, ..self },
                seq![line, summary_line(summary_of(verdicts), self.mutants.len())],
            )
        }
    }

    /// Why the fail pattern cannot be trusted after this baseline run, if it
    /// cannot.
    pub open spec fn distrust(self, baseline: OutcomeView) -> Option<Seq<char>> {
        match (self.fail_pattern, baseline) {
            (
                Some(pattern),
                OutcomeView::Ran { passed, failed, exit_ok, output },
            ) => fail_pattern_distrust(distinct(first_groups(all_matches(pattern, output)))),
            _ => None,
        }
    }

    /// The pass after its baseline run.
    pub open spec fn after_baseline(self, outcome: OutcomeView) -> (PassView, Seq<Seq<char>>) {
        match (baseline_complaint(outcome), self.distrust(outcome), outcome) {
            (Some(defect), _, _) => self.aborted(defect),
            (None, Some(defect), _) => self.aborted(defect),
            (None, None, OutcomeView::Ran { passed, failed, exit_ok, output }) => (
                PassView {
                    baseline: BaselineReport { passed, failed },
                    phase: PhaseView::Checking,
                    ..self
                },
                seq!["baseline: green ("@ + decimal(passed as nat) + " passed)"@],
            ),
            _ => (self, Seq::empty()),
        }
    }

    /// The pass after a file's original content was read.
    pub open spec fn after_load(self, content: Seq<char>) -> (PassView, Seq<Seq<char>>) {
        let originals = self.originals.push(content);
        if originals.len() < self.files.len() {
            (PassView { originals, ..self }, Seq::empty())
        } else {
            (
                PassView { originals, phase: PhaseView::Baseline, ..self },
                seq!["baseline: running suite ..."@],
            )
        }
    }

    /// The pass after the current file was looked at before its probe. A tree
    /// that is no longer pristine ends the pass; an invalid mutant gets its
    /// verdict without anything being written.
    pub open spec fn after_check(self, content: Seq<char>) -> (PassView, Seq<Seq<char>>) {
        let file = self.current().file;
        if content != self.original_of(file) {
            self.aborted(
                file + " changed on disk mid-pass — tree is not pristine, aborting"@,
            )
        } else {
            match self.mutation() {
                Err(n) => self.recorded(
                    VerdictView::HarnessError { detail: occurrence_complaint(n) },
                ),
                Ok(_) => (self.awaiting(PhaseView::Mutating), Seq::empty()),
            }
        }
    }

    /// The pass after the current file was read back. Only a byte-exact restore
    /// lets the run count.
    pub open spec fn after_restore(
        self,
        run: Result<OutcomeView, Seq<char>>,
        content: Seq<char>,
    ) -> (PassView, Seq<Seq<char>>) {
        let file = self.current().file;
        if content != self.original_of(file) {
            self.aborted("restore of "@ + file + " is not byte-exact — tree is dirty"@)
        } else {
            match run {
                Err(message) => self.aborted(message),
                Ok(outcome) => self.recorded(
                    scored(outcome, names_captured(outcome, self.fail_pattern)),
                ),
            }
        }
    }

    /// The pass after an event, and the lines to print. An event that answers
    /// nothing that was asked for changes nothing.
    pub open spec fn next(self, event: EventView) -> (PassView, Seq<Seq<char>>) {
        let file = self.current().file;
        match (self.phase, event) {
            (PhaseView::Loading, EventView::FileRead(Ok(content))) => self.after_load(content),
            (PhaseView::Loading, EventView::FileRead(Err(e))) => self.aborted(
                "cannot read "@ + self.files[self.originals.len() as int] + ": "@ + e,
            ),
            (PhaseView::Baseline, EventView::SuiteDone(Ok(outcome))) => self.after_baseline(
                outcome,
            ),
            (PhaseView::Baseline, EventView::SuiteDone(Err(e))) => self.aborted(e),
            (PhaseView::Checking, EventView::FileRead(Ok(content))) => self.after_check(content),
            (PhaseView::Checking, EventView::FileRead(Err(e))) => self.aborted(
                "cannot re-read "@ + file + ": "@ + e,
            ),
            (PhaseView::Mutating, EventView::FileWritten(Ok(()))) => (
                self.awaiting(PhaseView::Probing),
                Seq::empty(),
            ),
            (PhaseView::Mutating, EventView::FileWritten(Err(e))) => self.aborted(
                "cannot write mutant to "@ + file + ": "@ + e,
            ),
            (PhaseView::Probing, EventView::SuiteDone(run)) => (
                self.awaiting(PhaseView::Restoring(run)),
                Seq::empty(),
            ),
            (PhaseView::Restoring(run), EventView::FileWritten(Ok(()))) => (
                self.awaiting(PhaseView::Verifying(run)),
                Seq::empty(),
            ),
            (PhaseView::Restoring(_), EventView::FileWritten(Err(e))) => self.aborted(
                "RESTORE FAILED for "@ + file + ": "@ + e + " — tree is dirty"@,
            ),
            (PhaseView::Verifying(run), EventView::FileRead(Ok(content))) => self.after_restore(
                run,
                content,
            ),
            (PhaseView::Verifying(_), EventView::FileRead(Err(e))) => self.aborted(
                "cannot verify restore of "@ + file + ": "@ + e,
            ),
            _ => (self, Seq::empty()),
        }
    }
}

} // verus!
