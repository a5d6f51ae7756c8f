//! The machine that walks through a pass.

use crate::config::MutantConfig;
use crate::mutation::{apply_mutant, complain_of_occurrences};
use crate::names::{distinct, law_distinct_keeps_each_value_once_in_first_seen_order};
use crate::pass::{
    files_of, run_view, Action, BaselineReport, Event, MutantReport, PassView, PhaseView, Report,
    Step, StepView,
};
use crate::pattern::Pattern;
use crate::suite::{baseline_defect, fail_pattern_defect, SuiteOutcome};
use crate::text::{decimal_text, same_text};
use crate::verdict::{
    describe_summary, describe_verdict, exit_code, mutant_verdict, summarize, summary_of, Verdict,
};
use crate::views::group_deep_views;
use vstd::pervasive::unreached;
use vstd::prelude::*;
use vstd::string::*;

verus! {

broadcast use group_deep_views;

/// What a pass is waiting for.
enum Phase {
    /// The next file's original content.
    Loading,
    /// The run on the unmutated tree.
    Baseline,
    /// The current file's content, which must still be the original.
    Checking,
    /// The mutated file to be written.
    Mutating,
    /// The run on the mutated tree.
    Probing,
    /// The original to be written back after this run.
    Restoring(Result<SuiteOutcome, String>),
    /// The restored file to be read back after this run.
    Verifying(Result<SuiteOutcome, String>),
    /// Nothing: every mutant has its verdict.
    Finished,
    /// Nothing: the pass cannot go on.
    Aborted(String),
}

impl View for Phase {
    type V = PhaseView;

    closed spec fn view(&self) -> PhaseView {
        match self {
            Phase::Loading => PhaseView::Loading,
            Phase::Baseline => PhaseView::Baseline,
            Phase::Checking => PhaseView::Checking,
            Phase::Mutating => PhaseView::Mutating,
            Phase::Probing => PhaseView::Probing,
            Phase::Restoring(run) => PhaseView::Restoring(run_view(*run)),
            Phase::Verifying(run) => PhaseView::Verifying(run_view(*run)),
            Phase::Finished => PhaseView::Finished,
            Phase::Aborted(message) => PhaseView::Aborted(message@),
        }
    }
}

/// What a pass has gathered.
struct Ledger {
    mutants: Vec<MutantConfig>,
    fail_pattern: Option<Pattern>,
    files: Vec<String>,
    originals: Vec<String>,
    baseline: BaselineReport,
    verdicts: Vec<Verdict>,
}

impl Ledger {
    /// The state of a pass that has gathered this and waits for that.
    spec fn in_phase(self, phase: PhaseView) -> PassView {
        PassView {
            mutants: self.mutants.deep_view(),
            fail_pattern: self.fail_pattern.deep_view(),
            files: self.files.deep_view(),
            originals: self.originals.deep_view(),
            baseline: self.baseline,
            verdicts: self.verdicts.deep_view(),
            phase,
        }
    }
}

/// A pass over the selected mutants. It performs nothing itself: it says what
/// to do, is told how that went, and says what to do next.
pub struct Pass {
    ledger: Ledger,
    phase: Phase,
}

impl View for Pass {
    type V = PassView;

    closed spec fn view(&self) -> PassView {
        self.ledger.in_phase(self.phase@)
    }
}

/// Collects the files of the mutants, each once.
fn distinct_files(mutants: &Vec<MutantConfig>) -> (r: Vec<String>)
    ensures
        r.deep_view() == distinct(files_of(mutants.deep_view())),
{
    let ghost all = files_of(mutants.deep_view());
    let mut files: Vec<String> = Vec::new();
    assert(files.deep_view() =~= distinct(all.take(0)));
    for i in 0..mutants.len()
        invariant
            all == files_of(mutants.deep_view()),
            files.deep_view() == distinct(all.take(i as int)),
    {
        proof {
            assert(all[i as int] == mutants@[i as int].file@);
            assert(all.take(i + 1).drop_last() == all.take(i as int));
        }
        if find_file(&files, mutants[i].file.as_str()).is_none() {
            files.push(mutants[i].file.clone());
        }
    }
    assert(all.take(all.len() as int) == all);
    files
}

/// Finds a file among the files of a pass.
fn find_file(files: &Vec<String>, file: &str) -> (r: Option<usize>)
    ensures
        match r {
            Some(i) => i < files@.len() && files.deep_view()[i as int] == file@
                && files.deep_view().contains(file@),
            None => !files.deep_view().contains(file@),
        },
{
    for i in 0..files.len()
        invariant
            forall|j: int| 0 <= j < i ==> files.deep_view()[j] != file@,
    {
        if same_text(files[i].as_str(), file) {
            assert(files.deep_view()[i as int] == file@);
            return Some(i);
        }
    }
    None
}

/// The file of every mutant is among the files of a pass, at one place.
pub(crate) proof fn lemma_file_is_known(pass: PassView, i: int, at: int)
    requires
        pass.wf(),
        0 <= i < pass.mutants.len(),
    ensures
        pass.files.contains(pass.mutants[i].file),
        0 <= at < pass.files.len() && pass.files[at] == pass.mutants[i].file ==> at
            == pass.files.index_of(pass.mutants[i].file),
        0 <= pass.files.index_of(pass.mutants[i].file) < pass.files.len(),
{
    let all = files_of(pass.mutants);
    law_distinct_keeps_each_value_once_in_first_seen_order(all);
    assert(all[i] == pass.mutants[i].file);
    assert(all.contains(pass.mutants[i].file));
    assert(distinct(all).contains(pass.mutants[i].file));
}

/// A pass has at least one file to read.
pub(crate) proof fn lemma_some_file(pass: PassView)
    requires
        pass.mutants.len() > 0,
        pass.files == distinct(files_of(pass.mutants)),
    ensures
        pass.files.len() > 0,
{
    let all = files_of(pass.mutants);
    law_distinct_keeps_each_value_once_in_first_seen_order(all);
    assert(all.contains(all[0]));
    assert(distinct(all).contains(all[0]));
}

impl Pass {
    /// The original content of the current mutant's file.
    fn original(&self) -> (r: &String)
        requires
            self@.wf(),
            self@.originals.len() == self@.files.len(),
            self@.verdicts.len() < self@.mutants.len(),
        ensures
            r@ == self@.original_of(self@.current().file),
    {
        let k: usize = self.ledger.verdicts.len();
        proof {
            lemma_file_is_known(self@, k as int, 0);
        }
        let i: usize = find_file(&self.ledger.files, self.ledger.mutants[k].file.as_str()).unwrap();
        proof {
            lemma_file_is_known(self@, k as int, i as int);
        }
        &self.ledger.originals[i]
    }

    /// The report of the pass.
    fn report(&self) -> (r: Report)
        requires
            self@.wf(),
        ensures
            r@ == self@.report(),
    {
        let mut mutants: Vec<MutantReport> = Vec::new();
        for i in 0..self.ledger.verdicts.len()
            invariant
                self@.wf(),
                mutants.deep_view() == self@.report().mutants.take(i as int),
        {
            let m = &self.ledger.mutants[i];
            mutants.push(
                MutantReport {
                    name: m.name.clone(),
                    file: m.file.clone(),
                    verdict: self.ledger.verdicts[i].duplicate(),
                },
            );
            assert(mutants.deep_view() =~= self@.report().mutants.take(i + 1));
        }
        let summary = summarize(self.ledger.verdicts.as_slice());
        proof {
            assert(self.ledger.verdicts@.map_values(|v: Verdict| v@)
                =~= self.ledger.verdicts.deep_view());
        }
        assert(mutants.deep_view() =~= self@.report().mutants);
        Report { baseline: self.ledger.baseline, mutants, summary }
    }

    /// What is to be done now.
    pub fn action(&self) -> (r: Action)
        requires
            self@.wf(),
        ensures
            r@ == self@.action(),
    {
        match &self.phase {
            Phase::Loading => Action::Read {
                file: self.ledger.files[self.ledger.originals.len()].clone(),
            },
            Phase::Baseline => Action::RunSuite,
            Phase::Checking => Action::Read {
                file: self.ledger.mutants[self.ledger.verdicts.len()].file.clone(),
            },
            Phase::Mutating => {
                let mutant = &self.ledger.mutants[self.ledger.verdicts.len()];
                match apply_mutant(self.original().as_str(), mutant) {
                    Ok(content) => Action::Write { file: mutant.file.clone(), content },
                    Err(_) => unreached(),
                }
            },
            Phase::Probing => Action::RunSuite,
            Phase::Restoring(_) => Action::Write {
                file: self.ledger.mutants[self.ledger.verdicts.len()].file.clone(),
                content: self.original().clone(),
            },
            Phase::Verifying(_) => Action::Read {
                file: self.ledger.mutants[self.ledger.verdicts.len()].file.clone(),
            },
            Phase::Finished => {
                let code: i32 = exit_code(self.ledger.verdicts.as_slice());
                proof {
                    assert(self.ledger.verdicts@.map_values(|v: Verdict| v@)
                        =~= self.ledger.verdicts.deep_view());
                }
                Action::Finish { report: self.report(), exit_code: code }
            },
            Phase::Aborted(message) => Action::Abort { message: message.clone() },
        }
    }

    /// Begins a pass over some mutants: the first thing to do is to read the
    /// first file.
    pub fn start(mutants: Vec<MutantConfig>, fail_pattern: Option<Pattern>) -> (r: (Pass, Step))
        requires
            mutants@.len() > 0,
        ensures
            r.0@ == PassView::initial(mutants.deep_view(), fail_pattern.deep_view()),
            r.0@.wf(),
            r.1@ == (StepView { lines: Seq::empty(), action: r.0@.action() }),
    {
        let files = distinct_files(&mutants);
        let pass = Pass {
            ledger: Ledger {
                mutants,
                fail_pattern,
                files,
                originals: Vec::new(),
                baseline: BaselineReport { passed: 0, failed: 0 },
                verdicts: Vec::new(),
            },
            phase: Phase::Loading,
        };
        proof {
            assert(pass@.originals =~= Seq::empty());
            assert(pass@.verdicts =~= Seq::empty());
            lemma_some_file(pass@);
        }
        pass.step(Vec::new())
    }

    /// The pass together with what it says.
    fn step(self, lines: Vec<String>) -> (r: (Pass, Step))
        requires
            self@.wf(),
        ensures
            r.0@ == self@,
            r.1@ == (StepView { lines: lines.deep_view(), action: self@.action() }),
    {
        let action = self.action();
        (self, Step { lines, action })
    }
}

/// A text made of four parts.
fn message(a: &str, b: &str, c: &str, d: &str) -> (r: String)
    ensures
        r@ == a@ + b@ + c@ + d@,
{
    let mut text = a.to_string();
    text.append(b);
    text.append(c);
    text.append(d);
    text
}

impl Ledger {
    /// Waits for something else, without a word.
    fn awaiting(self, phase: Phase) -> (r: (Pass, Step))
        requires
            self.in_phase(phase@).wf(),
        ensures
            r.0@ == self.in_phase(phase@),
            r.1@ == (StepView { lines: Seq::empty(), action: r.0@.action() }),
    {
        let lines: Vec<String> = Vec::new();
        assert(lines.deep_view() =~= Seq::empty());
        Pass { ledger: self, phase }.step(lines)
    }

    /// Ends the pass by a message.
    fn abort(self, message: String) -> (r: (Pass, Step))
        requires
            self.in_phase(PhaseView::Aborted(message@)).wf(),
        ensures
            r.0@ == self.in_phase(PhaseView::Aborted(message@)),
            r.1@ == (StepView { lines: Seq::empty(), action: r.0@.action() }),
    {
        self.awaiting(Phase::Aborted(message))
    }

    /// Takes down the current mutant's verdict and goes on to the next mutant,
    /// or to the end.
    fn record(self, verdict: Verdict) -> (r: (Pass, Step))
        requires
            self.in_phase(PhaseView::Checking).wf(),
        ensures
            r.0@.wf(),
            ({
                let (after, lines) = self.in_phase(PhaseView::Checking).recorded(verdict@);
                r.0@ == after && r.1@ == (StepView { lines, action: after.action() })
            }),
    {
        let ghost before = self.in_phase(PhaseView::Checking);
        let mut ledger = self;
        let mut lines: Vec<String> = Vec::new();
        let line = describe_verdict(&verdict, ledger.fail_pattern.is_some());
        lines.push(
            message(
                ledger.mutants[ledger.verdicts.len()].name.as_str(),
                ": ",
                line.as_str(),
                "",
            ),
        );
        proof {
            reveal_strlit("");
            assert(lines.deep_view() =~= seq![
                before.current().name + ": "@ + line@,
            ]);
        }
        ledger.verdicts.push(verdict);
        if ledger.verdicts.len() < ledger.mutants.len() {
            return Pass { ledger, phase: Phase::Checking }.step(lines);
        }
        let summary = summarize(ledger.verdicts.as_slice());
        proof {
            assert(ledger.verdicts@.map_values(|v: Verdict| v@) =~= ledger.verdicts.deep_view());
            assert(summary == summary_of(ledger.verdicts.deep_view()));
        }
        lines.push(describe_summary(&summary, ledger.mutants.len()));
        assert(lines.deep_view() =~= before.recorded(verdict@).1);
        Pass { ledger, phase: Phase::Finished }.step(lines)
    }
}

impl Ledger {
    /// Takes in a file's original content.
    fn after_load(self, content: String) -> (r: (Pass, Step))
        requires
            self.in_phase(PhaseView::Loading).wf(),
        ensures
            r.0@.wf(),
            ({
                let (after, lines) = self.in_phase(PhaseView::Loading).after_load(content@);
                r.0@ == after && r.1@ == (StepView { lines, action: after.action() })
            }),
    {
        let mut ledger = self;
        let mut lines: Vec<String> = Vec::new();
        assert(lines.deep_view() =~= Seq::empty());
        ledger.originals.push(content);
        if ledger.originals.len() < ledger.files.len() {
            return Pass { ledger, phase: Phase::Loading }.step(lines);
        }
        lines.push("baseline: running suite ...".to_string());
        assert(lines.deep_view() =~= seq!["baseline: running suite ..."@]);
        Pass { ledger, phase: Phase::Baseline }.step(lines)
    }

    /// Judges the baseline run. The green baseline is also the oracle for the
    /// fail pattern: nothing failed, so whatever it captures there it would go
    /// on to misreport as a killer.
    fn after_baseline(self, outcome: SuiteOutcome) -> (r: (Pass, Step))
        requires
            self.in_phase(PhaseView::Baseline).wf(),
        ensures
            r.0@.wf(),
            ({
                let (after, lines) = self.in_phase(PhaseView::Baseline).after_baseline(outcome@);
                r.0@ == after && r.1@ == (StepView { lines, action: after.action() })
            }),
    {
        if let Some(defect) = baseline_defect(&outcome) {
            return self.abort(defect);
        }
        let mut ledger = self;
        match outcome {
            SuiteOutcome::Ran { passed, failed, exit_ok, output } => {
                if let Some(pattern) = &ledger.fail_pattern {
                    if let Some(defect) = fail_pattern_defect(output.as_str(), pattern) {
                        return ledger.abort(defect);
                    }
                }
                ledger.baseline = BaselineReport { passed, failed };
                let mut lines: Vec<String> = Vec::new();
                lines.push(
                    message(
                        "baseline: green (",
                        decimal_text(passed as u128).as_str(),
                        " passed)",
                        "",
                    ),
                );
                proof {
                    reveal_strlit("");
                    assert(lines.deep_view() =~= seq![
                        "baseline: green ("@ + crate::text::decimal(passed as nat) + " passed)"@,
                    ]);
                }
                Pass { ledger, phase: Phase::Checking }.step(lines)
            },
            _ => unreached(),
        }
    }

    /// Looks at the current file before its probe.
    fn after_check(self, content: String) -> (r: (Pass, Step))
        requires
            self.in_phase(PhaseView::Checking).wf(),
        ensures
            r.0@.wf(),
            ({
                let (after, lines) = self.in_phase(PhaseView::Checking).after_check(content@);
                r.0@ == after && r.1@ == (StepView { lines, action: after.action() })
            }),
    {
        let pass = Pass { ledger: self, phase: Phase::Checking };
        let k: usize = pass.ledger.verdicts.len();
        let pristine = content == *pass.original();
        let applied = apply_mutant(pass.original().as_str(), &pass.ledger.mutants[k]);
        let Pass { ledger, phase: _ } = pass;
        if !pristine {
            let complaint = message(
                ledger.mutants[k].file.as_str(),
                " changed on disk mid-pass — tree is not pristine, aborting",
                "",
                "",
            );
            proof {
                reveal_strlit("");
                assert(complaint@ =~= ledger.mutants@[k as int].file@
                    + " changed on disk mid-pass — tree is not pristine, aborting"@);
            }
            return ledger.abort(complaint);
        }
        match applied {
            Ok(_) => ledger.awaiting(Phase::Mutating),
            Err(n) => ledger.record(Verdict::HarnessError { detail: complain_of_occurrences(n) }),
        }
    }

    /// Looks at the current file after its restore.
    fn after_restore(self, run: Result<SuiteOutcome, String>, content: String) -> (r: (Pass, Step))
        requires
            self.in_phase(PhaseView::Verifying(run_view(run))).wf(),
        ensures
            r.0@.wf(),
            ({
                let (after, lines) = self.in_phase(
                    PhaseView::Verifying(run_view(run)),
                ).after_restore(run_view(run), content@);
                r.0@ == after && r.1@ == (StepView { lines, action: after.action() })
            }),
    {
        let pass = Pass { ledger: self, phase: Phase::Checking };
        let k: usize = pass.ledger.verdicts.len();
        let restored = content == *pass.original();
        let Pass { ledger, phase: _ } = pass;
        if !restored {
            let complaint = message(
                "restore of ",
                ledger.mutants[k].file.as_str(),
                " is not byte-exact — tree is dirty",
                "",
            );
            proof {
                reveal_strlit("");
                assert(complaint@ =~= "restore of "@ + ledger.mutants@[k as int].file@
                    + " is not byte-exact — tree is dirty"@);
            }
            return ledger.abort(complaint);
        }
        match run {
            Err(complaint) => ledger.abort(complaint),
            Ok(outcome) => {
                let verdict = mutant_verdict(outcome, ledger.fail_pattern.as_ref());
                ledger.record(verdict)
            },
        }
    }
}

impl Pass {
    /// Goes on with the pass after something was done for it.
    pub fn advance(self, event: Event) -> (r: (Pass, Step))
        requires
            self@.wf(),
        ensures
            r.0@.wf(),
            ({
                let (after, lines) = self@.next(event@);
                r.0@ == after && r.1@ == (StepView { lines, action: after.action() })
            }),
    {
        let k: usize = self.ledger.verdicts.len();
        let Pass { ledger, phase } = self;
        match (phase, event) {
            (Phase::Loading, Event::FileRead(Ok(content))) => ledger.after_load(content),
            (Phase::Loading, Event::FileRead(Err(e))) => {
                let complaint = message(
                    "cannot read ",
                    ledger.files[ledger.originals.len()].as_str(),
                    ": ",
                    e.as_str(),
                );
                ledger.abort(complaint)
            },
            (Phase::Baseline, Event::SuiteDone(Ok(outcome))) => ledger.after_baseline(outcome),
            (Phase::Baseline, Event::SuiteDone(Err(e))) => ledger.abort(e),
            (Phase::Checking, Event::FileRead(Ok(content))) => ledger.after_check(content),
            (Phase::Checking, Event::FileRead(Err(e))) => {
                let complaint = message(
                    "cannot re-read ",
                    ledger.mutants[k].file.as_str(),
                    ": ",
                    e.as_str(),
                );
                ledger.abort(complaint)
            },
            (Phase::Mutating, Event::FileWritten(Ok(_))) => ledger.awaiting(Phase::Probing),
            (Phase::Mutating, Event::FileWritten(Err(e))) => {
                let complaint = message(
                    "cannot write mutant to ",
                    ledger.mutants[k].file.as_str(),
                    ": ",
                    e.as_str(),
                );
                ledger.abort(complaint)
            },
            (Phase::Probing, Event::SuiteDone(run)) => ledger.awaiting(Phase::Restoring(run)),
            (Phase::Restoring(run), Event::FileWritten(Ok(_))) => ledger.awaiting(
                Phase::Verifying(run),
            ),
            (Phase::Restoring(_), Event::FileWritten(Err(e))) => {
                let mut complaint = message(
                    "RESTORE FAILED for ",
                    ledger.mutants[k].file.as_str(),
                    ": ",
                    e.as_str(),
                );
                complaint.append(" — tree is dirty");
                ledger.abort(complaint)
            },
            (Phase::Verifying(run), Event::FileRead(Ok(content))) => ledger.after_restore(
                run,
                content,
            ),
            (Phase::Verifying(_), Event::FileRead(Err(e))) => {
                let complaint = message(
                    "cannot verify restore of ",
                    ledger.mutants[k].file.as_str(),
                    ": ",
                    e.as_str(),
                );
                ledger.abort(complaint)
            },
            (unanswered, _) => ledger.awaiting(unanswered),
        }
    }
}

} // verus!
