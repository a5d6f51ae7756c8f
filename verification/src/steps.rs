//! What each answer does to a pass: what is taken down, what is asked for next, and
//! what ends it.

use crate::laws::{is_answer, law_finished_pass_reports_every_mutant};
use crate::names::{distinct, first_groups};
use crate::pass::{ActionView, EventView, PassView, PhaseView};
use crate::pattern::all_matches;
use crate::suite::{
    baseline_complaint, fail_pattern_distrust, law_only_a_green_baseline_passes, OutcomeView,
};
use crate::text::{
    contains_text, decimal, last_of, lemma_part_is_contained, occurrences_from, on_one_line,
};
use crate::verdict::{
    law_each_kind_is_counted_by_its_own_verdicts, summary_line, verdict_line, VerdictView,
};
use vstd::prelude::*;

verus! {

// ---------------------------------------------------------------- verdicts ----
/// Whether a file was read and found to hold its original.
pub open spec fn reads_original(pass: PassView, event: EventView) -> bool {
    event == EventView::FileRead(
        Ok::<Seq<char>, Seq<char>>(pass.original_of(pass.current().file)),
    )
}

/// When the original was read back after a run, the verdict taken down is that of this
/// very run: no-run exactly where the run proved nothing, survived exactly where it
/// failed nothing and exited zero, and killed exactly where it failed a test or exited
/// otherwise. How many tests passed does not matter.
pub proof fn law_the_verdict_is_that_of_the_run(
    pass: PassView,
    outcome: OutcomeView,
    event: EventView,
)
    requires
        pass.wf(),
        pass.phase == PhaseView::Verifying(Ok(outcome)),
        reads_original(pass, event),
    ensures
        ({
            let after = pass.next(event).0;
            &&& after.verdicts == pass.verdicts.push(after.verdicts.last())
            &&& after.verdicts.last() is NoRun <==> !(outcome is Ran)
            &&& after.verdicts.last() is Survived <==> outcome is Ran && outcome->failed == 0
                && outcome->exit_ok
            &&& after.verdicts.last() is Killed <==> outcome is Ran && (outcome->failed > 0
                || !outcome->exit_ok)
            &&& !(after.verdicts.last() is HarnessError)
        }),
{
}

/// A kill is credited to the first five distinct names that the fail pattern captured
/// in the output of that very run, and to nobody where there is no fail pattern.
pub proof fn law_a_kill_is_credited_by_the_run_itself(
    pass: PassView,
    outcome: OutcomeView,
    event: EventView,
)
    requires
        pass.wf(),
        pass.phase == PhaseView::Verifying(Ok(outcome)),
        reads_original(pass, event),
        outcome is Ran,
        outcome->failed > 0 || !outcome->exit_ok,
    ensures
        pass.next(event).0.verdicts.last() matches VerdictView::Killed { killed_by } && {
            &&& pass.fail_pattern is None ==> killed_by.len() == 0
            &&& pass.fail_pattern matches Some(pattern) ==> {
                let names = distinct(first_groups(all_matches(pattern, outcome->Ran_output)));
                &&& killed_by.len() == (if names.len() < 5 {
                    names.len()
                } else {
                    5
                })
                &&& forall|i: int| 0 <= i < killed_by.len() ==> #[trigger] killed_by[i] == names[i]
            }
        },
{
}

/// A run that proved nothing is taken down with its cause: its limit where it hung, and
/// the end of its output where it was silent.
pub proof fn law_an_unproven_run_is_taken_down_with_its_cause(
    pass: PassView,
    outcome: OutcomeView,
    event: EventView,
)
    requires
        pass.wf(),
        pass.phase == PhaseView::Verifying(Ok(outcome)),
        reads_original(pass, event),
    ensures
        outcome matches OutcomeView::TimedOut { secs } ==> pass.next(event).0.verdicts.last() == (
        VerdictView::NoRun { detail: "suite timed out after "@ + decimal(secs as nat) + "s"@ }),
        outcome matches OutcomeView::NoProof { output } ==> pass.next(event).0.verdicts.last() == (
        VerdictView::NoRun {
            detail: "no proof-of-run in suite output; tail: "@ + last_of(on_one_line(output), 400),
        }),
{
}

/// The run on the mutated tree is kept as it came until its verdict, through the
/// restore and the reading back.
pub proof fn law_the_run_is_kept_until_its_verdict(
    pass: PassView,
    run: Result<OutcomeView, Seq<char>>,
)
    requires
        pass.wf(),
    ensures
        pass.phase is Probing ==> pass.next(EventView::SuiteDone(run)).0.phase
            == PhaseView::Restoring(run),
        pass.phase == PhaseView::Restoring(run) ==> pass.next(
            EventView::FileWritten(Ok(())),
        ).0.phase == PhaseView::Verifying(run),
        pass.phase is Mutating ==> pass.next(EventView::FileWritten(Ok(()))).0.phase is Probing,
{
}

/// Before a mutant is probed its file must hold the original. Then it is mutated
/// exactly where its target occurs once; otherwise nothing is written, and its verdict
/// tells how often the target occurs.
pub proof fn law_an_invalid_mutant_is_told_by_its_count(pass: PassView, event: EventView)
    requires
        pass.wf(),
        pass.phase is Checking,
        reads_original(pass, event),
    ensures
        ({
            let mutant = pass.mutants[pass.verdicts.len() as int];
            let count = occurrences_from(pass.original_of(mutant.file), mutant.target, 0);
            let after = pass.next(event).0;
            &&& count == 1 ==> after.phase is Mutating && after.verdicts == pass.verdicts
            &&& count != 1 ==> after.verdicts == pass.verdicts.push(
                VerdictView::HarnessError {
                    detail: "target occurs "@ + decimal(count)
                        + "x (need exactly 1) — mutates nothing"@,
                },
            )
        }),
{
}

/// A verdict moves the pass to the next mutant, or, after the last, to its end.
pub proof fn law_a_verdict_moves_the_pass_on(pass: PassView, event: EventView)
    requires
        pass.wf(),
        pass.next(event).0.verdicts != pass.verdicts,
    ensures
        ({
            let after = pass.next(event).0;
            let left = pass.mutants.len() - pass.verdicts.len();
            &&& left > 1 ==> after.phase is Checking && after.current()
                == pass.mutants[pass.verdicts.len() + 1int]
            &&& left == 1 ==> after.phase is Finished
        }),
{
    if let (PhaseView::Baseline, EventView::SuiteDone(Ok(outcome))) = (pass.phase, event) {
        law_only_a_green_baseline_passes(outcome);
    }
}

// ------------------------------------------------------------- what stays ----
/// A step changes only what it is about: the mutants, their files and the fail pattern
/// stay for the whole pass; originals are added while loading and only then; the
/// baseline's tally is set by the baseline run and only then; and verdicts are only
/// ever added.
pub proof fn law_a_step_changes_only_what_it_is_about(pass: PassView, event: EventView)
    requires
        pass.wf(),
    ensures
        ({
            let after = pass.next(event).0;
            &&& after.mutants == pass.mutants
            &&& after.files == pass.files
            &&& after.fail_pattern == pass.fail_pattern
            &&& !(pass.phase is Loading) ==> after.originals == pass.originals
            &&& !(pass.phase is Baseline) ==> after.baseline == pass.baseline
            &&& !(pass.phase is Checking || pass.phase is Verifying) ==> after.verdicts
                == pass.verdicts
            &&& pass.verdicts.len() <= after.verdicts.len()
            &&& forall|i: int|
                0 <= i < pass.verdicts.len() ==> #[trigger] after.verdicts[i] == pass.verdicts[i]
        }),
{
}

/// A file that was read while loading is kept as it was read; the baseline runs when
/// every file is known.
pub proof fn law_originals_are_kept_as_they_were_read(pass: PassView, content: Seq<char>)
    requires
        pass.wf(),
        pass.phase is Loading,
    ensures
        ({
            let (after, lines) = pass.next(EventView::FileRead(Ok(content)));
            let loaded = pass.originals.len() + 1 == pass.files.len();
            &&& after.originals == pass.originals.push(content)
            &&& loaded ==> after.phase is Baseline && lines == seq!["baseline: running suite ..."@]
            &&& !loaded ==> after.phase is Loading && lines.len() == 0
        }),
{
}

// --------------------------------------------------------------- baseline ----
/// The tally of a trusted baseline is taken down as the run reported it, and told.
pub proof fn law_the_baseline_is_taken_down_as_reported(pass: PassView, outcome: OutcomeView)
    requires
        pass.wf(),
        pass.phase is Baseline,
        pass.next(EventView::SuiteDone(Ok(outcome))).0.phase is Checking,
    ensures
        ({
            let (after, lines) = pass.next(EventView::SuiteDone(Ok(outcome)));
            &&& outcome is Ran
            &&& after.baseline.passed == outcome->passed
            &&& after.baseline.failed == outcome->failed
            &&& outcome->passed > 0 && outcome->failed == 0 && outcome->exit_ok
            &&& pass.fail_pattern matches Some(pattern) ==> first_groups(
                all_matches(pattern, outcome->Ran_output),
            ).len() == 0
            &&& lines == seq!["baseline: green ("@ + decimal(outcome->passed as nat) + " passed)"@]
        }),
{
    law_only_a_green_baseline_passes(outcome);
    if let Some(pattern) = pass.fail_pattern {
        lemma_found_is_distinct(first_groups(all_matches(pattern, outcome->Ran_output)));
    }
}

proof fn lemma_found_is_distinct(found: Seq<Seq<char>>)
    ensures
        distinct(found).len() == 0 <==> found.len() == 0,
{
    crate::names::law_distinct_keeps_each_value_once_in_first_seen_order(found);
    if found.len() > 0 {
        assert(found.contains(found[0]));
        assert(distinct(found).contains(found[0]));
    }
}

/// A run that is green, under a fail pattern that captures nothing in it, is always
/// accepted as a baseline; any other ends the pass with what is wrong with it.
pub proof fn law_a_blocked_baseline_ends_the_pass_with_its_defect(
    pass: PassView,
    outcome: OutcomeView,
)
    requires
        pass.wf(),
        pass.phase is Baseline,
    ensures
        ({
            let after = pass.next(EventView::SuiteDone(Ok(outcome))).0;
            let green = outcome is Ran && outcome->passed > 0 && outcome->failed == 0
                && outcome->exit_ok;
            let captured = match pass.fail_pattern {
                Some(pattern) => distinct(first_groups(all_matches(pattern, outcome->Ran_output))),
                None => Seq::empty(),
            };
            &&& green && captured.len() == 0 ==> after.phase is Checking
            &&& !green ==> after.phase == PhaseView::Aborted(baseline_complaint(outcome)->0)
            &&& green && captured.len() > 0 ==> after.phase == PhaseView::Aborted(
                fail_pattern_distrust(captured)->0,
            )
        }),
{
    law_only_a_green_baseline_passes(outcome);
}

// ----------------------------------------------------------------- aborts ----
/// Whatever fails ends the pass there and then, with a message that holds what went
/// wrong and, for a file, which file. The one exception is a run on a mutated tree: it
/// ends the pass only after the restore was found byte-exact.
pub proof fn law_every_failure_ends_the_pass(pass: PassView, error: Seq<char>)
    requires
        pass.wf(),
    ensures
        ({
            let unread = pass.next(EventView::FileRead(Err(error))).0;
            let file = if pass.phase is Loading {
                pass.files[pass.originals.len() as int]
            } else {
                pass.current().file
            };
            pass.action() is Read ==> (unread.phase matches PhaseView::Aborted(message)
                && contains_text(message, error) && contains_text(message, file))
        }),
        ({
            let unwritten = pass.next(EventView::FileWritten(Err(error))).0;
            pass.action() is Write ==> (unwritten.phase matches PhaseView::Aborted(message)
                && contains_text(message, error) && contains_text(message, pass.current().file))
        }),
        pass.phase is Baseline ==> pass.next(EventView::SuiteDone(Err(error))).0.phase
            == PhaseView::Aborted(error),
        pass.phase == PhaseView::Verifying(Err(error)) ==> pass.next(
            EventView::FileRead(Ok(pass.original_of(pass.current().file))),
        ).0.phase == PhaseView::Aborted(error),
{
    let file = if pass.phase is Loading {
        pass.files[pass.originals.len() as int]
    } else {
        pass.current().file
    };
    lemma_told_of(file, error, "cannot read "@, Seq::empty());
    lemma_told_of(file, error, "cannot re-read "@, Seq::empty());
    lemma_told_of(file, error, "cannot verify restore of "@, Seq::empty());
    lemma_told_of(file, error, "cannot write mutant to "@, Seq::empty());
    lemma_told_of(file, error, "RESTORE FAILED for "@, " — tree is dirty"@);
}

/// Each failure is told in its own words.
pub proof fn law_each_failure_has_its_own_words(pass: PassView, error: Seq<char>)
    requires
        pass.wf(),
    ensures
        pass.phase is Loading ==> pass.next(EventView::FileRead(Err(error))).0.phase
            == PhaseView::Aborted(
            "cannot read "@ + pass.files[pass.originals.len() as int] + ": "@ + error,
        ),
        pass.phase is Checking ==> pass.next(EventView::FileRead(Err(error))).0.phase
            == PhaseView::Aborted("cannot re-read "@ + pass.current().file + ": "@ + error),
        pass.phase is Verifying ==> pass.next(EventView::FileRead(Err(error))).0.phase
            == PhaseView::Aborted(
            "cannot verify restore of "@ + pass.current().file + ": "@ + error,
        ),
        pass.phase is Mutating ==> pass.next(EventView::FileWritten(Err(error))).0.phase
            == PhaseView::Aborted("cannot write mutant to "@ + pass.current().file + ": "@ + error),
        pass.phase is Restoring ==> pass.next(EventView::FileWritten(Err(error))).0.phase
            == PhaseView::Aborted(
            "RESTORE FAILED for "@ + pass.current().file + ": "@ + error + " — tree is dirty"@,
        ),
{
}

proof fn lemma_told_of(file: Seq<char>, error: Seq<char>, before: Seq<char>, after: Seq<char>)
    ensures
        contains_text(before + file + ": "@ + error + after, file),
        contains_text(before + file + ": "@ + error + after, error),
        after.len() == 0 ==> contains_text(before + file + ": "@ + error, file) && contains_text(
            before + file + ": "@ + error,
            error,
        ),
{
    let message = before + file + ": "@ + error + after;
    assert(message =~= before + file + (": "@ + error + after));
    lemma_part_is_contained(before, file, ": "@ + error + after);
    lemma_part_is_contained(before + file + ": "@, error, after);
    if after.len() == 0 {
        assert(message =~= before + file + ": "@ + error);
    }
}

/// A file that no longer holds its original ends the pass, before a probe as after
/// one, whatever the run in between was.
pub proof fn law_a_changed_file_ends_the_pass(pass: PassView, content: Seq<char>)
    requires
        pass.wf(),
        pass.phase is Checking || pass.phase is Verifying,
        content != pass.original_of(pass.current().file),
    ensures
        ({
            let after = pass.next(EventView::FileRead(Ok(content))).0;
            &&& after.verdicts == pass.verdicts
            &&& pass.phase is Checking ==> after.phase == PhaseView::Aborted(
                pass.current().file
                    + " changed on disk mid-pass — tree is not pristine, aborting"@,
            )
            &&& pass.phase is Verifying ==> after.phase == PhaseView::Aborted(
                "restore of "@ + pass.current().file + " is not byte-exact — tree is dirty"@,
            )
        }),
{
}

/// A pass ends only for a cause: where nothing failed, no file had changed and the
/// baseline was accepted, it goes on.
pub proof fn law_a_pass_is_aborted_only_for_a_cause(pass: PassView, event: EventView)
    requires
        pass.wf(),
        !(pass.phase is Aborted),
        pass.next(event).0.phase is Aborted,
    ensures
        ({
            ||| event matches EventView::FileRead(Err(_))
            ||| event matches EventView::FileWritten(Err(_))
            ||| pass.phase is Baseline
            ||| pass.phase matches PhaseView::Verifying(Err(_))
            ||| event matches EventView::FileRead(Ok(content)) && content != pass.original_of(
                pass.current().file,
            )
        }),
        is_answer(pass.action(), event),
{
}

// ---------------------------------------------------------------- actions ----
/// What a pass asks for follows from what it waits for: the suite is run for the
/// baseline and for a mutant in place and at no other time, the mutation is written
/// before the run and the original after it, and a file is read before its probe and
/// after its restore.
pub proof fn law_what_is_asked_for_follows_from_what_is_awaited(pass: PassView)
    requires
        pass.wf(),
    ensures
        pass.action() is RunSuite <==> pass.phase is Baseline || pass.phase is Probing,
        pass.action() is Write <==> pass.phase is Mutating || pass.phase is Restoring,
        pass.action() is Read <==> pass.phase is Loading || pass.phase is Checking
            || pass.phase is Verifying,
        pass.action() is Finish <==> pass.phase is Finished,
        pass.phase is Loading ==> pass.action() == (ActionView::Read {
            file: pass.files[pass.originals.len() as int],
        }),
        pass.phase is Checking || pass.phase is Verifying ==> pass.action() == (ActionView::Read {
            file: pass.mutants[pass.verdicts.len() as int].file,
        }),
        pass.phase is Mutating ==> pass.mutation() is Ok && pass.action() == (ActionView::Write {
            file: pass.mutants[pass.verdicts.len() as int].file,
            content: pass.mutation()->Ok_0,
        }),
        pass.phase is Restoring ==> pass.action() == (ActionView::Write {
            file: pass.mutants[pass.verdicts.len() as int].file,
            content: pass.original_of(pass.mutants[pass.verdicts.len() as int].file),
        }),
        pass.phase matches PhaseView::Aborted(message) ==> pass.action() == (ActionView::Abort {
            message,
        }),
{
}

// ----------------------------------------------------------------- report ----
/// In the report of a finished pass each count of the summary is the number of reported
/// mutants whose verdict is of that kind.
pub proof fn law_the_summary_counts_the_reported_mutants(pass: PassView)
    requires
        pass.wf(),
        pass.phase is Finished,
        pass.mutants.len() <= usize::MAX,
    ensures
        pass.action() matches ActionView::Finish { report, exit_code } && {
            let verdicts = report.mutants.map_values(
                |m: crate::pass::MutantReportView| m.verdict,
            );
            &&& report.summary.killed == verdicts.filter(|v: VerdictView| v is Killed).len()
            &&& report.summary.survived == verdicts.filter(|v: VerdictView| v is Survived).len()
            &&& report.summary.no_run == verdicts.filter(|v: VerdictView| v is NoRun).len()
            &&& report.summary.harness_error == verdicts.filter(
                |v: VerdictView| v is HarnessError,
            ).len()
            &&& report.summary.killed + report.summary.survived + report.summary.no_run
                + report.summary.harness_error == report.mutants.len()
            &&& exit_code == 0 <==> report.summary.killed == report.mutants.len()
            &&& report.baseline == pass.baseline
        },
{
    let report = pass.report();
    let verdicts = report.mutants.map_values(|m: crate::pass::MutantReportView| m.verdict);
    law_finished_pass_reports_every_mutant(pass);
    assert(verdicts =~= pass.verdicts);
    law_each_kind_is_counted_by_its_own_verdicts(pass.verdicts);
    crate::verdict::law_summary_counts_every_verdict(pass.verdicts);
    crate::verdict::law_exit_zero_means_only_kills(pass.verdicts);
}

/// A verdict is told under the mutant's name as it is taken down. The line that closes
/// the pass tells the same counts as its report.
pub proof fn law_every_verdict_is_told(pass: PassView, event: EventView)
    requires
        pass.wf(),
        pass.next(event).0.verdicts != pass.verdicts,
    ensures
        ({
            let (after, lines) = pass.next(event);
            let line = pass.current().name + ": "@ + verdict_line(
                after.verdicts.last(),
                pass.fail_pattern is Some,
            );
            &&& after.phase is Checking ==> lines == seq![line]
            &&& after.phase is Finished ==> lines == seq![
                line,
                summary_line(after.report().summary, pass.mutants.len()),
            ]
            &&& after.phase is Checking || after.phase is Finished
        }),
{
    if let (PhaseView::Baseline, EventView::SuiteDone(Ok(outcome))) = (pass.phase, event) {
        law_only_a_green_baseline_passes(outcome);
    }
}

/// Nothing is told but the start and the end of the baseline and the verdicts.
pub proof fn law_nothing_else_is_told(pass: PassView, event: EventView)
    requires
        pass.wf(),
        pass.next(event).0.verdicts == pass.verdicts,
        !(pass.phase is Loading),
        !(pass.phase is Baseline),
    ensures
        pass.next(event).1.len() == 0,
{
    assert(pass.verdicts.push(pass.next(event).0.verdicts.last()).len() != pass.verdicts.len());
}

/// A pass begins with nothing known and nothing scored, and asks for the first file. Its
/// files are those of the mutants, each once.
pub proof fn law_a_pass_begins_with_nothing_known(
    mutants: Seq<crate::config::MutantView>,
    fail_pattern: Option<Seq<char>>,
    i: int,
)
    requires
        0 <= i < mutants.len(),
    ensures
        ({
            let start = PassView::initial(mutants, fail_pattern);
            &&& start.mutants == mutants
            &&& start.fail_pattern == fail_pattern
            &&& start.originals.len() == 0
            &&& start.verdicts.len() == 0
            &&& start.phase is Loading
            &&& start.files.no_duplicates()
            &&& start.files.contains(mutants[i].file)
            &&& start.files[0] == mutants[0].file
            &&& forall|file: Seq<char>| #[trigger]
                start.files.contains(file) ==> exists|k: int|
                    0 <= k < mutants.len() && (#[trigger] mutants[k]).file == file
        }),
{
    let start = PassView::initial(mutants, fail_pattern);
    let all = crate::pass::files_of(mutants);
    crate::names::law_distinct_keeps_each_value_once_in_first_seen_order(all);
    assert(all[i] == mutants[i].file && all.contains(all[i]));
    assert(all.contains(all[0]));
    lemma_first_stays_first(all);
    assert forall|file: Seq<char>| #[trigger]
        start.files.contains(file) implies exists|k: int|
        0 <= k < mutants.len() && (#[trigger] mutants[k]).file == file by {
        assert(all.contains(file));
        let k = choose|k: int| 0 <= k < all.len() && all[k] == file;
        assert(mutants[k].file == file);
    }
}

proof fn lemma_first_stays_first(s: Seq<Seq<char>>)
    requires
        s.len() > 0,
    ensures
        distinct(s).len() > 0,
        distinct(s)[0] == s[0],
    decreases s.len(),
{
    if s.len() > 1 {
        lemma_first_stays_first(s.drop_last());
    } else {
        reveal_with_fuel(distinct, 2);
        assert(s.drop_last() =~= Seq::empty());
    }
}

} // verus!
