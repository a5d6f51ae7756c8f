//! What a suite run means for a mutant, and what the verdicts of a pass add up
//! to.

use crate::names::{captured_names, distinct, first_groups, KILLED_BY_CAP};
use crate::pattern::{all_matches, Pattern};
use crate::suite::{is_green, OutcomeView, SuiteOutcome};
use crate::text::{decimal, decimal_text, join_first, joined, last_of, on_one_line, tail};
use crate::views::group_deep_views;
use vstd::prelude::*;
use vstd::string::*;

verus! {

broadcast use group_deep_views;

/// The score of one mutant.
#[derive(Debug, Clone, PartialEq, Eq)]
pub enum Verdict {
    /// The suite ran and failed.
    Killed { killed_by: Vec<String> },
    /// The suite ran and passed: a real coverage gap.
    Survived,
    /// The suite gave no proof of running. Unscorable, never survived.
    NoRun { detail: String },
    /// The mutant itself is invalid. The harness is wrong, not the suite.
    HarnessError { detail: String },
}

/// A verdict's texts.
pub enum VerdictView {
    Killed { killed_by: Seq<Seq<char>> },
    Survived,
    NoRun { detail: Seq<char> },
    HarnessError { detail: Seq<char> },
}

impl View for Verdict {
    type V = VerdictView;

    open spec fn view(&self) -> VerdictView {
        match self {
            Verdict::Killed { killed_by } => VerdictView::Killed {
                killed_by: killed_by.deep_view(),
            },
            Verdict::Survived => VerdictView::Survived,
            Verdict::NoRun { detail } => VerdictView::NoRun { detail: detail@ },
            Verdict::HarnessError { detail } => VerdictView::HarnessError { detail: detail@ },
        }
    }
}

impl DeepView for Verdict {
    type V = VerdictView;

    open spec fn deep_view(&self) -> VerdictView {
        self@
    }
}

/// A verdict is seen as it stands: its kind is its own, and so are its killers, in
/// order, or its detail.
pub proof fn law_a_verdict_is_seen_as_it_stands(verdict: Verdict, i: int)
    ensures
        verdict matches Verdict::Killed { killed_by } ==> {
            &&& verdict@ is Killed
            &&& verdict@->killed_by.len() == killed_by@.len()
            &&& 0 <= i < killed_by@.len() ==> verdict@->killed_by[i] == killed_by@[i]@
        },
        verdict is Survived ==> verdict@ is Survived,
        verdict matches Verdict::NoRun { detail } ==> verdict@ == (VerdictView::NoRun {
            detail: detail@,
        }),
        verdict matches Verdict::HarnessError { detail } ==> verdict@ == (
        VerdictView::HarnessError { detail: detail@ }),
{
}

/// The word for a verdict.
pub open spec fn verdict_label(verdict: VerdictView) -> Seq<char> {
    match verdict {
        VerdictView::Killed { .. } => "KILLED"@,
        VerdictView::Survived => "SURVIVED"@,
        VerdictView::NoRun { .. } => "NO-RUN"@,
        VerdictView::HarnessError { .. } => "HARNESS-ERROR"@,
    }
}

impl Verdict {
    /// The word for the verdict.
    pub fn label(&self) -> (r: &'static str)
        ensures
            r@ == verdict_label(self@),
    {
        match self {
            Verdict::Killed { .. } => "KILLED",
            Verdict::Survived => "SURVIVED",
            Verdict::NoRun { .. } => "NO-RUN",
            Verdict::HarnessError { .. } => "HARNESS-ERROR",
        }
    }

    /// A second copy of the verdict.
    pub fn duplicate(&self) -> (r: Verdict)
        ensures
            r@ == self@,
    {
        match self {
            Verdict::Killed { killed_by } => {
                let copies = killed_by.clone();
                assert(copies.deep_view() =~= killed_by.deep_view());
                Verdict::Killed { killed_by: copies }
            },
            Verdict::Survived => Verdict::Survived,
            Verdict::NoRun { detail } => Verdict::NoRun { detail: detail.clone() },
            Verdict::HarnessError { detail } => Verdict::HarnessError { detail: detail.clone() },
        }
    }
}

// --------------------------------------------------------------- scoring ----
/// The first names of a list, as many as a verdict names.
pub open spec fn named_killers(names: Seq<Seq<char>>) -> Seq<Seq<char>> {
    if names.len() <= KILLED_BY_CAP {
        names
    } else {
        names.take(KILLED_BY_CAP as int)
    }
}

/// Whether a suite that provably ran declared failure: by its tally, or by a
/// non-zero exit whatever the tally says.
pub open spec fn declares_failure(failed: u64, exit_ok: bool) -> bool {
    failed > 0 || !exit_ok
}

/// The verdict on a mutant from its run and from the names that the fail
/// pattern captured in the run's output.
pub open spec fn scored(outcome: OutcomeView, names: Seq<Seq<char>>) -> VerdictView {
    match outcome {
        OutcomeView::TimedOut { secs } => VerdictView::NoRun {
            detail: "suite timed out after "@ + decimal(secs as nat) + "s"@,
        },
        OutcomeView::NoProof { output } => VerdictView::NoRun {
            detail: "no proof-of-run in suite output; tail: "@ + last_of(on_one_line(output), 400),
        },
        OutcomeView::Ran { passed, failed, exit_ok, output } => if declares_failure(
            failed,
            exit_ok,
        ) {
            VerdictView::Killed { killed_by: named_killers(names) }
        } else {
            VerdictView::Survived
        },
    }
}

/// The names that a fail pattern, where there is one, captures in a run's
/// output.
pub open spec fn names_captured(
    outcome: OutcomeView,
    fail_pattern: Option<Seq<char>>,
) -> Seq<Seq<char>> {
    match (outcome, fail_pattern) {
        (OutcomeView::Ran { passed, failed, exit_ok, output }, Some(pattern)) => distinct(
            first_groups(all_matches(pattern, output)),
        ),
        _ => Seq::empty(),
    }
}

/// A run without proof is never scored as a run: a hung or silent suite gives
/// no-run whatever else is known of it, and every scored mutant stands on a
/// suite that proved it ran. A mutant survives exactly where the suite failed
/// nothing and exited zero.
pub proof fn law_only_a_proven_run_is_scored(outcome: OutcomeView, names: Seq<Seq<char>>)
    ensures
        scored(outcome, names) is NoRun <==> !(outcome is Ran),
        scored(outcome, names) is Survived <==> (outcome matches OutcomeView::Ran {
            passed,
            failed,
            exit_ok,
            output,
        } && failed == 0 && exit_ok),
        scored(outcome, names) is Killed <==> (outcome matches OutcomeView::Ran {
            passed,
            failed,
            exit_ok,
            output,
        } && (failed > 0 || !exit_ok)),
        !(scored(outcome, names) is HarnessError),
{
}

/// A kill names the first five of the captured names, or all where there are no
/// more, in their order.
pub proof fn law_a_kill_names_the_first_five(outcome: OutcomeView, names: Seq<Seq<char>>)
    requires
        outcome is Ran,
        outcome->failed > 0 || !outcome->exit_ok,
    ensures
        scored(outcome, names) matches VerdictView::Killed { killed_by } && killed_by.len() == (
        if names.len() < 5 {
            names.len()
        } else {
            5
        }) && forall|i: int| 0 <= i < killed_by.len() ==> #[trigger] killed_by[i] == names[i],
{
}

/// A run that cannot be scored is told by its cause: a hung one by its limit, a
/// silent one by the last four hundred characters of its output on one line.
pub proof fn law_an_unscored_run_is_told_by_its_cause(
    secs: u64,
    output: Seq<char>,
    names: Seq<Seq<char>>,
)
    ensures
        scored(OutcomeView::TimedOut { secs }, names) == (VerdictView::NoRun {
            detail: "suite timed out after "@ + decimal(secs as nat) + "s"@,
        }),
        scored(OutcomeView::NoProof { output }, names) == (VerdictView::NoRun {
            detail: "no proof-of-run in suite output; tail: "@ + last_of(on_one_line(output), 400),
        }),
{
}

/// The names that may be credited with a kill are those that the fail pattern
/// captures in the output of that very run, each once; without a fail pattern there
/// are none.
pub proof fn law_killers_are_captured_in_the_run_itself(
    outcome: OutcomeView,
    pattern: Seq<char>,
    name: Seq<char>,
)
    requires
        outcome is Ran,
    ensures
        names_captured(outcome, None) == Seq::<Seq<char>>::empty(),
        names_captured(outcome, Some(pattern)).no_duplicates(),
        names_captured(outcome, Some(pattern)).contains(name) <==> first_groups(
            all_matches(pattern, outcome->Ran_output),
        ).contains(name),
        names_captured(outcome, Some(pattern)) == distinct(
            first_groups(all_matches(pattern, outcome->Ran_output)),
        ),
{
    crate::names::law_distinct_keeps_each_value_once_in_first_seen_order(
        first_groups(all_matches(pattern, outcome->Ran_output)),
    );
}

/// A run that would pass as a baseline never counts as a kill: a mutant under
/// which the suite behaves as it did without it has survived.
pub proof fn law_green_run_kills_nothing(outcome: OutcomeView, names: Seq<Seq<char>>)
    requires
        is_green(outcome),
    ensures
        scored(outcome, names) is Survived,
{
}

/// Scores a mutant from its run and the captured names.
pub fn score_run(outcome: SuiteOutcome, names: Vec<String>) -> (r: Verdict)
    ensures
        r@ == scored(outcome@, names.deep_view()),
{
    match outcome {
        SuiteOutcome::TimedOut { secs } => {
            let mut detail = "suite timed out after ".to_string();
            detail.append(decimal_text(secs as u128).as_str());
            detail.append("s");
            Verdict::NoRun { detail }
        },
        SuiteOutcome::NoProof { output } => {
            let mut detail = "no proof-of-run in suite output; tail: ".to_string();
            detail.append(tail(output.as_str(), 400).as_str());
            Verdict::NoRun { detail }
        },
        SuiteOutcome::Ran { failed, exit_ok, .. } => {
            if failed > 0 || !exit_ok {
                let ghost all = names.deep_view();
                let mut killed_by = names;
                killed_by.truncate(KILLED_BY_CAP);
                assert(killed_by.deep_view() =~= named_killers(all));
                Verdict::Killed { killed_by }
            } else {
                Verdict::Survived
            }
        },
    }
}

/// Scores a mutant from its run, naming its killers by the fail pattern.
pub fn mutant_verdict(outcome: SuiteOutcome, fail_pattern: Option<&Pattern>) -> (r: Verdict)
    ensures
        r@ == scored(outcome@, names_captured(outcome@, fail_pattern.deep_view())),
        r@ matches VerdictView::Killed { killed_by } ==> killed_by.len() <= KILLED_BY_CAP
            && killed_by.no_duplicates(),
{
    let names: Vec<String> = match (&outcome, fail_pattern) {
        (SuiteOutcome::Ran { output, .. }, Some(pattern)) => captured_names(
            output.as_str(),
            pattern,
        ),
        _ => Vec::new(),
    };
    assert(names.deep_view() =~= names_captured(outcome@, fail_pattern.deep_view()));
    score_run(outcome, names)
}

// ------------------------------------------------------------- reporting ----
/// The line that reports a verdict. A kill without a name is said aloud where a
/// fail pattern should have named it: a pattern that matches nothing would
/// otherwise be silent.
pub open spec fn verdict_line(verdict: VerdictView, has_fail_pattern: bool) -> Seq<char> {
    match verdict {
        VerdictView::Killed { killed_by } => if killed_by.len() > 0 {
            "KILLED"@ + " — killed by: "@ + joined(killed_by, ", "@)
        } else if has_fail_pattern {
            "KILLED"@
                + " — killer NOT NAMED: suite.fail-pattern matched nothing in this mutant's failing output"@
        } else {
            "KILLED"@
        },
        VerdictView::Survived => "SURVIVED"@,
        VerdictView::NoRun { detail } => "NO-RUN"@ + " — "@ + detail,
        VerdictView::HarnessError { detail } => "HARNESS-ERROR"@ + " — "@ + detail,
    }
}

/// The line that reports a verdict begins with the word for it. It names every killer
/// where there are any, says aloud that a fail pattern named none, and tells why a
/// mutant was not scored.
pub proof fn law_a_verdict_is_reported_in_full(
    killed_by: Seq<Seq<char>>,
    detail: Seq<char>,
    has_fail_pattern: bool,
)
    ensures
        killed_by.len() > 0 ==> verdict_line(VerdictView::Killed { killed_by }, has_fail_pattern)
            == "KILLED"@ + " — killed by: "@ + joined(killed_by, ", "@),
        killed_by.len() == 0 && has_fail_pattern ==> verdict_line(
            VerdictView::Killed { killed_by },
            has_fail_pattern,
        ) == "KILLED"@
            + " — killer NOT NAMED: suite.fail-pattern matched nothing in this mutant's failing output"@,
        killed_by.len() == 0 && !has_fail_pattern ==> verdict_line(
            VerdictView::Killed { killed_by },
            has_fail_pattern,
        ) == "KILLED"@,
        verdict_line(VerdictView::Survived, has_fail_pattern) == "SURVIVED"@,
        verdict_line(VerdictView::NoRun { detail }, has_fail_pattern) == "NO-RUN"@ + " — "@
            + detail,
        verdict_line(VerdictView::HarnessError { detail }, has_fail_pattern) == "HARNESS-ERROR"@
            + " — "@ + detail,
{
}

/// Each verdict has its own word.
pub proof fn law_each_verdict_has_its_own_word(verdict: VerdictView)
    ensures
        verdict_label(verdict) == "KILLED"@ <==> verdict is Killed,
        verdict_label(verdict) == "SURVIVED"@ <==> verdict is Survived,
        verdict_label(verdict) == "NO-RUN"@ <==> verdict is NoRun,
        verdict_label(verdict) == "HARNESS-ERROR"@ <==> verdict is HarnessError,
{
    lemma_labels_differ();
}

/// Writes the line that reports a verdict.
pub fn describe_verdict(verdict: &Verdict, has_fail_pattern: bool) -> (r: String)
    ensures
        r@ == verdict_line(verdict@, has_fail_pattern),
{
    let mut line = verdict.label().to_string();
    match verdict {
        Verdict::Killed { killed_by } => {
            if killed_by.len() > 0 {
                line.append(" — killed by: ");
                line.append(join_first(killed_by, killed_by.len(), ", ").as_str());
                assert(killed_by.deep_view().take(killed_by@.len() as int)
                    == killed_by.deep_view());
            } else if has_fail_pattern {
                line.append(
                    " — killer NOT NAMED: suite.fail-pattern matched nothing in this mutant's failing output",
                );
            }
        },
        Verdict::Survived => {},
        Verdict::NoRun { detail } => {
            line.append(" — ");
            line.append(detail.as_str());
        },
        Verdict::HarnessError { detail } => {
            line.append(" — ");
            line.append(detail.as_str());
        },
    }
    line
}

/// How many verdicts of each kind a pass gave.
#[derive(Debug, Clone, Copy, PartialEq, Eq)]
pub struct Summary {
    pub killed: usize,
    pub survived: usize,
    pub no_run: usize,
    pub harness_error: usize,
}

/// The number of verdicts of one kind.
pub open spec fn kind_count(verdicts: Seq<VerdictView>, label: Seq<char>) -> nat
    decreases verdicts.len(),
{
    if verdicts.len() == 0 {
        0
    } else {
        kind_count(verdicts.drop_last(), label) + (if verdict_label(verdicts.last()) == label {
            1nat
        } else {
            0nat
        })
    }
}

/// Whether a summary counts these verdicts.
pub open spec fn summarizes(summary: Summary, verdicts: Seq<VerdictView>) -> bool {
    &&& summary.killed == kind_count(verdicts, "KILLED"@)
    &&& summary.survived == kind_count(verdicts, "SURVIVED"@)
    &&& summary.no_run == kind_count(verdicts, "NO-RUN"@)
    &&& summary.harness_error == kind_count(verdicts, "HARNESS-ERROR"@)
}

/// The summary of some verdicts.
pub open spec fn summary_of(verdicts: Seq<VerdictView>) -> Summary {
    Summary {
        killed: kind_count(verdicts, "KILLED"@) as usize,
        survived: kind_count(verdicts, "SURVIVED"@) as usize,
        no_run: kind_count(verdicts, "NO-RUN"@) as usize,
        harness_error: kind_count(verdicts, "HARNESS-ERROR"@) as usize,
    }
}

proof fn lemma_labels_differ()
    ensures
        "KILLED"@ != "SURVIVED"@,
        "KILLED"@ != "NO-RUN"@,
        "KILLED"@ != "HARNESS-ERROR"@,
        "SURVIVED"@ != "NO-RUN"@,
        "SURVIVED"@ != "HARNESS-ERROR"@,
        "NO-RUN"@ != "HARNESS-ERROR"@,
{
    reveal_strlit("KILLED");
    reveal_strlit("SURVIVED");
    reveal_strlit("NO-RUN");
    reveal_strlit("HARNESS-ERROR");
    assert("KILLED"@.len() == 6 && "SURVIVED"@.len() == 8 && "HARNESS-ERROR"@.len() == 13);
    assert("KILLED"@[0] == 'K' && "NO-RUN"@[0] == 'N');
}

/// Every verdict is counted once: the four counts of a summary add up to the
/// number of verdicts.
pub proof fn law_summary_counts_every_verdict(verdicts: Seq<VerdictView>)
    ensures
        kind_count(verdicts, "KILLED"@) + kind_count(verdicts, "SURVIVED"@) + kind_count(
            verdicts,
            "NO-RUN"@,
        ) + kind_count(verdicts, "HARNESS-ERROR"@) == verdicts.len(),
    decreases verdicts.len(),
{
    lemma_labels_differ();
    if verdicts.len() > 0 {
        law_summary_counts_every_verdict(verdicts.drop_last());
    }
}

/// A summary counts each verdict under its own kind.
pub proof fn law_each_kind_is_counted_by_its_own_verdicts(verdicts: Seq<VerdictView>)
    ensures
        forall|summary: Summary| #[trigger]
            summarizes(summary, verdicts) <==> {
                &&& summary.killed == verdicts.filter(|v: VerdictView| v is Killed).len()
                &&& summary.survived == verdicts.filter(|v: VerdictView| v is Survived).len()
                &&& summary.no_run == verdicts.filter(|v: VerdictView| v is NoRun).len()
                &&& summary.harness_error == verdicts.filter(
                    |v: VerdictView| v is HarnessError,
                ).len()
            },
        kind_count(verdicts, "KILLED"@) == verdicts.filter(|v: VerdictView| v is Killed).len(),
        kind_count(verdicts, "SURVIVED"@) == verdicts.filter(|v: VerdictView| v is Survived).len(),
        kind_count(verdicts, "NO-RUN"@) == verdicts.filter(|v: VerdictView| v is NoRun).len(),
        kind_count(verdicts, "HARNESS-ERROR"@) == verdicts.filter(
            |v: VerdictView| v is HarnessError,
        ).len(),
        verdicts.len() <= usize::MAX ==> {
            let summary = summary_of(verdicts);
            &&& summary.killed == verdicts.filter(|v: VerdictView| v is Killed).len()
            &&& summary.survived == verdicts.filter(|v: VerdictView| v is Survived).len()
            &&& summary.no_run == verdicts.filter(|v: VerdictView| v is NoRun).len()
            &&& summary.harness_error == verdicts.filter(|v: VerdictView| v is HarnessError).len()
        },
    decreases verdicts.len(),
{
    lemma_labels_differ();
    reveal(Seq::filter);
    law_summary_counts_every_verdict(verdicts);
    if verdicts.len() > 0 {
        law_each_kind_is_counted_by_its_own_verdicts(verdicts.drop_last());
    }
}

/// Counts the verdicts of a pass.
pub fn summarize(verdicts: &[Verdict]) -> (r: Summary)
    ensures
        summarizes(r, verdicts@.map_values(|v: Verdict| v@)),
{
    let ghost all = verdicts@.map_values(|v: Verdict| v@);
    let mut r = Summary { killed: 0, survived: 0, no_run: 0, harness_error: 0 };
    proof {
        lemma_labels_differ();
    }
    for i in 0..verdicts.len()
        invariant
            all == verdicts@.map_values(|v: Verdict| v@),
            summarizes(r, all.take(i as int)),
            r.killed + r.survived + r.no_run + r.harness_error == i,
            "KILLED"@ != "SURVIVED"@,
            "KILLED"@ != "NO-RUN"@,
            "KILLED"@ != "HARNESS-ERROR"@,
            "SURVIVED"@ != "NO-RUN"@,
            "SURVIVED"@ != "HARNESS-ERROR"@,
            "NO-RUN"@ != "HARNESS-ERROR"@,
    {
        proof {
            assert(all.take(i + 1).drop_last() == all.take(i as int));
            assert(all.take(i + 1).last() == verdicts@[i as int]@);
        }
        match &verdicts[i] {
            Verdict::Killed { .. } => r.killed = r.killed + 1,
            Verdict::Survived => r.survived = r.survived + 1,
            Verdict::NoRun { .. } => r.no_run = r.no_run + 1,
            Verdict::HarnessError { .. } => r.harness_error = r.harness_error + 1,
        }
    }
    assert(all.take(all.len() as int) == all);
    r
}

/// The closing line of a pass over `total` mutants.
pub open spec fn summary_line(summary: Summary, total: nat) -> Seq<char> {
    "\n== "@ + decimal(summary.killed as nat) + "/"@ + decimal(total) + " killed; survived: "@
        + decimal(summary.survived as nat) + "; no-run: "@ + decimal(summary.no_run as nat)
        + "; harness errors: "@ + decimal(summary.harness_error as nat)
}

/// The closing line tells the kills out of all mutants, and each other count under its
/// own name.
pub proof fn law_the_closing_line_tells_every_count(summary: Summary, total: nat)
    ensures
        summary_line(summary, total) == "\n== "@ + decimal(summary.killed as nat) + "/"@ + decimal(
            total,
        ) + " killed; survived: "@ + decimal(summary.survived as nat) + "; no-run: "@ + decimal(
            summary.no_run as nat,
        ) + "; harness errors: "@ + decimal(summary.harness_error as nat),
{
}

/// Writes the closing line of a pass.
pub fn describe_summary(summary: &Summary, total: usize) -> (r: String)
    ensures
        r@ == summary_line(*summary, total as nat),
{
    let mut line = "\n== ".to_string();
    line.append(decimal_text(summary.killed as u128).as_str());
    line.append("/");
    line.append(decimal_text(total as u128).as_str());
    line.append(" killed; survived: ");
    line.append(decimal_text(summary.survived as u128).as_str());
    line.append("; no-run: ");
    line.append(decimal_text(summary.no_run as u128).as_str());
    line.append("; harness errors: ");
    line.append(decimal_text(summary.harness_error as u128).as_str());
    line
}

/// Whether every verdict is a kill.
pub open spec fn all_killed(verdicts: Seq<VerdictView>) -> bool {
    forall|i: int| 0 <= i < verdicts.len() ==> (#[trigger] verdicts[i]) is Killed
}

/// One verdict that is no kill is enough to spoil a pass, wherever it stands.
pub proof fn law_one_survivor_spoils_the_pass(
    before: Seq<VerdictView>,
    verdict: VerdictView,
    after: Seq<VerdictView>,
)
    ensures
        all_killed(before + seq![verdict] + after) <==> all_killed(before) && verdict is Killed
            && all_killed(after),
        all_killed(Seq::empty()),
{
    let all = before + seq![verdict] + after;
    let at = before.len() as int;
    assert(all[at] == verdict);
    if all_killed(all) {
        assert forall|i: int| 0 <= i < before.len() implies (#[trigger] before[i]) is Killed by {
            assert(all[i] is Killed);
        }
        assert forall|i: int| 0 <= i < after.len() implies (#[trigger] after[i]) is Killed by {
            assert(all[at + 1 + i] is Killed);
        }
    }
    if all_killed(before) && verdict is Killed && all_killed(after) {
        assert forall|i: int| 0 <= i < all.len() implies (#[trigger] all[i]) is Killed by {
            if i < at {
                assert(before[i] is Killed);
            } else if i > at {
                assert(after[i - at - 1] is Killed);
            }
        }
    }
}

/// The exit code of a pass that ran to its end: zero only where everything was
/// killed.
pub fn exit_code(verdicts: &[Verdict]) -> (r: i32)
    ensures
        r == if all_killed(verdicts@.map_values(|v: Verdict| v@)) {
            0i32
        } else {
            1i32
        },
{
    let ghost all = verdicts@.map_values(|v: Verdict| v@);
    for i in 0..verdicts.len()
        invariant
            all == verdicts@.map_values(|v: Verdict| v@),
            forall|j: int| 0 <= j < i ==> (#[trigger] all[j]) is Killed,
    {
        assert(all[i as int] == verdicts@[i as int]@);
        match &verdicts[i] {
            Verdict::Killed { .. } => {},
            _ => {
                return 1;
            },
        }
    }
    0
}

/// A pass exits zero exactly where its summary counts nothing but kills.
pub proof fn law_exit_zero_means_only_kills(verdicts: Seq<VerdictView>)
    ensures
        all_killed(verdicts) <==> kind_count(verdicts, "KILLED"@) == verdicts.len(),
    decreases verdicts.len(),
{
    lemma_labels_differ();
    law_summary_counts_every_verdict(verdicts);
    if verdicts.len() > 0 {
        let shorter = verdicts.drop_last();
        law_exit_zero_means_only_kills(shorter);
        law_summary_counts_every_verdict(shorter);
        if all_killed(verdicts) {
            assert forall|i: int| 0 <= i < shorter.len() implies (
            #[trigger] shorter[i]) is Killed by {
                assert(verdicts[i] is Killed);
            }
            assert(verdicts[verdicts.len() - 1] is Killed);
        }
        if kind_count(verdicts, "KILLED"@) == verdicts.len() {
            assert(all_killed(shorter));
            assert forall|i: int| 0 <= i < verdicts.len() implies (
            #[trigger] verdicts[i]) is Killed by {
                if i < shorter.len() {
                    assert(shorter[i] is Killed);
                }
            }
        }
    }
}

} // verus!
