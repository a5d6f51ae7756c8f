//! One run of the suite: how it is waited for, what its output proves, and
//! whether it can serve as a baseline.

use crate::names::{captured_names, distinct, first_groups, KILLED_BY_CAP};
use crate::pattern::{all_matches, group_count, Pattern};
use crate::text::{
    contains_text, debug_quoted, decimal, decimal_text, join_first, joined, last_of,
    lemma_part_is_contained, lossy_text, on_one_line, parse_count, parsed_count, quoted,
    read_lossy, tail,
};
use crate::views::group_deep_views;
use vstd::prelude::*;
use vstd::string::*;

verus! {

broadcast use group_deep_views;

/// What one suite invocation reported, before it means anything for a mutant.
#[derive(Debug, PartialEq, Eq)]
pub enum SuiteOutcome {
    /// The suite provably ran, and this is its own tally.
    Ran { passed: u64, failed: u64, exit_ok: bool, output: String },
    /// No proof of a run anywhere in the output.
    NoProof { output: String },
    /// The wall clock limit was hit and the suite was killed.
    TimedOut { secs: u64 },
}

/// An outcome's numbers and texts.
pub enum OutcomeView {
    Ran { passed: u64, failed: u64, exit_ok: bool, output: Seq<char> },
    NoProof { output: Seq<char> },
    TimedOut { secs: u64 },
}

impl View for SuiteOutcome {
    type V = OutcomeView;

    open spec fn view(&self) -> OutcomeView {
        match self {
            SuiteOutcome::Ran { passed, failed, exit_ok, output } => OutcomeView::Ran {
                passed: *passed,
                failed: *failed,
                exit_ok: *exit_ok,
                output: output@,
            },
            SuiteOutcome::NoProof { output } => OutcomeView::NoProof { output: output@ },
            SuiteOutcome::TimedOut { secs } => OutcomeView::TimedOut { secs: *secs },
        }
    }
}

/// An outcome is seen as it stands: its tally, its status and its output are its own.
pub proof fn law_an_outcome_is_seen_as_it_stands(outcome: SuiteOutcome)
    ensures
        outcome matches SuiteOutcome::Ran { passed, failed, exit_ok, output } ==> outcome@ == (
        OutcomeView::Ran { passed, failed, exit_ok, output: output@ }),
        outcome matches SuiteOutcome::NoProof { output } ==> outcome@ == (OutcomeView::NoProof {
            output: output@,
        }),
        outcome matches SuiteOutcome::TimedOut { secs } ==> outcome@ == (OutcomeView::TimedOut {
            secs,
        }),
{
}

// --------------------------------------------------------------- tallies ----
/// The text of a match's group, where the group exists and took part.
pub open spec fn group(groups: Seq<Option<Seq<char>>>, i: int) -> Option<Seq<char>> {
    if 0 <= i < groups.len() {
        groups[i]
    } else {
        None
    }
}

/// The passed and failed counts that a proof match carries in its first two
/// groups, where both are counts.
pub open spec fn match_counts(groups: Seq<Option<Seq<char>>>) -> Option<(u64, u64)> {
    match (group(groups, 1), group(groups, 2)) {
        (Some(passed), Some(failed)) => match (parsed_count(passed), parsed_count(failed)) {
            (Some(p), Some(f)) => Some((p, f)),
            _ => None,
        },
        _ => None,
    }
}

/// Whether any match carries counts: the proof that a suite ran.
pub open spec fn proves_run(matches: Seq<Seq<Option<Seq<char>>>>) -> bool {
    exists|i: int| 0 <= i < matches.len() && match_counts(#[trigger] matches[i]) is Some
}

/// The sum of the passed counts of all matches.
pub open spec fn passed_total(matches: Seq<Seq<Option<Seq<char>>>>) -> nat
    decreases matches.len(),
{
    if matches.len() == 0 {
        0
    } else {
        passed_total(matches.drop_last()) + match match_counts(matches.last()) {
            Some((passed, _)) => passed as nat,
            None => 0,
        }
    }
}

/// The sum of the failed counts of all matches.
pub open spec fn failed_total(matches: Seq<Seq<Option<Seq<char>>>>) -> nat
    decreases matches.len(),
{
    if matches.len() == 0 {
        0
    } else {
        failed_total(matches.drop_last()) + match match_counts(matches.last()) {
            Some((_, failed)) => failed as nat,
            None => 0,
        }
    }
}

/// Whether 64 bits hold both sums.
pub open spec fn totals_fit(matches: Seq<Seq<Option<Seq<char>>>>) -> bool {
    passed_total(matches) <= u64::MAX && failed_total(matches) <= u64::MAX
}

/// What a finished run with these proof matches reports.
pub open spec fn classified(
    output: Seq<char>,
    exit_ok: bool,
    matches: Seq<Seq<Option<Seq<char>>>>,
) -> OutcomeView {
    if proves_run(matches) {
        OutcomeView::Ran {
            passed: passed_total(matches) as u64,
            failed: failed_total(matches) as u64,
            exit_ok,
            output,
        }
    } else {
        OutcomeView::NoProof { output }
    }
}

/// Matches that lack a second group prove nothing: a proof pattern with fewer
/// than two capture groups scores every run as one that never happened.
pub proof fn law_proof_needs_two_groups(matches: Seq<Seq<Option<Seq<char>>>>)
    requires
        forall|i: int| 0 <= i < matches.len() ==> (#[trigger] matches[i]).len() < 3,
    ensures
        !proves_run(matches),
{
}

/// The counts of several result lines add up, however the lines are grouped.
pub proof fn law_tallies_add_up(
    some: Seq<Seq<Option<Seq<char>>>>,
    more: Seq<Seq<Option<Seq<char>>>>,
)
    ensures
        passed_total(some + more) == passed_total(some) + passed_total(more),
        failed_total(some + more) == failed_total(some) + failed_total(more),
        proves_run(some + more) <==> proves_run(some) || proves_run(more),
    decreases more.len(),
{
    let all = some + more;
    if more.len() == 0 {
        assert(all == some);
    } else {
        law_tallies_add_up(some, more.drop_last());
        assert(all.drop_last() == some + more.drop_last());
        assert(all.last() == more.last());
    }
    if proves_run(all) {
        let i = choose|i: int| 0 <= i < all.len() && match_counts(#[trigger] all[i]) is Some;
        if i < some.len() {
            assert(all[i] == some[i]);
        } else {
            assert(all[i] == more[i - some.len()]);
        }
    }
    if proves_run(some) {
        let i = choose|i: int| 0 <= i < some.len() && match_counts(#[trigger] some[i]) is Some;
        assert(all[i] == some[i]);
    }
    if proves_run(more) {
        let i = choose|i: int| 0 <= i < more.len() && match_counts(#[trigger] more[i]) is Some;
        assert(all[some.len() + i] == more[i]);
    }
}

/// A result line counts exactly where its first two groups both spell counts: the
/// first is then added to the passed tests and the second to the failed ones. Any
/// other line adds nothing and proves nothing.
pub proof fn law_a_result_line_counts_by_its_two_groups(groups: Seq<Option<Seq<char>>>)
    ensures
        ({
            let line = seq![groups];
            let counts = groups.len() > 2 && groups[1] is Some && groups[2] is Some
                && parsed_count(groups[1]->0) is Some && parsed_count(groups[2]->0) is Some;
            &&& proves_run(line) <==> counts
            &&& counts ==> passed_total(line) == parsed_count(groups[1]->0)->0 && failed_total(line)
                == parsed_count(groups[2]->0)->0
            &&& !counts ==> passed_total(line) == 0 && failed_total(line) == 0
        }),
        !proves_run(Seq::empty()),
        passed_total(Seq::empty()) == 0,
        failed_total(Seq::empty()) == 0,
{
    reveal_with_fuel(passed_total, 2);
    reveal_with_fuel(failed_total, 2);
    let line = seq![groups];
    assert(line.drop_last() =~= Seq::empty());
    assert(line[0] == groups);
}

/// A run is reported with the output and the exit status that it had. It counts as
/// run exactly where some match of the proof carries counts, and then with the sums
/// of all of them.
pub proof fn law_a_run_is_classified_by_its_own_tally(
    output: Seq<char>,
    exit_ok: bool,
    matches: Seq<Seq<Option<Seq<char>>>>,
)
    requires
        passed_total(matches) <= u64::MAX,
        failed_total(matches) <= u64::MAX,
    ensures
        !(classified(output, exit_ok, matches) is TimedOut),
        classified(output, exit_ok, matches) is Ran <==> proves_run(matches),
        classified(output, exit_ok, matches) matches OutcomeView::NoProof { output: told }
            ==> told == output,
        classified(output, exit_ok, matches) matches OutcomeView::Ran {
            passed,
            failed,
            exit_ok: status,
            output: told,
        } ==> passed == passed_total(matches) && failed == failed_total(matches) && status
            == exit_ok && told == output,
{
}

proof fn lemma_totals_grow(matches: Seq<Seq<Option<Seq<char>>>>, i: int)
    requires
        0 <= i <= matches.len(),
    ensures
        passed_total(matches.take(i)) <= passed_total(matches),
        failed_total(matches.take(i)) <= failed_total(matches),
    decreases matches.len(),
{
    if i == matches.len() {
        assert(matches.take(i) == matches);
    } else {
        lemma_totals_grow(matches.drop_last(), i);
        assert(matches.drop_last().take(i) == matches.take(i));
    }
}

/// A match's group as a count.
fn group_count_at(groups: &Vec<Option<String>>, i: usize) -> (r: Option<u64>)
    ensures
        r == match group(groups.deep_view(), i as int) {
            Some(text) => parsed_count(text),
            None => None,
        },
{
    if i >= groups.len() {
        return None;
    }
    match &groups[i] {
        Some(text) => parse_count(text.as_str()),
        None => None,
    }
}

/// What the proof matches of one run add up to.
pub struct Tally {
    pub ran: bool,
    pub passed: u64,
    pub failed: u64,
}

/// Adds up the proof matches of a run. Nothing comes back where a sum leaves
/// 64 bits.
pub fn tally(matches: &Vec<Vec<Option<String>>>) -> (r: Option<Tally>)
    ensures
        match r {
            Some(t) => t.ran == proves_run(matches.deep_view()) && t.passed == passed_total(
                matches.deep_view(),
            ) && t.failed == failed_total(matches.deep_view()),
            None => !totals_fit(matches.deep_view()),
        },
{
    let ghost all = matches.deep_view();
    let mut ran = false;
    let mut passed: u64 = 0;
    let mut failed: u64 = 0;
    for i in 0..matches.len()
        invariant
            all == matches.deep_view(),
            ran == exists|j: int| 0 <= j < i && match_counts(#[trigger] all[j]) is Some,
            passed == passed_total(all.take(i as int)),
            failed == failed_total(all.take(i as int)),
    {
        let p = group_count_at(&matches[i], 1);
        let f = group_count_at(&matches[i], 2);
        proof {
            assert(all[i as int] == matches@[i as int].deep_view());
            assert(all.take(i + 1).drop_last() == all.take(i as int));
            lemma_totals_grow(all, i + 1);
        }
        if let (Some(p), Some(f)) = (p, f) {
            ran = true;
            match (passed.checked_add(p), failed.checked_add(f)) {
                (Some(more_passed), Some(more_failed)) => {
                    passed = more_passed;
                    failed = more_failed;
                },
                _ => {
                    return None;
                },
            }
        }
    }
    assert(all.take(all.len() as int) == all);
    Some(Tally { ran, passed, failed })
}

/// Classifies a finished run by the matches of its proof pattern. The sums of
/// all matches make one proof work for a harness that prints several result
/// lines.
pub fn classify_matches(
    output: &str,
    exit_ok: bool,
    matches: &Vec<Vec<Option<String>>>,
) -> (r: SuiteOutcome)
    requires
        totals_fit(matches.deep_view()),
    ensures
        r@ == classified(output@, exit_ok, matches.deep_view()),
{
    let t = tally(matches).unwrap();
    if !t.ran {
        return SuiteOutcome::NoProof { output: output.to_string() };
    }
    SuiteOutcome::Ran {
        passed: t.passed,
        failed: t.failed,
        exit_ok,
        output: output.to_string(),
    }
}

/// Scores one suite run against its proof pattern.
pub fn classify_suite(output: &str, exit_ok: bool, proof: &Pattern) -> (r: SuiteOutcome)
    requires
        totals_fit(all_matches(proof@, output@)),
    ensures
        r@ == classified(output@, exit_ok, all_matches(proof@, output@)),
        group_count(proof@) < 3 ==> r@ == (OutcomeView::NoProof { output: output@ }),
{
    let matches = proof.matches(output);
    proof {
        if group_count(proof@) < 3 {
            law_proof_needs_two_groups(matches.deep_view());
        }
    }
    classify_matches(output, exit_ok, &matches)
}

/// Scores one suite run, or returns nothing where its tallies add up to more
/// than 64 bits hold.
pub fn checked_classify_suite(output: &str, exit_ok: bool, proof: &Pattern) -> (r: Option<
    SuiteOutcome,
>)
    ensures
        match r {
            Some(outcome) => totals_fit(all_matches(proof@, output@)) && outcome@ == classified(
                output@,
                exit_ok,
                all_matches(proof@, output@),
            ),
            None => !totals_fit(all_matches(proof@, output@)),
        },
{
    let matches = proof.matches(output);
    if tally(&matches).is_none() {
        return None;
    }
    Some(classify_suite(output, exit_ok, proof))
}

// --------------------------------------------------------------- running ----
/// Pause between two looks at a running suite, in milliseconds.
pub const POLL_MILLIS: u64 = 100;

/// A running suite is looked at ten times a second.
pub proof fn law_pauses_are_tenths_of_a_second(pauses: nat)
    ensures
        pauses * POLL_MILLIS == 100 * pauses,
{
}

/// What a look at the suite's process showed.
pub enum Waited {
    Exited { ok: bool },
    Running,
    Failed { message: String },
}

/// What a look showed, by its texts.
pub enum WaitedView {
    Exited { ok: bool },
    Running,
    Failed { message: Seq<char> },
}

impl View for Waited {
    type V = WaitedView;

    open spec fn view(&self) -> WaitedView {
        match self {
            Waited::Exited { ok } => WaitedView::Exited { ok: *ok },
            Waited::Running => WaitedView::Running,
            Waited::Failed { message } => WaitedView::Failed { message: message@ },
        }
    }
}

/// What is to be done with the suite's process next.
pub enum Supervision {
    /// It is over; the output can be read.
    Finish { exit_ok: bool },
    /// It outlived its limit: kill its whole process group.
    Kill,
    /// Look again after a pause.
    Sleep,
    /// It cannot be waited for.
    GiveUp { message: String },
}

/// What is to be done next, by its texts.
pub enum SupervisionView {
    Finish { exit_ok: bool },
    Kill,
    Sleep,
    GiveUp { message: Seq<char> },
}

impl View for Supervision {
    type V = SupervisionView;

    open spec fn view(&self) -> SupervisionView {
        match self {
            Supervision::Finish { exit_ok } => SupervisionView::Finish { exit_ok: *exit_ok },
            Supervision::Kill => SupervisionView::Kill,
            Supervision::Sleep => SupervisionView::Sleep,
            Supervision::GiveUp { message } => SupervisionView::GiveUp { message: message@ },
        }
    }
}

/// What a look showed and what is to be done next are seen as they stand.
pub proof fn law_supervision_is_seen_as_it_stands(waited: Waited, next: Supervision)
    ensures
        waited matches Waited::Exited { ok } ==> waited@ == (WaitedView::Exited { ok }),
        waited is Running ==> waited@ is Running,
        waited matches Waited::Failed { message } ==> waited@ == (WaitedView::Failed {
            message: message@,
        }),
        next matches Supervision::Finish { exit_ok } ==> next@ == (SupervisionView::Finish {
            exit_ok,
        }),
        next is Kill ==> next@ is Kill,
        next is Sleep ==> next@ is Sleep,
        next matches Supervision::GiveUp { message } ==> next@ == (SupervisionView::GiveUp {
            message: message@,
        }),
{
}

/// A look at the suite's process: what it showed, and whether the time was up.
pub struct Look {
    pub waited: WaitedView,
    pub expired: bool,
}

/// What follows a look.
pub open spec fn supervised(look: Look) -> SupervisionView {
    match look.waited {
        WaitedView::Exited { ok } => SupervisionView::Finish { exit_ok: ok },
        WaitedView::Running => if look.expired {
            SupervisionView::Kill
        } else {
            SupervisionView::Sleep
        },
        WaitedView::Failed { message } => SupervisionView::GiveUp {
            message: "waiting on suite: "@ + message,
        },
    }
}

/// Decides what follows a look at the suite's process. A suite that has ended
/// counts as ended, however late; only a running one is killed, and only when
/// its time is up.
pub fn supervise(waited: Waited, expired: bool) -> (r: Supervision)
    ensures
        r@ == supervised(Look { waited: waited@, expired }),
{
    match waited {
        Waited::Exited { ok } => Supervision::Finish { exit_ok: ok },
        Waited::Running => if expired {
            Supervision::Kill
        } else {
            Supervision::Sleep
        },
        Waited::Failed { message } => {
            let mut told = "waiting on suite: ".to_string();
            told.append(message.as_str());
            Supervision::GiveUp { message: told }
        },
    }
}

/// Says why a suite could not be started.
pub fn describe_spawn_failure(program: &str, error: &str) -> (r: String)
    ensures
        r@ == "cannot spawn suite "@ + debug_quoted(program@) + ": "@ + error@,
{
    let mut told = "cannot spawn suite ".to_string();
    told.append(quoted(program).as_str());
    told.append(": ");
    told.append(error);
    told
}

/// The text of a run: what it wrote to its two streams, one after the other.
pub open spec fn combined(stdout: Seq<u8>, stderr: Seq<u8>) -> Seq<char> {
    lossy_text(stdout) + "\n"@ + lossy_text(stderr)
}

/// Puts the two captured streams together.
pub fn combine_output(stdout: &Vec<u8>, stderr: &Vec<u8>) -> (r: String)
    ensures
        r@ == combined(stdout@, stderr@),
{
    let mut text = read_lossy(stdout.as_slice());
    text.append("\n");
    text.append(read_lossy(stderr.as_slice()).as_str());
    text
}

/// The outcome of a supervised run from how it ended (`None` where it was
/// killed) and what it wrote, or why it has none: tallies that add up to more
/// than 64 bits hold.
pub open spec fn finished(
    exit_ok: Option<bool>,
    timeout_secs: u64,
    stdout: Seq<u8>,
    stderr: Seq<u8>,
    proof_source: Seq<char>,
) -> Result<OutcomeView, Seq<char>> {
    match exit_ok {
        None => Ok(OutcomeView::TimedOut { secs: timeout_secs }),
        Some(ok) => {
            let output = combined(stdout, stderr);
            let matches = all_matches(proof_source, output);
            if totals_fit(matches) {
                Ok(classified(output, ok, matches))
            } else {
                Err("the suite's tallies add up to more than 64 bits hold"@)
            }
        },
    }
}

/// Makes the outcome of a supervised run from how it ended (`None` where it was
/// killed) and what it wrote. Tallies that add up to more than 64 bits hold are
/// an error.
pub fn finish_run(
    exit_ok: Option<bool>,
    timeout_secs: u64,
    stdout: &Vec<u8>,
    stderr: &Vec<u8>,
    proof: &Pattern,
) -> (r: Result<SuiteOutcome, String>)
    ensures
        match r {
            Ok(outcome) => finished(exit_ok, timeout_secs, stdout@, stderr@, proof@) == Ok::<
                OutcomeView,
                Seq<char>,
            >(outcome@),
            Err(message) => finished(exit_ok, timeout_secs, stdout@, stderr@, proof@) == Err::<
                OutcomeView,
                Seq<char>,
            >(message@),
        },
{
    match exit_ok {
        None => Ok(SuiteOutcome::TimedOut { secs: timeout_secs }),
        Some(ok) => {
            let output = combine_output(stdout, stderr);
            match checked_classify_suite(output.as_str(), ok, proof) {
                Some(outcome) => Ok(outcome),
                None => Err("the suite's tallies add up to more than 64 bits hold".to_string()),
            }
        },
    }
}

/// A run that ended with an exit status and whose output proves a run is reported as
/// run, with that very status, with the sums over all proof matches in what it wrote
/// to its two streams, and with that text. One whose output proves none is reported
/// as such. Only sums that 64 bits do not hold keep it from being reported.
pub proof fn law_an_ended_run_is_reported_with_its_status_and_tally(
    status: bool,
    timeout_secs: u64,
    stdout: Seq<u8>,
    stderr: Seq<u8>,
    proof_source: Seq<char>,
)
    ensures
        ({
            let text = lossy_text(stdout) + "\n"@ + lossy_text(stderr);
            let matches = all_matches(proof_source, text);
            let run = finished(Some(status), timeout_secs, stdout, stderr, proof_source);
            &&& run is Err <==> passed_total(matches) > u64::MAX || failed_total(matches)
                > u64::MAX
            &&& run matches Err(told) ==> told
                == "the suite's tallies add up to more than 64 bits hold"@
            &&& run is Ok && (exists|i: int|
                0 <= i < matches.len() && match_counts(#[trigger] matches[i]) is Some) ==> {
                &&& run->Ok_0 is Ran
                &&& run->Ok_0->passed == passed_total(matches)
                &&& run->Ok_0->failed == failed_total(matches)
                &&& run->Ok_0->exit_ok == status
                &&& run->Ok_0->Ran_output == text
            }
            &&& run is Ok && (forall|i: int|
                0 <= i < matches.len() ==> match_counts(#[trigger] matches[i]) is None) ==> run
                == Ok::<OutcomeView, Seq<char>>(OutcomeView::NoProof { output: text })
        }),
{
    let text = lossy_text(stdout) + "\n"@ + lossy_text(stderr);
    let matches = all_matches(proof_source, text);
    if totals_fit(matches) {
        law_a_run_is_classified_by_its_own_tally(text, status, matches);
    }
}

/// A killed run is reported as timed out after its limit, whatever it wrote.
pub proof fn law_a_killed_run_is_reported_as_timed_out(
    timeout_secs: u64,
    stdout: Seq<u8>,
    stderr: Seq<u8>,
    proof_source: Seq<char>,
)
    ensures
        finished(None, timeout_secs, stdout, stderr, proof_source) == Ok::<OutcomeView, Seq<char>>(
            OutcomeView::TimedOut { secs: timeout_secs },
        ),
{
}

/// Two runs that wrote the same and are both reported differ in nothing but the exit
/// status that they ended with, so that status is never lost.
pub proof fn law_exit_status_is_never_laundered(
    timeout_secs: u64,
    stdout: Seq<u8>,
    stderr: Seq<u8>,
    proof_source: Seq<char>,
)
    ensures
        ({
            let good = finished(Some(true), timeout_secs, stdout, stderr, proof_source);
            let bad = finished(Some(false), timeout_secs, stdout, stderr, proof_source);
            &&& good is Ok <==> bad is Ok
            &&& good is Ok && good->Ok_0 is Ran ==> {
                &&& bad->Ok_0 is Ran
                &&& good->Ok_0->exit_ok
                &&& !bad->Ok_0->exit_ok
                &&& good->Ok_0->passed == bad->Ok_0->passed
                &&& good->Ok_0->failed == bad->Ok_0->failed
                &&& !is_green(bad->Ok_0)
            }
            &&& good is Ok && !(good->Ok_0 is Ran) ==> good == bad
        }),
{
}

/// Whether a look found the suite running with time left.
pub open spec fn has_time_left(look: Look) -> bool {
    look.waited is Running && !look.expired
}

/// Whether a look found the suite running with its time up.
pub open spec fn is_overdue(look: Look) -> bool {
    look.waited is Running && look.expired
}

/// Whether these are the looks at one run from its start to its end: only the
/// last found something else than a suite running with time left.
pub open spec fn watched_to_its_end(looks: Seq<Look>) -> bool {
    &&& looks.len() > 0
    &&& forall|i: int| 0 <= i < looks.len() - 1 ==> has_time_left(#[trigger] looks[i])
    &&& !has_time_left(looks.last())
}

/// How a run ended whose last look called for this: with an exit status, or,
/// where it was killed, without one.
pub open spec fn exit_of(decision: SupervisionView) -> Option<bool> {
    match decision {
        SupervisionView::Finish { exit_ok } => Some(exit_ok),
        _ => None,
    }
}

/// While a look finds the suite running with time left, and only then, it is
/// looked at again.
pub proof fn law_only_a_suite_with_time_left_is_waited_for(look: Look)
    ensures
        supervised(look) is Sleep <==> has_time_left(look),
        supervised(look) is Sleep <==> look.waited is Running && !look.expired,
        supervised(look) is Kill <==> look.waited is Running && look.expired,
        look.waited matches WaitedView::Exited { ok } ==> supervised(look) == (
        SupervisionView::Finish { exit_ok: ok }),
        look.waited matches WaitedView::Failed { message } ==> supervised(look) == (
        SupervisionView::GiveUp { message: "waiting on suite: "@ + message }),
{
}

/// Over all the looks at a run, the suite is killed exactly where some look found
/// it running with its time up; it is read to its end exactly where some look
/// found it ended, with the status found there; and it is given up exactly where
/// some look failed. Nothing else ends a run.
pub proof fn law_only_an_overdue_run_is_killed(looks: Seq<Look>)
    requires
        watched_to_its_end(looks),
    ensures
        supervised(looks.last()) is Kill <==> exists|i: int|
            0 <= i < looks.len() && is_overdue(#[trigger] looks[i]),
        forall|ok: bool|
            supervised(looks.last()) == (SupervisionView::Finish { exit_ok: ok }) <==> exists|i: int|
                0 <= i < looks.len() && #[trigger] looks[i].waited == (WaitedView::Exited { ok }),
        supervised(looks.last()) is GiveUp <==> exists|i: int|
            0 <= i < looks.len() && (#[trigger] looks[i]).waited is Failed,
        !(supervised(looks.last()) is Sleep),
        forall|i: int|
            0 <= i < looks.len() - 1 ==> supervised(#[trigger] looks[i]) is Sleep,
{
    let last = looks.len() - 1;
    assert(looks[last] == looks.last());
    assert forall|i: int| 0 <= i < looks.len() && !has_time_left(#[trigger] looks[i]) implies i
        == last by {}
    assert forall|ok: bool|
        supervised(looks.last()) == (SupervisionView::Finish { exit_ok: ok }) implies exists|i: int|
        0 <= i < looks.len() && #[trigger] looks[i].waited == (WaitedView::Exited { ok }) by {
        assert(looks[last].waited == (WaitedView::Exited { ok }));
    }
}

/// A run that was not given up is reported as timed out exactly where some look
/// found the suite running with its time up, whatever it had written until then.
pub proof fn law_only_an_overdue_run_times_out(
    looks: Seq<Look>,
    timeout_secs: u64,
    stdout: Seq<u8>,
    stderr: Seq<u8>,
    proof_source: Seq<char>,
)
    requires
        watched_to_its_end(looks),
        !(looks.last().waited is Failed),
    ensures
        ({
            let run = finished(
                exit_of(supervised(looks.last())),
                timeout_secs,
                stdout,
                stderr,
                proof_source,
            );
            run == Ok::<OutcomeView, Seq<char>>(OutcomeView::TimedOut { secs: timeout_secs })
                <==> exists|i: int| 0 <= i < looks.len() && is_overdue(#[trigger] looks[i])
        }),
{
    law_only_an_overdue_run_is_killed(looks);
}

// -------------------------------------------------------------- baseline ----
/// Why a baseline run blocks the pass, if it does. A red baseline probes
/// garbage, and one without tests would have every mutant survive.
pub open spec fn baseline_complaint(outcome: OutcomeView) -> Option<Seq<char>> {
    match outcome {
        OutcomeView::TimedOut { secs } => Some(
            "baseline suite timed out after "@ + decimal(secs as nat) + "s"@,
        ),
        OutcomeView::NoProof { output } => Some(
            "baseline produced no proof-of-run; tail: "@ + last_of(on_one_line(output), 400),
        ),
        OutcomeView::Ran { passed, failed, exit_ok, output } => if failed > 0 {
            Some(
                "baseline is RED ("@ + decimal(failed as nat)
                    + " failed) — fix the suite before probing"@,
            )
        } else if !exit_ok {
            Some(
                "baseline is RED (green tally but non-zero exit) — fix the suite before probing"@,
            )
        } else if passed == 0 {
            Some("baseline ran 0 tests — nothing can kill anything"@)
        } else {
            None
        },
    }
}

/// Whether a run can serve as a baseline: it ran at least one test, none
/// failed, and it exited zero.
pub open spec fn is_green(outcome: OutcomeView) -> bool {
    outcome matches OutcomeView::Ran { passed, failed, exit_ok, output } && passed > 0 && failed
        == 0 && exit_ok
}

/// A baseline passes exactly where it is green; a red, silent, hung or empty
/// one always blocks.
pub proof fn law_only_a_green_baseline_passes(outcome: OutcomeView)
    ensures
        baseline_complaint(outcome) is None <==> is_green(outcome),
        baseline_complaint(outcome) is None <==> outcome is Ran && outcome->passed >= 1
            && outcome->failed == 0 && outcome->exit_ok,
{
}

/// What blocks a baseline is told by its cause: a hung run by its limit, a silent one
/// by the end of its output, a red one by the number of its failed tests or by its
/// exit, and an empty one as such. Nothing else of the run changes what is told.
pub proof fn law_a_blocked_baseline_is_told_by_its_cause(
    secs: u64,
    passed: u64,
    failed: u64,
    exit_ok: bool,
    output: Seq<char>,
)
    ensures
        baseline_complaint(OutcomeView::TimedOut { secs }) == Some(
            "baseline suite timed out after "@ + decimal(secs as nat) + "s"@,
        ),
        baseline_complaint(OutcomeView::NoProof { output }) == Some(
            "baseline produced no proof-of-run; tail: "@ + last_of(on_one_line(output), 400),
        ),
        failed > 0 ==> baseline_complaint(OutcomeView::Ran { passed, failed, exit_ok, output })
            == Some(
            "baseline is RED ("@ + decimal(failed as nat)
                + " failed) — fix the suite before probing"@,
        ),
        baseline_complaint(OutcomeView::Ran { passed, failed: 0, exit_ok: false, output }) == Some(
            "baseline is RED (green tally but non-zero exit) — fix the suite before probing"@,
        ),
        baseline_complaint(OutcomeView::Ran { passed: 0, failed: 0, exit_ok: true, output })
            == Some("baseline ran 0 tests — nothing can kill anything"@),
{
}

/// Says why a baseline run blocks the pass, or nothing where it is sound.
pub fn baseline_defect(outcome: &SuiteOutcome) -> (r: Option<String>)
    ensures
        r.deep_view() == baseline_complaint(outcome@),
        r is None <==> is_green(outcome@),
{
    match outcome {
        SuiteOutcome::TimedOut { secs } => {
            let mut defect = "baseline suite timed out after ".to_string();
            defect.append(decimal_text(*secs as u128).as_str());
            defect.append("s");
            Some(defect)
        },
        SuiteOutcome::NoProof { output } => {
            let mut defect = "baseline produced no proof-of-run; tail: ".to_string();
            defect.append(tail(output.as_str(), 400).as_str());
            Some(defect)
        },
        SuiteOutcome::Ran { passed, failed, exit_ok, .. } => if *failed > 0 {
            let mut defect = "baseline is RED (".to_string();
            defect.append(decimal_text(*failed as u128).as_str());
            defect.append(" failed) — fix the suite before probing");
            Some(defect)
        } else if !*exit_ok {
            Some(
                "baseline is RED (green tally but non-zero exit) — fix the suite before probing".to_string(),
            )
        } else if *passed == 0 {
            Some("baseline ran 0 tests — nothing can kill anything".to_string())
        } else {
            None
        },
    }
}

/// Why a fail pattern that captured these names at a green baseline cannot be
/// trusted, if it captured any: nothing failed there, so each is the name of a
/// passing test.
pub open spec fn fail_pattern_distrust(names: Seq<Seq<char>>) -> Option<Seq<char>> {
    if names.len() == 0 {
        None
    } else {
        let shown = if names.len() < KILLED_BY_CAP {
            names
        } else {
            names.take(KILLED_BY_CAP as int)
        };
        Some(
            "suite.fail-pattern matches the GREEN baseline's own output: it captured "@ + decimal(
                names.len(),
            )
                + " name(s) where nothing failed, so it matches PASSING result lines and every killedBy it produced would be wrong. Captured: "@
                + joined(shown, ", "@) + (if names.len() > shown.len() {
                ", ..."@
            } else {
                ""@
            }),
        )
    }
}

/// A fail pattern is distrusted exactly where it captured a name at a green
/// baseline. The complaint tells how many names there were and shows the first five,
/// or all where there are no more, and only where some are left out does it say so.
pub proof fn law_any_name_at_a_green_baseline_is_distrusted(names: Seq<Seq<char>>)
    ensures
        fail_pattern_distrust(names) is None <==> names.len() == 0,
        names.len() > 0 ==> contains_text(
            fail_pattern_distrust(names)->0,
            "it captured "@ + decimal(names.len()) + " name(s)"@,
        ),
        0 < names.len() <= 5 ==> is_suffix(
            "Captured: "@ + joined(names, ", "@),
            fail_pattern_distrust(names)->0,
        ),
        names.len() > 5 ==> is_suffix(
            "Captured: "@ + joined(names.take(5), ", "@) + ", ..."@,
            fail_pattern_distrust(names)->0,
        ),
{
    if names.len() > 0 {
        let told = fail_pattern_distrust(names)->0;
        let shown = if names.len() <= 5 {
            names
        } else {
            names.take(5)
        };
        let rest = if names.len() <= 5 {
            ""@
        } else {
            ", ..."@
        };
        reveal_strlit("");
        reveal_strlit("it captured ");
        reveal_strlit(" name(s)");
        reveal_strlit("Captured: ");
        reveal_strlit("suite.fail-pattern matches the GREEN baseline's own output: ");
        reveal_strlit("suite.fail-pattern matches the GREEN baseline's own output: it captured ");
        reveal_strlit(
            " name(s) where nothing failed, so it matches PASSING result lines and every killedBy it produced would be wrong. Captured: ",
        );
        reveal_strlit(
            " where nothing failed, so it matches PASSING result lines and every killedBy it produced would be wrong. Captured: ",
        );
        reveal_strlit(
            " name(s) where nothing failed, so it matches PASSING result lines and every killedBy it produced would be wrong. ",
        );
        if names.len() == 5 {
            assert(names.take(5) =~= names);
        }
        let head = "suite.fail-pattern matches the GREEN baseline's own output: "@;
        let count = "it captured "@ + decimal(names.len()) + " name(s)"@;
        let more =
            " where nothing failed, so it matches PASSING result lines and every killedBy it produced would be wrong. Captured: "@
            + joined(shown, ", "@) + rest;
        assert("suite.fail-pattern matches the GREEN baseline's own output: it captured "@ =~= head
            + "it captured "@);
        assert(" name(s) where nothing failed, so it matches PASSING result lines and every killedBy it produced would be wrong. Captured: "@
            =~= " name(s)"@
            + " where nothing failed, so it matches PASSING result lines and every killedBy it produced would be wrong. Captured: "@);
        assert(told =~= head + count + more);
        lemma_part_is_contained(head, count, more);
        let end = "Captured: "@ + joined(shown, ", "@) + rest;
        let start = "suite.fail-pattern matches the GREEN baseline's own output: it captured "@
            + decimal(names.len())
            + " name(s) where nothing failed, so it matches PASSING result lines and every killedBy it produced would be wrong. "@;
        assert(" name(s) where nothing failed, so it matches PASSING result lines and every killedBy it produced would be wrong. Captured: "@
            =~= " name(s) where nothing failed, so it matches PASSING result lines and every killedBy it produced would be wrong. "@
            + "Captured: "@);
        assert(told =~= start + end);
        if names.len() <= 5 {
            assert(end =~= "Captured: "@ + joined(names, ", "@));
        }
        assert(told.skip(start.len() as int) =~= end);
    }
}

/// Whether a text ends in another.
pub open spec fn is_suffix(end: Seq<char>, text: Seq<char>) -> bool {
    end.len() <= text.len() && text.skip(text.len() - end.len()) == end
}

/// Judges a fail pattern by the names that it captured at a green baseline.
pub fn judge_baseline_names(names: &Vec<String>) -> (r: Option<String>)
    ensures
        r.deep_view() == fail_pattern_distrust(names.deep_view()),
{
    if names.len() == 0 {
        return None;
    }
    let shown: usize = if names.len() < KILLED_BY_CAP {
        names.len()
    } else {
        KILLED_BY_CAP
    };
    let mut defect =
        "suite.fail-pattern matches the GREEN baseline's own output: it captured ".to_string();
    defect.append(decimal_text(names.len() as u128).as_str());
    defect.append(
        " name(s) where nothing failed, so it matches PASSING result lines and every killedBy it produced would be wrong. Captured: ",
    );
    defect.append(join_first(names, shown, ", ").as_str());
    defect.append(
        if names.len() > shown {
            ", ..."
        } else {
            ""
        },
    );
    proof {
        if names@.len() < KILLED_BY_CAP {
            assert(names.deep_view().take(shown as int) == names.deep_view());
        }
    }
    Some(defect)
}

/// Says why a fail pattern cannot be trusted, given the output of a green
/// baseline, or nothing where it captures nothing there.
pub fn fail_pattern_defect(baseline_output: &str, fail_pattern: &Pattern) -> (r: Option<String>)
    ensures
        r.deep_view() == fail_pattern_distrust(
            distinct(first_groups(all_matches(fail_pattern@, baseline_output@))),
        ),
        r is None <==> first_groups(all_matches(fail_pattern@, baseline_output@)).len() == 0,
{
    let names = captured_names(baseline_output, fail_pattern);
    proof {
        let found = first_groups(all_matches(fail_pattern@, baseline_output@));
        crate::names::law_distinct_keeps_each_value_once_in_first_seen_order(found);
        if found.len() > 0 {
            assert(found.contains(found[0]));
            assert(distinct(found).contains(found[0]));
        }
    }
    judge_baseline_names(&names)
}

} // verus!
