//! What holds of every pass, whatever its mutants and whatever happens to it.

use crate::config::MutantView;
use crate::machine::{lemma_file_is_known, lemma_some_file};
use crate::pass::{ActionView, EventView, PassView, PhaseView};
use crate::suite::{is_green, law_only_a_green_baseline_passes, OutcomeView};
use crate::verdict::all_killed;
use vstd::prelude::*;

verus! {

// ------------------------------------------------------------------ steps ----
/// Whether an event answers what a pass asked for.
pub open spec fn is_answer(action: ActionView, event: EventView) -> bool {
    match (action, event) {
        (ActionView::Read { .. }, EventView::FileRead(_)) => true,
        (ActionView::Write { .. }, EventView::FileWritten(_)) => true,
        (ActionView::RunSuite, EventView::SuiteDone(_)) => true,
        _ => false,
    }
}

/// The states of passes stay sound: whatever answer comes, the next state is
/// sound again.
pub proof fn law_every_answer_keeps_the_pass_sound(pass: PassView, event: EventView)
    requires
        pass.wf(),
    ensures
        pass.next(event).0.wf(),
{
}

/// The state in which a pass begins is sound.
pub proof fn law_initial_pass_is_sound(mutants: Seq<MutantView>, fail_pattern: Option<Seq<char>>)
    requires
        mutants.len() > 0,
    ensures
        PassView::initial(mutants, fail_pattern).wf(),
{
    lemma_some_file(PassView::initial(mutants, fail_pattern));
}

/// A bound on the answers that a pass still needs.
pub open spec fn answers_left(pass: PassView) -> int {
    let mutants_left = pass.mutants.len() - pass.verdicts.len();
    match pass.phase {
        PhaseView::Loading => pass.files.len() - pass.originals.len() + 1 + 5 * mutants_left,
        PhaseView::Baseline => 1 + 5 * mutants_left,
        PhaseView::Checking => 5 * mutants_left,
        PhaseView::Mutating => 5 * mutants_left - 1,
        PhaseView::Probing => 5 * mutants_left - 2,
        PhaseView::Restoring(_) => 5 * mutants_left - 3,
        PhaseView::Verifying(_) => 5 * mutants_left - 4,
        PhaseView::Finished => 0,
        PhaseView::Aborted(_) => 0,
    }
}

/// Every answer brings a pass nearer to its end, so every pass ends: it is over
/// exactly where no answer is left to wait for.
pub proof fn law_every_pass_ends(pass: PassView, event: EventView)
    requires
        pass.wf(),
    ensures
        answers_left(pass) >= 0,
        answers_left(pass) == 0 <==> pass.is_over(),
        is_answer(pass.action(), event) ==> answers_left(pass.next(event).0) < answers_left(pass),
        !is_answer(pass.action(), event) ==> pass.next(event) == (pass, Seq::<Seq<char>>::empty()),
{
    law_every_answer_keeps_the_pass_sound(pass, event);
    match (pass.phase, event) {
        (PhaseView::Baseline, EventView::SuiteDone(Ok(outcome))) => {
            law_only_a_green_baseline_passes(outcome);
        },
        _ => {},
    }
}

/// A pass goes on from its baseline exactly where the run was green and the
/// fail pattern captured nothing in it. Otherwise it ends there.
pub proof fn law_only_a_trusted_baseline_is_probed(pass: PassView, outcome: OutcomeView)
    requires
        pass.wf(),
        pass.phase is Baseline,
    ensures
        ({
            let after = pass.next(EventView::SuiteDone(Ok(outcome))).0;
            &&& after.phase is Checking <==> is_green(outcome) && pass.distrust(outcome) is None
            &&& after.phase is Checking || after.phase is Aborted
        }),
{
    law_only_a_green_baseline_passes(outcome);
}

/// Nothing is written unless the baseline was green and the mutant's target
/// occurs exactly once in the original file. What is written is either that
/// mutation or, into the same file, the original.
pub proof fn law_only_valid_mutants_are_written(pass: PassView)
    requires
        pass.wf(),
        pass.action() is Write,
    ensures
        pass.baseline.passed > 0,
        pass.baseline.failed == 0,
        pass.mutation() is Ok,
        pass.action() == (ActionView::Write {
            file: pass.current().file,
            content: pass.mutation()->Ok_0,
        }) || pass.action() == (ActionView::Write {
            file: pass.current().file,
            content: pass.original_of(pass.current().file),
        }),
{
}

/// After the run on a mutated tree the next thing is to write the original
/// back, however the run went.
pub proof fn law_restore_follows_every_probe(
    pass: PassView,
    run: Result<OutcomeView, Seq<char>>,
)
    requires
        pass.wf(),
        pass.phase is Probing,
    ensures
        pass.next(EventView::SuiteDone(run)).0.action() == (ActionView::Write {
            file: pass.current().file,
            content: pass.original_of(pass.current().file),
        }),
{
}

/// A verdict is taken down only when the current file was just read and found
/// byte for byte the original. A suite that leaves the file changed, or a
/// restore that did not take, ends the pass instead.
pub proof fn law_verdict_needs_the_original_in_place(pass: PassView, event: EventView)
    requires
        pass.wf(),
        pass.next(event).0.verdicts != pass.verdicts,
    ensures
        event == EventView::FileRead(
            Ok::<Seq<char>, Seq<char>>(pass.original_of(pass.current().file)),
        ),
        pass.next(event).0.verdicts.len() == pass.verdicts.len() + 1,
        pass.next(event).0.verdicts.drop_last() == pass.verdicts,
        pass.next(event).0.verdicts.last() is HarnessError <==> pass.mutation() is Err,
{
    let after = pass.next(event).0;
    match (pass.phase, event) {
        (PhaseView::Baseline, EventView::SuiteDone(Ok(outcome))) => {
            law_only_a_green_baseline_passes(outcome);
        },
        _ => {},
    }
    assert(after.verdicts.drop_last() == pass.verdicts);
}

/// A finished pass reports every mutant, in order, with its verdict, and exits
/// zero exactly where all of them were killed.
pub proof fn law_finished_pass_reports_every_mutant(pass: PassView)
    requires
        pass.wf(),
        pass.phase is Finished,
    ensures
        pass.action() matches ActionView::Finish { report, exit_code } && {
            &&& report.baseline.passed > 0
            &&& report.baseline.failed == 0
            &&& report.mutants.len() == pass.mutants.len()
            &&& forall|i: int|
                0 <= i < pass.mutants.len() ==> {
                    &&& (#[trigger] report.mutants[i]).name == pass.mutants[i].name
                    &&& report.mutants[i].file == pass.mutants[i].file
                    &&& report.mutants[i].verdict == pass.verdicts[i]
                }
            &&& exit_code == 0 <==> (forall|i: int|
                0 <= i < report.mutants.len() ==> (#[trigger] report.mutants[i]).verdict is Killed)
            &&& exit_code == 0 || exit_code == 1
        },
{
    let report = pass.report();
    if all_killed(pass.verdicts) {
        assert forall|i: int| 0 <= i < report.mutants.len() implies (
        #[trigger] report.mutants[i]).verdict is Killed by {
            assert(pass.verdicts[i] is Killed);
        }
    } else {
        let i = choose|i: int|
            0 <= i < pass.verdicts.len() && !((#[trigger] pass.verdicts[i]) is Killed);
        assert(!(report.mutants[i].verdict is Killed));
    }
}

// ------------------------------------------------------------------- tree ----
/// Whether files and suite behave: a read gives what the file holds, a write
/// takes effect as a whole or not at all, and the suite leaves the files alone.
/// Reads, writes and runs may fail at any time.
pub open spec fn well_behaved(
    action: ActionView,
    tree: Map<Seq<char>, Seq<char>>,
    event: EventView,
    after: Map<Seq<char>, Seq<char>>,
) -> bool {
    match (action, event) {
        (ActionView::Read { file }, EventView::FileRead(Ok(content))) => tree.dom().contains(file)
            && content == tree[file] && after == tree,
        (ActionView::Read { .. }, EventView::FileRead(Err(_))) => after == tree,
        (ActionView::Write { file, content }, EventView::FileWritten(Ok(()))) => after
            == tree.insert(file, content),
        (ActionView::Write { .. }, EventView::FileWritten(Err(_))) => after == tree,
        (ActionView::RunSuite, EventView::SuiteDone(_)) => after == tree,
        _ => false,
    }
}

/// Whether this event says that a file could not be restored.
pub open spec fn restore_failed(pass: PassView, event: EventView) -> bool {
    pass.phase is Restoring && event matches EventView::FileWritten(Err(_))
}

/// The tree that a pass has made of the one it began with: the same, but for
/// the one file whose mutation is in place.
pub open spec fn tree_of(pass: PassView, first: Map<Seq<char>, Seq<char>>) -> Map<
    Seq<char>,
    Seq<char>,
> {
    if pass.phase is Probing || pass.phase is Restoring {
        first.insert(pass.current().file, pass.mutation()->Ok_0)
    } else {
        first
    }
}

/// Whether the originals of a pass are what the files held at first.
pub open spec fn knows_originals(pass: PassView, first: Map<Seq<char>, Seq<char>>) -> bool {
    forall|i: int|
        0 <= i < pass.originals.len() ==> first.dom().contains(#[trigger] pass.files[i])
            && first[pass.files[i]] == pass.originals[i]
}

/// At most one file differs from the tree that the pass began with, and only
/// while that file's mutant is being probed. One step keeps this, unless it is
/// the step in which a restore fails.
pub proof fn law_one_step_keeps_the_tree(
    pass: PassView,
    first: Map<Seq<char>, Seq<char>>,
    event: EventView,
    after: Map<Seq<char>, Seq<char>>,
)
    requires
        pass.wf(),
        knows_originals(pass, first),
        well_behaved(pass.action(), tree_of(pass, first), event, after),
        !restore_failed(pass, event),
    ensures
        knows_originals(pass.next(event).0, first),
        after == tree_of(pass.next(event).0, first),
{
    let then = pass.next(event).0;
    let k = pass.verdicts.len() as int;
    if k < pass.mutants.len() {
        lemma_file_is_known(pass, k, 0);
    }
    match (pass.phase, event) {
        (PhaseView::Loading, EventView::FileRead(Ok(content))) => {
            assert forall|i: int| 0 <= i < then.originals.len() implies first.dom().contains(
                #[trigger] then.files[i],
            ) && first[then.files[i]] == then.originals[i] by {
                if i < pass.originals.len() {
                    assert(first.dom().contains(pass.files[i]));
                }
            }
        },
        (PhaseView::Baseline, EventView::SuiteDone(Ok(outcome))) => {
            law_only_a_green_baseline_passes(outcome);
        },
        (PhaseView::Restoring(_), EventView::FileWritten(Ok(()))) => {
            let file = pass.current().file;
            let at = pass.files.index_of(file);
            assert(pass.files[at] == file);
            assert(first[file] == pass.originals[at]);
            assert(after =~= first);
        },
        _ => {},
    }
}

/// A pass after some events.
pub open spec fn after_events(pass: PassView, events: Seq<EventView>) -> PassView
    decreases events.len(),
{
    if events.len() == 0 {
        pass
    } else {
        after_events(pass, events.drop_last()).next(events.last()).0
    }
}

/// Whether a pass went through these events while the tree went through these
/// stages, everything well behaved.
pub open spec fn history(
    start: PassView,
    events: Seq<EventView>,
    trees: Seq<Map<Seq<char>, Seq<char>>>,
) -> bool {
    &&& trees.len() == events.len() + 1
    &&& forall|i: int|
        #![trigger events[i]]
        0 <= i < events.len() ==> well_behaved(
            after_events(start, events.take(i)).action(),
            trees[i],
            events[i],
            trees[i + 1],
        )
}

/// Whether some restore failed in a pass.
pub open spec fn some_restore_failed(start: PassView, events: Seq<EventView>) -> bool
    decreases events.len(),
{
    events.len() > 0 && {
        ||| some_restore_failed(start, events.drop_last())
        ||| restore_failed(after_events(start, events.drop_last()), events.last())
    }
}

proof fn lemma_shorter_history(
    start: PassView,
    events: Seq<EventView>,
    trees: Seq<Map<Seq<char>, Seq<char>>>,
)
    requires
        events.len() > 0,
        history(start, events, trees),
    ensures
        history(start, events.drop_last(), trees.drop_last()),
{
    let shorter = events.drop_last();
    assert forall|i: int| 0 <= i < shorter.len() implies well_behaved(
        after_events(start, shorter.take(i)).action(),
        trees.drop_last()[i],
        #[trigger] shorter[i],
        trees.drop_last()[i + 1],
    ) by {
        assert(shorter.take(i) == events.take(i));
        assert(shorter[i] == events[i]);
    }
}

/// How a pass stands to the tree: after a failed restore it is aborted, and
/// until then the tree is the first one but for the mutation in place.
spec fn stands(
    pass: PassView,
    first: Map<Seq<char>, Seq<char>>,
    tree: Map<Seq<char>, Seq<char>>,
    failed: bool,
) -> bool {
    &&& pass.wf()
    &&& failed ==> pass.phase is Aborted
    &&& !failed ==> tree == tree_of(pass, first) && knows_originals(pass, first)
}

proof fn lemma_step_stands(
    pass: PassView,
    first: Map<Seq<char>, Seq<char>>,
    tree: Map<Seq<char>, Seq<char>>,
    failed: bool,
    event: EventView,
    after: Map<Seq<char>, Seq<char>>,
)
    requires
        stands(pass, first, tree, failed),
        well_behaved(pass.action(), tree, event, after),
    ensures
        stands(pass.next(event).0, first, after, failed || restore_failed(pass, event)),
{
    law_every_answer_keeps_the_pass_sound(pass, event);
    if !failed && !restore_failed(pass, event) {
        law_one_step_keeps_the_tree(pass, first, event, after);
    }
}

proof fn lemma_history_stands(
    start: PassView,
    events: Seq<EventView>,
    trees: Seq<Map<Seq<char>, Seq<char>>>,
)
    requires
        stands(start, trees[0], trees[0], false),
        history(start, events, trees),
    ensures
        stands(
            after_events(start, events),
            trees[0],
            trees.last(),
            some_restore_failed(start, events),
        ),
    decreases events.len(),
{
    if events.len() > 0 {
        let n = events.len() - 1;
        let shorter = events.drop_last();
        lemma_shorter_history(start, events, trees);
        lemma_history_stands(start, shorter, trees.drop_last());
        assert(events.take(n) == shorter);
        assert(events[n] == events.last());
        lemma_step_stands(
            after_events(start, shorter),
            trees[0],
            trees[n],
            some_restore_failed(start, shorter),
            events.last(),
            trees.last(),
        );
    }
}

/// At every moment of every pass in which no restore failed, the tree is the
/// one that the pass began with, but for the one mutated file of a probe under
/// way. A finished pass has always put everything back; so has an aborted one
/// in which no restore failed.
pub proof fn law_every_pass_puts_the_tree_back(
    mutants: Seq<MutantView>,
    fail_pattern: Option<Seq<char>>,
    events: Seq<EventView>,
    trees: Seq<Map<Seq<char>, Seq<char>>>,
)
    requires
        mutants.len() > 0,
        history(PassView::initial(mutants, fail_pattern), events, trees),
    ensures
        ({
            let start = PassView::initial(mutants, fail_pattern);
            let pass = after_events(start, events);
            &&& pass.wf()
            &&& pass.phase is Finished ==> trees.last() == trees[0]
            &&& !some_restore_failed(start, events) ==> {
                &&& trees.last() == tree_of(pass, trees[0])
                &&& knows_originals(pass, trees[0])
                &&& pass.is_over() ==> trees.last() == trees[0]
            }
            &&& some_restore_failed(start, events) ==> pass.phase is Aborted
        }),
{
    let start = PassView::initial(mutants, fail_pattern);
    law_initial_pass_is_sound(mutants, fail_pattern);
    lemma_history_stands(start, events, trees);
}

} // verus!
