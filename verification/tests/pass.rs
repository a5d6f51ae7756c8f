//! Whole passes, over files held in memory and a suite that is a function of
//! them.

use std::collections::BTreeMap;

use mutation_probe::config::{select_mutants, MutantConfig};
use mutation_probe::machine::Pass;
use mutation_probe::mutation::{apply_mutant, complain_of_occurrences};
use mutation_probe::pass::{Action, Event, Report, Step, ABORT_EXIT};
use mutation_probe::pattern::Pattern;
use mutation_probe::suite::{finish_run, SuiteOutcome};
use mutation_probe::verdict::Verdict;

const CODE: &str = "GUARD on\nCAP 10\nMODE strict\n";

fn mutant(name: &str, file: &str, target: &str, replacement: &str) -> MutantConfig {
    MutantConfig {
        name: name.to_string(),
        file: file.to_string(),
        target: target.to_string(),
        replacement: replacement.to_string(),
    }
}

fn guard_off() -> MutantConfig {
    mutant("M-kill guard off", "code.txt", "GUARD on", "GUARD off")
}

fn all_four() -> Vec<MutantConfig> {
    vec![
        guard_off(),
        mutant("M-survive cap unchecked", "code.txt", "CAP 10", "CAP 99"),
        mutant("M-norun crash the suite", "code.txt", "MODE strict", "BOOM"),
        mutant("M-zero no such target", "code.txt", "ABSENT TEXT", "whatever"),
    ]
}

fn pattern(source: &str) -> Pattern {
    Pattern::new(source).expect("pattern compiles")
}

fn fail_pattern() -> Option<Pattern> {
    Some(pattern(r"(\S+) \.\.\. FAILED"))
}

/// Files by name.
type Tree = BTreeMap<String, String>;

fn tree_of(code: &str) -> Tree {
    BTreeMap::from([("code.txt".to_string(), code.to_string())])
}

/// How the toy suite's process ends: with an exit status, or killed at its limit.
type Ending = (Option<bool>, String);

/// The suite: crashes before its summary on BOOM, checks GUARD, never checks CAP.
fn check(tree: &Tree) -> Ending {
    let code = &tree["code.txt"];
    if code.contains("BOOM") {
        return (Some(false), String::new());
    }
    let guarded = code.contains("GUARD on");
    let (passed, failed) = if guarded { (2, 0) } else { (1, 1) };
    let word = if guarded { "ok" } else { "FAILED" };
    (
        Some(guarded),
        format!("guard_test ... {word}\ncap_test ... ok\n{passed} passed | {failed} failed\n"),
    )
}

fn run_toy(suite: fn(&Tree) -> Ending, tree: &Tree, timeout_secs: u64) -> SuiteOutcome {
    let (exit_ok, stdout) = suite(tree);
    finish_run(
        exit_ok,
        timeout_secs,
        &stdout.into_bytes(),
        &Vec::new(),
        &pattern(r"(\d+) passed \| (\d+) failed"),
    )
    .expect("the tally fits")
}

/// How a pass came out: its exit code, everything it said, and its report.
struct Told {
    exit: i32,
    out: String,
    report: Option<Report>,
}

impl Told {
    fn report(&self) -> &Report {
        self.report.as_ref().expect("a report")
    }

    fn labels(&self) -> Vec<(&str, &str)> {
        self.report()
            .mutants
            .iter()
            .map(|m| (m.name.as_str(), m.verdict.label()))
            .collect()
    }
}

fn drive(
    mutants: Vec<MutantConfig>,
    fail_pattern: Option<Pattern>,
    tree: &mut Tree,
    suite: fn(&Tree) -> Ending,
    timeout_secs: u64,
) -> Told {
    let mut out = String::new();
    let (mut pass, mut step) = Pass::start(mutants, fail_pattern);
    loop {
        for line in &step.lines {
            out.push_str(line);
            out.push('\n');
        }
        let event = match step.action {
            Action::Read { file } => {
                Event::FileRead(tree.get(&file).cloned().ok_or("no such file".to_string()))
            }
            Action::Write { file, content } => {
                tree.insert(file, content);
                Event::FileWritten(Ok(()))
            }
            Action::RunSuite => Event::SuiteDone(Ok(run_toy(suite, tree, timeout_secs))),
            Action::Finish { report, exit_code } => {
                return Told {
                    exit: exit_code,
                    out,
                    report: Some(report),
                }
            }
            Action::Abort { message } => {
                out.push_str(&message);
                return Told {
                    exit: ABORT_EXIT,
                    out,
                    report: None,
                };
            }
        };
        (pass, step) = pass.advance(event);
    }
}

fn run(mutants: Vec<MutantConfig>, tree: &mut Tree) -> Told {
    drive(mutants, fail_pattern(), tree, check, 60)
}

#[test]
fn weak_suite_scores_all_four_verdicts_and_restores() {
    let mut tree = tree_of(CODE);
    let told = run(all_four(), &mut tree);
    assert_eq!(
        told.exit, 1,
        "survivors must exit 1; output:\n{}",
        told.out
    );
    assert_eq!(
        told.labels(),
        vec![
            ("M-kill guard off", "KILLED"),
            ("M-survive cap unchecked", "SURVIVED"),
            ("M-norun crash the suite", "NO-RUN"),
            ("M-zero no such target", "HARNESS-ERROR"),
        ]
    );
    match &told.report().mutants[0].verdict {
        Verdict::Killed { killed_by } => assert_eq!(
            killed_by.first().map(|n| n.as_str()),
            Some("guard_test"),
            "fail-pattern names the killer"
        ),
        other => panic!("expected Killed, got {other:?}"),
    }
    assert_eq!(told.report().baseline.passed, 2);
    assert_eq!(
        tree["code.txt"], CODE,
        "the tree must be restored byte-exact after the pass"
    );
}

#[test]
fn a_pass_says_what_it_does() {
    let mut tree = tree_of(CODE);
    let told = run(all_four(), &mut tree);
    assert_eq!(
        told.out,
        "baseline: running suite ...\n\
         baseline: green (2 passed)\n\
         M-kill guard off: KILLED — killed by: guard_test\n\
         M-survive cap unchecked: SURVIVED\n\
         M-norun crash the suite: NO-RUN — no proof-of-run in suite output; tail:  \n\
         M-zero no such target: HARNESS-ERROR — target occurs 0x (need exactly 1) — mutates \
         nothing\n\
         \n== 1/4 killed; survived: 1; no-run: 1; harness errors: 1\n"
    );
    let summary = told.report().summary;
    assert_eq!(
        (
            summary.killed,
            summary.survived,
            summary.no_run,
            summary.harness_error
        ),
        (1, 1, 1, 1)
    );
    assert!(told.report().mutants.iter().all(|m| m.file == "code.txt"));
}

#[test]
fn all_killed_exits_zero() {
    let told = run(vec![guard_off()], &mut tree_of(CODE));
    assert_eq!(
        told.exit, 0,
        "an all-killed pass exits 0; output:\n{}",
        told.out
    );
    assert_eq!(told.report().summary.killed, 1);
}

#[test]
fn red_baseline_aborts_without_probing() {
    let mut tree = tree_of("GUARD off\nCAP 10\nMODE strict\n");
    let told = run(all_four(), &mut tree);
    assert_eq!(
        told.exit, 2,
        "a red baseline is an abort; output:\n{}",
        told.out
    );
    assert!(
        told.out.contains("RED"),
        "the abort names the red baseline:\n{}",
        told.out
    );
    assert!(told.report.is_none(), "no report on an aborted pass");
}

#[test]
fn crashed_baseline_aborts_as_no_proof() {
    let told = run(all_four(), &mut tree_of("GUARD on\nCAP 10\nBOOM\n"));
    assert_eq!(told.exit, 2);
    assert!(
        told.out.contains("no proof-of-run"),
        "a baseline that cannot prove it ran must say so:\n{}",
        told.out
    );
}

#[test]
fn hung_suite_times_out_as_no_run_and_restores() {
    fn hangs(tree: &Tree) -> Ending {
        if tree["code.txt"].contains("SLOW") {
            return (None, "2 passed | 0 failed\n".to_string());
        }
        check(tree)
    }
    let mut tree = tree_of(CODE);
    let told = drive(
        vec![mutant(
            "M-hang the suite sleeps forever",
            "code.txt",
            "MODE strict",
            "SLOW",
        )],
        None,
        &mut tree,
        hangs,
        2,
    );
    assert_eq!(
        told.exit, 1,
        "a NO-RUN is a non-kill; output:\n{}",
        told.out
    );
    match &told.report().mutants[0].verdict {
        Verdict::NoRun { detail } => {
            assert!(detail.contains("timed out"), "the detail names the timeout");
            assert_eq!(detail, "suite timed out after 2s");
        }
        other => panic!("expected NoRun, got {other:?}"),
    }
    assert_eq!(tree["code.txt"], CODE, "restored despite the timeout");
}

#[test]
fn failing_tally_with_zero_exit_still_kills() {
    // A wrapper that swallows the suite's exit code must not launder a failure that
    // the suite's own tally reports.
    fn swallowing(tree: &Tree) -> Ending {
        let (exit_ok, output) = check(tree);
        (exit_ok.map(|_| true), output)
    }
    let told = drive(
        vec![guard_off()],
        fail_pattern(),
        &mut tree_of(CODE),
        swallowing,
        60,
    );
    assert_eq!(
        told.exit, 0,
        "killed via the tally alone; output:\n{}",
        told.out
    );
    assert_eq!(told.labels(), vec![("M-kill guard off", "KILLED")]);
}

#[test]
fn only_filter_narrows_the_pass() {
    let selected = select_mutants(&all_four(), &Some("M-kill".to_string()))
        .unwrap_or_else(|e| panic!("{e}"));
    let told = run(selected, &mut tree_of(CODE));
    assert_eq!(
        told.exit, 0,
        "the killed mutant alone exits 0; output:\n{}",
        told.out
    );
    assert_eq!(told.report().mutants.len(), 1);
}

#[test]
fn only_is_a_substring_filter_so_a_prefix_selects_every_match() {
    // Matching is by substring, deliberately: a wider match only adds verdicts, and
    // exit 0 still demands that every one of them be KILLED.
    let mutants = vec![
        mutant("M07 guard off", "code.txt", "GUARD on", "GUARD off"),
        mutant("M070 cap unchecked", "code.txt", "CAP 10", "CAP 99"),
    ];
    let selected =
        select_mutants(&mutants, &Some("M07".to_string())).unwrap_or_else(|e| panic!("{e}"));
    let told = run(selected, &mut tree_of(CODE));
    assert_eq!(
        told.labels(),
        vec![
            ("M07 guard off", "KILLED"),
            ("M070 cap unchecked", "SURVIVED"),
        ],
        "M07 is a substring of both names, so both are probed; output:\n{}",
        told.out
    );
    assert_eq!(
        told.exit, 1,
        "the extra match's survival still fails the pass; output:\n{}",
        told.out
    );
}

#[test]
fn an_unnamed_killer_is_said_aloud() {
    let told = drive(
        vec![guard_off()],
        Some(pattern("(NEVER)")),
        &mut tree_of(CODE),
        check,
        60,
    );
    assert!(told.out.contains("killer NOT NAMED"), "{}", told.out);
    let told = drive(vec![guard_off()], None, &mut tree_of(CODE), check, 60);
    assert!(
        told.out.contains("M-kill guard off: KILLED\n"),
        "{}",
        told.out
    );
}

#[test]
fn a_fail_pattern_that_matches_the_baseline_aborts() {
    let told = drive(
        vec![guard_off()],
        Some(pattern(r"(\S+) \.\.\. ")),
        &mut tree_of(CODE),
        check,
        60,
    );
    assert_eq!(told.exit, 2);
    assert!(
        told.out.ends_with("Captured: guard_test, cap_test"),
        "{}",
        told.out
    );
    assert!(told.report.is_none());
}

#[test]
fn each_file_is_loaded_once_and_restored() {
    fn both_on(tree: &Tree) -> Ending {
        let ok = tree["a.txt"] == "on" && tree["b.txt"] == "on";
        let failed = if ok { 0 } else { 1 };
        (Some(ok), format!("1 passed | {failed} failed"))
    }
    let first = BTreeMap::from([
        ("a.txt".to_string(), "on".to_string()),
        ("b.txt".to_string(), "on".to_string()),
    ]);
    let mut tree = first.clone();
    let told = drive(
        vec![
            mutant("b", "b.txt", "on", "off"),
            mutant("a", "a.txt", "on", "off"),
            mutant("b again", "b.txt", "n", ""),
        ],
        None,
        &mut tree,
        both_on,
        60,
    );
    assert_eq!(told.exit, 0, "{}", told.out);
    assert_eq!(tree, first);
}

// ---------------------------------------------------------- step by step ----

fn read(content: &str) -> Event {
    Event::FileRead(Ok(content.to_string()))
}

fn ran(failed: u64) -> Event {
    Event::SuiteDone(Ok(SuiteOutcome::Ran {
        passed: 2,
        failed,
        exit_ok: failed == 0,
        output: "out".to_string(),
    }))
}

fn wrong(message: &str) -> String {
    message.to_string()
}

/// Feeds events to a pass over one mutant, and returns the last step.
fn after(events: Vec<Event>) -> Step {
    let (mut pass, mut step) = Pass::start(vec![guard_off()], None);
    for event in events {
        (pass, step) = pass.advance(event);
    }
    step
}

fn abort_of(events: Vec<Event>) -> String {
    let step = after(events);
    assert!(step.lines.is_empty());
    match step.action {
        Action::Abort { message } => message,
        other => panic!("expected Abort, got {other:?}"),
    }
}

#[test]
fn a_probe_goes_step_by_step() {
    let mut events = Vec::new();
    let replay: Vec<fn() -> Event> = vec![
        || read(CODE),
        || ran(0),
        || read(CODE),
        || Event::FileWritten(Ok(())),
        || ran(1),
        || Event::FileWritten(Ok(())),
        || read(CODE),
    ];
    let mut seen = Vec::new();
    for next in 0..=replay.len() {
        events.clear();
        events.extend(replay[..next].iter().map(|make| make()));
        let step = after(std::mem::take(&mut events));
        seen.push(match step.action {
            Action::Read { file } => format!("read {file}"),
            Action::Write { file, content } => format!("write {file} {}", &content[..9]),
            Action::RunSuite => "run".to_string(),
            Action::Finish { exit_code, .. } => format!("finish {exit_code}"),
            Action::Abort { message } => message,
        });
    }
    assert_eq!(
        seen,
        vec![
            "read code.txt",
            "run",
            "read code.txt",
            "write code.txt GUARD off",
            "run",
            "write code.txt GUARD on\n",
            "read code.txt",
            "finish 0",
        ]
    );
}

#[test]
fn a_pass_is_aborted_wherever_it_cannot_be_trusted() {
    let written = || Event::FileWritten(Ok(()));
    assert_eq!(
        abort_of(vec![Event::FileRead(Err(wrong("gone")))]),
        "cannot read code.txt: gone"
    );
    assert_eq!(
        abort_of(vec![read(CODE), Event::SuiteDone(Err(wrong("no shell")))]),
        "no shell"
    );
    assert_eq!(
        abort_of(vec![read(CODE), ran(3)]),
        "baseline is RED (3 failed) — fix the suite before probing"
    );
    assert_eq!(
        abort_of(vec![
            read(CODE),
            ran(0),
            Event::FileRead(Err(wrong("gone")))
        ]),
        "cannot re-read code.txt: gone"
    );
    assert_eq!(
        abort_of(vec![read(CODE), ran(0), read("other")]),
        "code.txt changed on disk mid-pass — tree is not pristine, aborting"
    );
    assert_eq!(
        abort_of(vec![
            read(CODE),
            ran(0),
            read(CODE),
            Event::FileWritten(Err(wrong("full")))
        ]),
        "cannot write mutant to code.txt: full"
    );
    assert_eq!(
        abort_of(vec![
            read(CODE),
            ran(0),
            read(CODE),
            written(),
            ran(1),
            Event::FileWritten(Err(wrong("full")))
        ]),
        "RESTORE FAILED for code.txt: full — tree is dirty"
    );
    assert_eq!(
        abort_of(vec![
            read(CODE),
            ran(0),
            read(CODE),
            written(),
            ran(1),
            written(),
            Event::FileRead(Err(wrong("gone")))
        ]),
        "cannot verify restore of code.txt: gone"
    );
    assert_eq!(
        abort_of(vec![
            read(CODE),
            ran(0),
            read(CODE),
            written(),
            ran(1),
            written(),
            read("GUARD off")
        ]),
        "restore of code.txt is not byte-exact — tree is dirty"
    );
    // A suite that could not be run is told only after the restore was verified.
    assert_eq!(
        abort_of(vec![
            read(CODE),
            ran(0),
            read(CODE),
            written(),
            Event::SuiteDone(Err(wrong("no shell"))),
            written(),
            read(CODE)
        ]),
        "no shell"
    );
    assert_eq!(ABORT_EXIT, 2);
}

#[test]
fn an_answer_to_nothing_changes_nothing() {
    let step = after(vec![
        ran(0),
        Event::FileWritten(Ok(())),
        read(CODE),
        read(CODE),
        Event::FileWritten(Err(wrong("full"))),
    ]);
    assert!(matches!(step.action, Action::RunSuite));
    assert!(step.lines.is_empty());
    let message = abort_of(vec![Event::FileRead(Err(wrong("gone"))), read(CODE), ran(0)]);
    assert_eq!(message, "cannot read code.txt: gone");
}

// -------------------------------------------------------------- mutation ----

#[test]
fn a_mutant_replaces_its_one_target() {
    let m = mutant("m", "f", "b—", "");
    assert_eq!(apply_mutant("ab—c", &m), Ok("ac".to_string()));
    assert_eq!(apply_mutant("abc", &m), Err(0));
    assert_eq!(apply_mutant("b—b—", &m), Err(2));
    let longer = mutant("m", "f", "x", "xyzzy");
    assert_eq!(apply_mutant("x", &longer), Ok("xyzzy".to_string()));
    // A replacement that is the target leaves the file as it was.
    let same = mutant("m", "f", "CAP", "CAP");
    assert_eq!(apply_mutant(CODE, &same), Ok(CODE.to_string()));
    // Occurrences are counted without overlap, and the first one is replaced.
    let doubled = mutant("m", "f", "aa", "b");
    assert_eq!(apply_mutant("aaa", &doubled), Ok("ba".to_string()));
    // An empty target stands everywhere, but once only in an empty file.
    let empty = mutant("m", "f", "", "x");
    assert_eq!(apply_mutant("ab", &empty), Err(3));
    assert_eq!(apply_mutant("", &empty), Ok("x".to_string()));
    for (text, m) in [("aaa", &doubled), ("", &empty), (CODE, &same)] {
        assert_eq!(
            apply_mutant(text, m).unwrap(),
            text.replacen(&m.target, &m.replacement, 1)
        );
    }
    assert_eq!(
        complain_of_occurrences(12),
        "target occurs 12x (need exactly 1) — mutates nothing"
    );
}
