//! Tallies, verdicts, baselines and the lines that report them.

use mutation_probe::names::{captured_names, names_in};
use mutation_probe::pattern::Pattern;
use mutation_probe::suite::{
    baseline_defect, checked_classify_suite, classify_matches, classify_suite, combine_output,
    describe_spawn_failure, fail_pattern_defect, finish_run, judge_baseline_names, supervise, tally,
    SuiteOutcome, Supervision, Waited,
};
use mutation_probe::text::{count_occurrences, decimal_text, parse_count, tail};
use mutation_probe::verdict::{
    describe_summary, describe_verdict, exit_code, mutant_verdict, score_run, summarize, Summary,
    Verdict,
};

fn pattern(source: &str) -> Pattern {
    Pattern::new(source).expect("pattern compiles")
}

fn tally_pattern() -> Pattern {
    pattern(r"(\d+) passed \| (\d+) failed")
}

fn groups(texts: &[Option<&str>]) -> Vec<Option<String>> {
    texts.iter().map(|t| t.map(|s| s.to_string())).collect()
}

fn strings(texts: &[&str]) -> Vec<String> {
    texts.iter().map(|s| s.to_string()).collect()
}

#[test]
fn no_proof_line_is_never_scorable() {
    let out = classify_suite("panicked before any tests ran", true, &tally_pattern());
    assert!(matches!(out, SuiteOutcome::NoProof { .. }));
    // ...and becomes NO-RUN, not SURVIVED, whatever the exit code claimed.
    assert!(matches!(mutant_verdict(out, None), Verdict::NoRun { .. }));
}

#[test]
fn proof_matches_sum_across_binaries() {
    let out = classify_suite(
        "test result: 3 passed | 0 failed\nlater: 4 passed | 2 failed",
        false,
        &tally_pattern(),
    );
    match out {
        SuiteOutcome::Ran { passed, failed, .. } => {
            assert_eq!(passed, 7);
            assert_eq!(failed, 2);
        }
        other => panic!("expected Ran, got {other:?}"),
    }
}

#[test]
fn failed_tests_kill() {
    let out = classify_suite("5 passed | 1 failed", false, &tally_pattern());
    assert!(matches!(mutant_verdict(out, None), Verdict::Killed { .. }));
}

#[test]
fn failing_tally_kills_even_when_the_exit_code_lies() {
    let out = classify_suite("5 passed | 1 failed", true, &tally_pattern());
    assert!(matches!(mutant_verdict(out, None), Verdict::Killed { .. }));
}

#[test]
fn nonzero_exit_with_proof_kills_even_at_zero_failed_tally() {
    let out = classify_suite("5 passed | 0 failed", false, &tally_pattern());
    assert!(matches!(mutant_verdict(out, None), Verdict::Killed { .. }));
}

#[test]
fn clean_pass_survives() {
    let out = classify_suite("5 passed | 0 failed", true, &tally_pattern());
    assert_eq!(mutant_verdict(out, None), Verdict::Survived);
}

#[test]
fn timeout_is_no_run() {
    assert!(matches!(
        mutant_verdict(SuiteOutcome::TimedOut { secs: 9 }, None),
        Verdict::NoRun { .. }
    ));
    assert_eq!(
        mutant_verdict(SuiteOutcome::TimedOut { secs: 9 }, None),
        Verdict::NoRun {
            detail: "suite timed out after 9s".to_string()
        }
    );
}

#[test]
fn killed_by_extracts_failing_test_names() {
    let fp = pattern(r"(?m)^(\S+) \.\.\. FAILED$");
    let out = classify_suite(
        "guard_test ... FAILED\n1 passed | 1 failed",
        false,
        &tally_pattern(),
    );
    match mutant_verdict(out, Some(&fp)) {
        Verdict::Killed { killed_by } => assert_eq!(killed_by, vec!["guard_test"]),
        other => panic!("expected Killed, got {other:?}"),
    }
}

#[test]
fn baseline_red_and_empty_and_silent_all_block() {
    let red = classify_suite("3 passed | 1 failed", false, &tally_pattern());
    assert!(baseline_defect(&red).unwrap().contains("RED"));
    let empty = classify_suite("0 passed | 0 failed", true, &tally_pattern());
    assert!(baseline_defect(&empty).unwrap().contains("0 tests"));
    let silent = classify_suite("", true, &tally_pattern());
    assert!(baseline_defect(&silent).unwrap().contains("no proof"));
    let nonzero_exit = classify_suite("3 passed | 0 failed", false, &tally_pattern());
    assert!(baseline_defect(&nonzero_exit).is_some());
    let green = classify_suite("3 passed | 0 failed", true, &tally_pattern());
    assert!(baseline_defect(&green).is_none());
}

#[test]
fn red_baseline_names_the_actual_defect() {
    let tally_red = classify_suite("3 passed | 1 failed", false, &tally_pattern());
    assert!(baseline_defect(&tally_red).unwrap().contains("1 failed"));
    let exit_red = classify_suite("3 passed | 0 failed", false, &tally_pattern());
    assert!(baseline_defect(&exit_red)
        .unwrap()
        .contains("green tally but non-zero exit"));
}

#[test]
fn baseline_defects_word_for_word() {
    assert_eq!(
        baseline_defect(&SuiteOutcome::TimedOut { secs: 1800 }).unwrap(),
        "baseline suite timed out after 1800s"
    );
    assert_eq!(
        baseline_defect(&SuiteOutcome::NoProof {
            output: "boom\nbang".to_string()
        })
        .unwrap(),
        "baseline produced no proof-of-run; tail: boom bang"
    );
    let red = classify_suite("3 passed | 12 failed", false, &tally_pattern());
    assert_eq!(
        baseline_defect(&red).unwrap(),
        "baseline is RED (12 failed) — fix the suite before probing"
    );
    let empty = classify_suite("0 passed | 0 failed", true, &tally_pattern());
    assert_eq!(
        baseline_defect(&empty).unwrap(),
        "baseline ran 0 tests — nothing can kill anything"
    );
}

#[test]
fn exit_zero_only_when_everything_killed() {
    let killed = Verdict::Killed { killed_by: vec![] };
    assert_eq!(exit_code(&[killed.clone(), killed.clone()]), 0);
    assert_eq!(exit_code(&[killed.clone(), Verdict::Survived]), 1);
    assert_eq!(
        exit_code(&[
            killed.clone(),
            Verdict::NoRun {
                detail: String::new()
            }
        ]),
        1
    );
    assert_eq!(
        exit_code(&[
            killed,
            Verdict::HarnessError {
                detail: String::new()
            }
        ]),
        1
    );
}

#[test]
fn tail_keeps_the_end_and_flattens_newlines() {
    assert_eq!(tail("abc\ndef", 4), " def");
    assert_eq!(tail("ab", 4), "ab");
}

#[test]
fn tail_counts_characters_not_bytes() {
    assert_eq!(tail("höhe\n→", 3), "e →");
    assert_eq!(tail("abc", 0), "");
}

#[test]
fn a_sound_fail_pattern_captures_nothing_at_a_green_baseline() {
    let fp = pattern(r"(?m)^(\S+) \.\.\. FAILED$");
    assert!(fail_pattern_defect("guard_test ... ok\n1 passed | 0 failed", &fp).is_none());
}

#[test]
fn killed_by_is_distinct_and_capped() {
    let fp = pattern(r"(?m)^(\S+) \.\.\. FAILED$");
    let mut out = String::new();
    for i in 0..8 {
        // Each name printed twice, the way forge repeats its failures.
        out.push_str(&format!("t{i} ... FAILED\nt{i} ... FAILED\n"));
    }
    out.push_str("0 passed | 8 failed");
    let outcome = classify_suite(&out, false, &tally_pattern());
    match mutant_verdict(outcome, Some(&fp)) {
        Verdict::Killed { killed_by } => {
            assert_eq!(killed_by, vec!["t0", "t1", "t2", "t3", "t4"]);
        }
        other => panic!("expected Killed, got {other:?}"),
    }
}

#[test]
fn names_come_out_once_each_in_first_seen_order() {
    let matches = vec![
        groups(&[Some("x b"), Some("b")]),
        groups(&[Some("x a"), Some("a")]),
        groups(&[Some("x"), None]),
        groups(&[Some("y")]),
        groups(&[Some("x b"), Some("b")]),
        groups(&[Some("x c"), Some("c"), Some("z")]),
    ];
    assert_eq!(names_in(&matches), vec!["b", "a", "c"]);
    let fp = pattern(r"x(\w)?");
    assert_eq!(captured_names("xb xa x xb xc", &fp), vec!["b", "a", "c"]);
}

#[test]
fn counts_are_read_strictly() {
    assert_eq!(parse_count("0"), Some(0));
    assert_eq!(parse_count("007"), Some(7));
    assert_eq!(parse_count("+5"), Some(5));
    assert_eq!(parse_count("18446744073709551615"), Some(u64::MAX));
    assert_eq!(parse_count("18446744073709551616"), None);
    assert_eq!(parse_count("99999999999999999999999"), None);
    for bad in ["", "+", "-1", "++1", "1 ", " 1", "1_000", "٣", "0x1"] {
        assert_eq!(parse_count(bad), None, "{bad:?}");
        assert!(bad.parse::<u64>().is_err(), "{bad:?}");
    }
}

#[test]
fn decimals_are_written_plainly() {
    for n in [0u128, 7, 10, 909, 1800, u64::MAX as u128, u128::MAX] {
        assert_eq!(decimal_text(n), format!("{n}"));
    }
}

#[test]
fn a_match_without_two_counts_proves_nothing() {
    let none = vec![
        groups(&[Some("1 of 2"), Some("1")]),
        groups(&[Some("x"), Some("many"), Some("2")]),
        groups(&[Some("x"), Some("1"), None]),
    ];
    let outcome = classify_matches("some output", true, &none);
    assert_eq!(
        outcome,
        SuiteOutcome::NoProof {
            output: "some output".to_string()
        }
    );
    let mut one = none;
    one.push(groups(&[Some("x"), Some("3"), Some("1")]));
    assert_eq!(
        classify_matches("some output", true, &one),
        SuiteOutcome::Ran {
            passed: 3,
            failed: 1,
            exit_ok: true,
            output: "some output".to_string()
        }
    );
}

#[test]
fn a_proof_with_one_group_never_proves_a_run() {
    let outcome = classify_suite("5 passed | 0 failed", true, &pattern(r"(\d+) passed"));
    assert!(matches!(outcome, SuiteOutcome::NoProof { .. }));
}

#[test]
fn tallies_beyond_64_bits_are_told_apart() {
    let max = "18446744073709551615";
    let fits = vec![
        groups(&[Some("x"), Some(max), Some("0")]),
        groups(&[Some("x"), Some("0"), Some(max)]),
    ];
    let t = tally(&fits).unwrap();
    assert_eq!((t.ran, t.passed, t.failed), (true, u64::MAX, u64::MAX));
    let over = vec![
        groups(&[Some("x"), Some(max), Some("0")]),
        groups(&[Some("x"), Some("1"), Some("0")]),
    ];
    assert!(tally(&over).is_none());
    let text = format!("{max} passed | 0 failed\n1 passed | 0 failed");
    assert!(checked_classify_suite(&text, true, &tally_pattern()).is_none());
    assert_eq!(
        checked_classify_suite("2 passed | 0 failed", true, &tally_pattern()),
        Some(SuiteOutcome::Ran {
            passed: 2,
            failed: 0,
            exit_ok: true,
            output: "2 passed | 0 failed".to_string()
        })
    );
}

#[test]
fn result_lines_add_up_however_they_are_grouped() {
    let some = vec![groups(&[Some("x"), Some("3"), Some("1")])];
    let more = vec![
        groups(&[Some("x"), Some("4"), Some("0")]),
        groups(&[Some("x"), None, Some("9")]),
    ];
    let mut all = some.clone();
    all.extend(more.clone());
    let (a, b, c) = (
        tally(&some).unwrap(),
        tally(&more).unwrap(),
        tally(&all).unwrap(),
    );
    assert_eq!((a.passed, a.failed), (3, 1));
    assert_eq!((b.passed, b.failed), (4, 0));
    assert_eq!((c.passed, c.failed), (7, 1));
}

#[test]
fn only_a_running_suite_past_its_time_is_killed() {
    assert!(matches!(
        supervise(Waited::Exited { ok: true }, true),
        Supervision::Finish { exit_ok: true }
    ));
    assert!(matches!(
        supervise(Waited::Exited { ok: false }, false),
        Supervision::Finish { exit_ok: false }
    ));
    assert!(matches!(
        supervise(Waited::Running, true),
        Supervision::Kill
    ));
    assert!(matches!(
        supervise(Waited::Running, false),
        Supervision::Sleep
    ));
    match supervise(
        Waited::Failed {
            message: "no child".to_string(),
        },
        false,
    ) {
        Supervision::GiveUp { message } => assert_eq!(message, "waiting on suite: no child"),
        _ => panic!("expected GiveUp"),
    }
}

#[test]
fn a_finished_run_is_read_from_both_streams() {
    let out = b"1 passed | 0 failed".to_vec();
    let err = b"2 passed | 3 failed".to_vec();
    assert_eq!(
        finish_run(Some(false), 5, &out, &err, &tally_pattern()),
        Ok(SuiteOutcome::Ran {
            passed: 3,
            failed: 3,
            exit_ok: false,
            output: "1 passed | 0 failed\n2 passed | 3 failed".to_string()
        })
    );
    assert_eq!(
        finish_run(None, 5, &out, &err, &tally_pattern()),
        Ok(SuiteOutcome::TimedOut { secs: 5 })
    );
    assert!(matches!(
        finish_run(Some(true), 5, &Vec::new(), &Vec::new(), &tally_pattern()),
        Ok(SuiteOutcome::NoProof { .. })
    ));
    // Too large a tally is an error, but a killed run was never tallied.
    let huge = b"18446744073709551615 passed | 0 failed\n1 passed | 0 failed".to_vec();
    assert_eq!(
        finish_run(Some(true), 5, &huge, &Vec::new(), &tally_pattern()).unwrap_err(),
        "the suite's tallies add up to more than 64 bits hold"
    );
    assert_eq!(
        finish_run(None, 5, &huge, &Vec::new(), &tally_pattern()),
        Ok(SuiteOutcome::TimedOut { secs: 5 })
    );
}

/// Looks at a run until it ends, and returns how many looks that took and how it
/// ended.
fn watch(looks: Vec<(Waited, bool)>) -> (usize, Supervision) {
    for (taken, (waited, expired)) in looks.into_iter().enumerate() {
        match supervise(waited, expired) {
            Supervision::Sleep => {}
            decision => return (taken + 1, decision),
        }
    }
    panic!("the run never ended");
}

#[test]
fn a_run_is_killed_at_the_first_look_past_its_time() {
    let (taken, decision) = watch(vec![
        (Waited::Running, false),
        (Waited::Running, false),
        (Waited::Running, true),
        (Waited::Exited { ok: true }, true),
    ]);
    assert_eq!(taken, 3);
    assert!(matches!(decision, Supervision::Kill));
    let (taken, decision) = watch(vec![
        (Waited::Running, false),
        (Waited::Exited { ok: false }, true),
        (Waited::Running, true),
    ]);
    assert_eq!(taken, 2);
    assert!(matches!(decision, Supervision::Finish { exit_ok: false }));
}

#[test]
fn output_that_is_not_utf8_is_read_with_replacements() {
    assert_eq!(
        combine_output(&vec![b'a', 0xff, b'b'], &"é".as_bytes().to_vec()),
        "a\u{fffd}b\né"
    );
}

#[test]
fn a_suite_that_cannot_start_is_named_in_quotes() {
    assert_eq!(
        describe_spawn_failure("no\tsuch", "not found"),
        r#"cannot spawn suite "no\tsuch": not found"#
    );
}

#[test]
fn a_distrusted_fail_pattern_shows_five_names_at_most() {
    assert_eq!(judge_baseline_names(&Vec::new()), None);
    assert_eq!(
        judge_baseline_names(&strings(&["a", "b"])).unwrap(),
        "suite.fail-pattern matches the GREEN baseline's own output: it captured 2 name(s) \
         where nothing failed, so it matches PASSING result lines and every killedBy it \
         produced would be wrong. Captured: a, b"
    );
    let many = judge_baseline_names(&strings(&["a", "b", "c", "d", "e", "f"])).unwrap();
    assert!(many.contains("captured 6 name(s)"), "{many}");
    assert!(many.ends_with("Captured: a, b, c, d, e, ..."), "{many}");
    let five = judge_baseline_names(&strings(&["a", "b", "c", "d", "e"])).unwrap();
    assert!(five.ends_with("Captured: a, b, c, d, e"), "{five}");
}

#[test]
fn silent_runs_quote_the_end_of_their_output() {
    let long = format!("{}END", "x\n".repeat(400));
    match score_run(SuiteOutcome::NoProof { output: long }, strings(&["ignored"])) {
        Verdict::NoRun { detail } => {
            assert!(detail.starts_with("no proof-of-run in suite output; tail: "));
            assert!(detail.ends_with("x END"));
            assert_eq!(
                detail.chars().count(),
                "no proof-of-run in suite output; tail: ".chars().count() + 400
            );
        }
        other => panic!("expected NoRun, got {other:?}"),
    }
}

#[test]
fn verdict_lines() {
    let named = Verdict::Killed {
        killed_by: strings(&["a", "b"]),
    };
    let unnamed = Verdict::Killed { killed_by: vec![] };
    let no_run = Verdict::NoRun {
        detail: "why".to_string(),
    };
    let invalid = Verdict::HarnessError {
        detail: "how".to_string(),
    };
    assert_eq!(describe_verdict(&named, true), "KILLED — killed by: a, b");
    assert_eq!(
        describe_verdict(&unnamed, true),
        "KILLED — killer NOT NAMED: suite.fail-pattern matched nothing in this mutant's failing \
         output"
    );
    assert_eq!(describe_verdict(&unnamed, false), "KILLED");
    assert_eq!(describe_verdict(&Verdict::Survived, true), "SURVIVED");
    assert_eq!(describe_verdict(&no_run, true), "NO-RUN — why");
    assert_eq!(describe_verdict(&invalid, true), "HARNESS-ERROR — how");
    assert_eq!(named.label(), "KILLED");
    assert_eq!(Verdict::Survived.label(), "SURVIVED");
    assert_eq!(no_run.label(), "NO-RUN");
    assert_eq!(invalid.label(), "HARNESS-ERROR");
    assert_eq!(named.duplicate(), named);
}

#[test]
fn summaries_count_every_verdict() {
    let killed = Verdict::Killed { killed_by: vec![] };
    let no_run = Verdict::NoRun {
        detail: String::new(),
    };
    let invalid = Verdict::HarnessError {
        detail: String::new(),
    };
    let verdicts = vec![
        killed.clone(),
        Verdict::Survived,
        killed.clone(),
        no_run,
        invalid,
        Verdict::Survived,
        killed,
    ];
    let summary = summarize(&verdicts);
    assert_eq!(
        summary,
        Summary {
            killed: 3,
            survived: 2,
            no_run: 1,
            harness_error: 1
        }
    );
    assert_eq!(
        describe_summary(&summary, verdicts.len()),
        "\n== 3/7 killed; survived: 2; no-run: 1; harness errors: 1"
    );
}

#[test]
fn occurrences_are_disjoint_and_counted_from_the_left() {
    fn count(text: &str, target: &str) -> u128 {
        let text: Vec<char> = text.chars().collect();
        let target: Vec<char> = target.chars().collect();
        count_occurrences(&text, &target)
    }
    for (text, target) in [
        ("", ""),
        ("ab", ""),
        ("", "a"),
        ("aaa", "aa"),
        ("aaaa", "aa"),
        ("banana", "ana"),
        ("a—b—c", "—"),
        ("short", "longer than it"),
        ("x", "x"),
    ] {
        assert_eq!(
            count(text, target),
            text.matches(target).count() as u128,
            "{text:?} {target:?}"
        );
    }
}
