//! The shipped patterns against the output that they scrape, and how a suite's
//! configuration resolves to patterns, mutants and a command.

use mutation_probe::config::{
    check_fail_pattern, check_proof, compile_patterns, default_timeout, harness_named,
    harness_names, harnesses, resolve_patterns, select_mutants, split_command, MutantConfig,
    SuiteConfig,
};
use mutation_probe::names::captured_names;
use mutation_probe::pattern::Pattern;
use mutation_probe::suite::{classify_suite, fail_pattern_defect, SuiteOutcome};

// The shapes that a shipped pattern has to survive: a PASS line, a failure with a
// message on one line, an assertEq message over several lines, a fuzz
// counterexample with `]` inside the message, a custom-error revert, a snake_case
// test name, an invariant failure with its name on a later line after a
// [Sequence] block, and the `Failing tests:` recap, which prints every failure a
// second time. The texts are written by hand in the harnesses' formats.
const FORGE_GREEN: &str = r#"Compiling 24 files with Solc 0.8.25
Solc 0.8.25 finished in 1.02s
Compiler run successful!

Ran 2 tests for test/Green.t.sol:GreenTest
[PASS] testAppliedIsIdempotent() (gas: 8759)
[PASS] testHeadGenesisIsNotZero() (gas: 5512)
Suite result: ok. 2 passed; 0 failed; 0 skipped; finished in 1.21ms (402.11µs CPU time)

Ran 1 test suite in 8.41ms (1.21ms CPU time): 2 tests passed, 0 failed, 0 skipped (2 total tests)
"#;

const FORGE_RED: &str = r#"Compiling 24 files with Solc 0.8.25
Solc 0.8.25 finished in 1.02s
Compiler run successful!

Ran 1 test for test/Green.t.sol:GreenTest
[PASS] testHeadGenesisIsNotZero() (gas: 5512)
Suite result: ok. 1 passed; 0 failed; 0 skipped; finished in 1.21ms (402.11µs CPU time)

Ran 8 tests for test/Shapes.t.sol:ShapesTest
[FAIL: generated source drifted: // SPDX-License-Identifier: MIT
pragma solidity ^0.8.25;

library Table {
    uint256 internal constant SIZE = 4;
}
 != // SPDX-License-Identifier: MIT
pragma solidity ^0.8.25;

library Table {
    uint256 internal constant SIZE = 8;
}
] testGeneratedSourceMatchesSnapshot() (gas: 14233)
[PASS] testAppliedIsIdempotent() (gas: 8759)
[FAIL: one is not two: 1 != 2] testSingleLineFailure() (gas: 3480)
[FAIL: Unauthorized(0x7FA9385bE102ac3EAc297483Dd6233D62b3e1496)] testCustomErrorRevertIsUncaught() (gas: 3871)
[FAIL: too large; counterexample: calldata=0x8f1c args=[115792089237316195423570985 [1.157e26]]] testFuzz_BoundedIsAlwaysSmall(uint256) (runs: 3, μ: 3211, ~: 3211)
[FAIL: EvmError: Revert] testPlainRevert() (gas: 2915)
[PASS] testSkipsNothing() (gas: 211)
[FAIL: assertion failed] test_snake_case_name_fails() (gas: 3012)
Suite result: FAILED. 2 passed; 6 failed; 0 skipped; finished in 4.77ms (3.98ms CPU time)

Ran 2 tests for test/Invariant.t.sol:InvariantTest
[FAIL: counter moved]
	[Sequence] (original: 2, shrunk: 1)
		sender=0x0000000000000000000000000000000000001234 addr=[src/Counter.sol:Counter]0x5615dEB798BB3E4dFa0139dFa1b3D433Cc23b72f calldata=increment() args=[]
 invariant_NeverIncrements() (runs: 1, calls: 1, reverts: 0)
[PASS] testCounterStartsAtZero() (gas: 7721)
Suite result: FAILED. 1 passed; 1 failed; 0 skipped; finished in 9.02ms (8.40ms CPU time)

Ran 3 test suites in 15.30ms (15.00ms CPU time): 4 tests passed, 7 failed, 0 skipped (11 total tests)

Failing tests:
Encountered 6 failing tests in test/Shapes.t.sol:ShapesTest
[FAIL: generated source drifted: // SPDX-License-Identifier: MIT
pragma solidity ^0.8.25;

library Table {
    uint256 internal constant SIZE = 4;
}
 != // SPDX-License-Identifier: MIT
pragma solidity ^0.8.25;

library Table {
    uint256 internal constant SIZE = 8;
}
] testGeneratedSourceMatchesSnapshot() (gas: 14233)
[FAIL: one is not two: 1 != 2] testSingleLineFailure() (gas: 3480)
[FAIL: Unauthorized(0x7FA9385bE102ac3EAc297483Dd6233D62b3e1496)] testCustomErrorRevertIsUncaught() (gas: 3871)
[FAIL: too large; counterexample: calldata=0x8f1c args=[115792089237316195423570985 [1.157e26]]] testFuzz_BoundedIsAlwaysSmall(uint256) (runs: 3, μ: 3211, ~: 3211)
[FAIL: EvmError: Revert] testPlainRevert() (gas: 2915)
[FAIL: assertion failed] test_snake_case_name_fails() (gas: 3012)

Encountered 1 failing test in test/Invariant.t.sol:InvariantTest
[FAIL: counter moved]
	[Sequence] (original: 2, shrunk: 1)
		sender=0x0000000000000000000000000000000000001234 addr=[src/Counter.sol:Counter]0x5615dEB798BB3E4dFa0139dFa1b3D433Cc23b72f calldata=increment() args=[]
 invariant_NeverIncrements() (runs: 1, calls: 1, reverts: 0)

Encountered a total of 7 failing tests, 4 tests succeeded
"#;

// The same failures in another layout: the bracket closes at the end of the
// message's last line, and the call sequence carries no counts.
const FORGE_OTHER_RED: &str = r#"No files changed, compilation skipped

Ran 8 tests for test/Shapes.t.sol:ShapesTest
[FAIL: generated source drifted: library Table {
    uint256 internal constant SIZE = 4;
} != library Table {
    uint256 internal constant SIZE = 8;
}] testGeneratedSourceMatchesSnapshot() (gas: 14301)
[PASS] testAppliedIsIdempotent() (gas: 8803)
[FAIL: one is not two: 1 != 2] testSingleLineFailure() (gas: 3502)
[FAIL: Unauthorized(0x7FA9385bE102ac3EAc297483Dd6233D62b3e1496)] testCustomErrorRevertIsUncaught() (gas: 3899)
[FAIL: too large; counterexample: calldata=0x8f1c args=[115792089237316195423570985 [1.157e26]]] testFuzz_BoundedIsAlwaysSmall(uint256) (runs: 0, μ: 0, ~: 0)
[FAIL: EvmError: Revert] testPlainRevert() (gas: 2951)
[PASS] testSkipsNothing() (gas: 209)
[FAIL: assertion failed] test_snake_case_name_fails() (gas: 3055)
Suite result: FAILED. 2 passed; 6 failed; 0 skipped; finished in 5.13ms (4.02ms CPU time)

Ran 2 tests for test/Invariant.t.sol:InvariantTest
[FAIL: counter moved]
	[Sequence]
		sender=0x0000000000000000000000000000000000001234 addr=[src/Counter.sol:Counter]0x5615dEB798BB3E4dFa0139dFa1b3D433Cc23b72f calldata=increment() args=[]
 invariant_NeverIncrements() (runs: 1, calls: 1, reverts: 1)
[PASS] testCounterStartsAtZero() (gas: 7750)
Suite result: FAILED. 1 passed; 1 failed; 0 skipped; finished in 9.91ms (9.02ms CPU time)

Ran 1 test for test/Green.t.sol:GreenTest
[PASS] testHeadGenesisIsNotZero() (gas: 5540)
Suite result: ok. 1 passed; 0 failed; 0 skipped; finished in 1.40ms (411.02µs CPU time)

Ran 3 test suites in 17.02ms (16.44ms CPU time): 4 tests passed, 7 failed, 0 skipped (11 total tests)

Failing tests:
Encountered 1 failing test in test/Invariant.t.sol:InvariantTest
[FAIL: counter moved]
	[Sequence]
		sender=0x0000000000000000000000000000000000001234 addr=[src/Counter.sol:Counter]0x5615dEB798BB3E4dFa0139dFa1b3D433Cc23b72f calldata=increment() args=[]
 invariant_NeverIncrements() (runs: 1, calls: 1, reverts: 1)

Encountered 6 failing tests in test/Shapes.t.sol:ShapesTest
[FAIL: generated source drifted: library Table {
    uint256 internal constant SIZE = 4;
} != library Table {
    uint256 internal constant SIZE = 8;
}] testGeneratedSourceMatchesSnapshot() (gas: 14301)
[FAIL: one is not two: 1 != 2] testSingleLineFailure() (gas: 3502)
[FAIL: Unauthorized(0x7FA9385bE102ac3EAc297483Dd6233D62b3e1496)] testCustomErrorRevertIsUncaught() (gas: 3899)
[FAIL: too large; counterexample: calldata=0x8f1c args=[115792089237316195423570985 [1.157e26]]] testFuzz_BoundedIsAlwaysSmall(uint256) (runs: 0, μ: 0, ~: 0)
[FAIL: EvmError: Revert] testPlainRevert() (gas: 2951)
[FAIL: assertion failed] test_snake_case_name_fails() (gas: 3055)

Encountered a total of 7 failing tests, 4 tests succeeded
"#;

const CARGO_GREEN: &str = r#"   Compiling shapes v0.1.0 (/tmp/shapes)
    Finished `test` profile [unoptimized + debuginfo] target(s) in 0.31s
     Running unittests src/lib.rs (target/debug/deps/shapes-5f1c9a0d)

running 1 test
test tests::unit_passes ... ok

test result: ok. 1 passed; 0 failed; 0 ignored; 0 measured; 1 filtered out; finished in 0.00s

     Running tests/integration.rs (target/debug/deps/integration-20bb81ce)

running 0 tests

test result: ok. 0 passed; 0 failed; 0 ignored; 0 measured; 2 filtered out; finished in 0.00s

   Doc-tests shapes

running 0 tests

test result: ok. 0 passed; 0 failed; 0 ignored; 0 measured; 1 filtered out; finished in 0.00s
"#;

const CARGO_RED: &str = r#"   Compiling shapes v0.1.0 (/tmp/shapes)
    Finished `test` profile [unoptimized + debuginfo] target(s) in 0.31s
     Running unittests src/lib.rs (target/debug/deps/shapes-5f1c9a0d)

running 2 tests
test tests::unit_fails_multiline ... FAILED
test tests::unit_passes ... ok

failures:

---- tests::unit_fails_multiline stdout ----

thread 'tests::unit_fails_multiline' panicked at src/lib.rs:14:9:
assertion `left == right` failed: first line
second line
  left: 1
 right: 2
note: run with `RUST_BACKTRACE=1` environment variable to display a backtrace


failures:
    tests::unit_fails_multiline

test result: FAILED. 1 passed; 1 failed; 0 ignored; 0 measured; 0 filtered out; finished in 0.00s

error: test failed, to rerun pass `--lib`
     Running tests/integration.rs (target/debug/deps/integration-20bb81ce)

running 2 tests
test integration_fails ... FAILED
test integration_passes ... ok

failures:

---- integration_fails stdout ----

thread 'integration_fails' panicked at tests/integration.rs:8:5:
assertion failed: false


failures:
    integration_fails

test result: FAILED. 1 passed; 1 failed; 0 ignored; 0 measured; 0 filtered out; finished in 0.00s

error: test failed, to rerun pass `--test integration`
   Doc-tests shapes

running 1 test
test src/lib.rs - two (line 2) ... ok

test result: ok. 1 passed; 0 failed; 0 ignored; 0 measured; 0 filtered out; finished in 0.21s

error: 2 targets failed:
    `--lib`
    `--test integration`
"#;

/// Every failure in both red forge outputs, in the order in which forge first
/// prints them.
const FORGE_KILLERS: &[&str] = &[
    "testGeneratedSourceMatchesSnapshot", // message over several lines
    "testSingleLineFailure",
    "testCustomErrorRevertIsUncaught",
    "testFuzz_BoundedIsAlwaysSmall", // counterexample with `]` inside the message
    "testPlainRevert",
    "test_snake_case_name_fails", // snake_case, not just `test\w+`
    "invariant_NeverIncrements",  // name on its own line, after a [Sequence] block
];

fn pattern(source: &str) -> Pattern {
    Pattern::new(source).expect("pattern compiles")
}

fn shipped(name: &str) -> (Pattern, Pattern) {
    let h = harness_named(name).expect("shipped harness");
    (pattern(h.proof), pattern(h.fail_pattern))
}

fn suite_config(toml_body: &str) -> SuiteConfig {
    let text = format!("[suite]\nroot = \".\"\ncommand = [\"sh\"]\n{toml_body}\n");
    let parsed: toml::Table = toml::from_str(&text).expect("config parses");
    let suite = parsed["suite"].as_table().expect("a table");
    let given = |key: &str| {
        suite
            .get(key)
            .map(|v| v.as_str().expect("a string").to_string())
    };
    SuiteConfig {
        root: given("root").expect("a root"),
        command: suite["command"]
            .as_array()
            .expect("an argv")
            .iter()
            .map(|v| v.as_str().expect("a string").to_string())
            .collect(),
        harness: given("harness"),
        proof: given("proof"),
        fail_pattern: given("fail-pattern"),
        timeout_secs: default_timeout(),
    }
}

fn mutant(name: &str) -> MutantConfig {
    MutantConfig {
        name: name.to_string(),
        file: "code.txt".to_string(),
        target: "a".to_string(),
        replacement: "b".to_string(),
    }
}

fn names_of(mutants: &[MutantConfig]) -> Vec<String> {
    mutants.iter().map(|m| m.name.clone()).collect()
}

#[test]
fn shipped_forge_proof_reads_forges_own_tally() {
    let (proof_pattern, _) = shipped("forge");
    // "4 tests passed, 7 failed" per forge's own run summary, reached by summing
    // the per-contract `Suite result:` lines, and not counted again off that
    // summary line, which is comma-shaped.
    for (output, label) in [(FORGE_RED, "layout"), (FORGE_OTHER_RED, "other layout")] {
        match classify_suite(output, false, &proof_pattern) {
            SuiteOutcome::Ran { passed, failed, .. } => {
                assert_eq!((passed, failed), (4, 7), "forge {label}");
            }
            other => panic!("forge {label}: expected Ran, got {other:?}"),
        }
    }
    match classify_suite(FORGE_GREEN, true, &proof_pattern) {
        SuiteOutcome::Ran { passed, failed, .. } => assert_eq!((passed, failed), (2, 0)),
        other => panic!("expected Ran, got {other:?}"),
    }
}

#[test]
fn shipped_forge_fail_pattern_names_every_failure_and_no_passing_test() {
    let (_, fp) = shipped("forge");
    for (output, label) in [(FORGE_RED, "layout"), (FORGE_OTHER_RED, "other layout")] {
        assert_eq!(
            captured_names(output, &fp),
            FORGE_KILLERS,
            "forge {label}: every failing test, once each: forge prints them twice, \
             and the run's own summary says 7"
        );
    }
    // The green run, which is nothing but [PASS] lines, yields none.
    assert!(captured_names(FORGE_GREEN, &fp).is_empty());
    assert!(fail_pattern_defect(FORGE_GREEN, &fp).is_none());
}

/// The output is written by hand in cargo's format.
#[test]
fn shipped_cargo_patterns_read_real_cargo_output() {
    let (proof_pattern, fp) = shipped("cargo");
    match classify_suite(CARGO_RED, false, &proof_pattern) {
        SuiteOutcome::Ran { passed, failed, .. } => {
            // lib 1+1, integration 1+1, doctest 1+0: the tallies sum across every
            // target, which is why one proof works for a cargo workspace.
            assert_eq!((passed, failed), (3, 2));
        }
        other => panic!("expected Ran, got {other:?}"),
    }
    assert_eq!(
        captured_names(CARGO_RED, &fp),
        vec!["tests::unit_fails_multiline", "integration_fails"]
    );
    match classify_suite(CARGO_GREEN, true, &proof_pattern) {
        SuiteOutcome::Ran { passed, failed, .. } => assert_eq!((passed, failed), (1, 0)),
        other => panic!("expected Ran, got {other:?}"),
    }
    assert!(fail_pattern_defect(CARGO_GREEN, &fp).is_none());
}

#[test]
fn a_doctests_name_has_spaces() {
    let (_, fp) = shipped("cargo");
    assert_eq!(
        captured_names("test src/lib.rs - two (line 2) ... FAILED\n", &fp),
        vec!["src/lib.rs - two (line 2)"]
    );
}

#[test]
fn the_incidents_wide_pattern_is_caught_by_the_green_baseline() {
    // It matches `[PASS] testFoo(` as readily as `[FAIL: ..] testFoo(`, and the
    // green baseline is where that is provable.
    let wide = pattern(r"\] (test\w+)\(");
    let defect = fail_pattern_defect(FORGE_GREEN, &wide).expect("must be rejected");
    assert!(defect.contains("testHeadGenesisIsNotZero"), "{defect}");
    assert!(defect.contains("testAppliedIsIdempotent"), "{defect}");
}

#[test]
fn the_s_flag_fixes_multiline_messages_and_then_misattributes_invariants() {
    // `.` stops at the newlines inside a message over several lines, so `.*?`
    // never reaches `]`.
    let narrow = pattern(r"\[FAIL.*?\] (test\w+)\(");
    assert!(!captured_names(FORGE_RED, &narrow)
        .iter()
        .any(|n| n == "testGeneratedSourceMatchesSnapshot"));
    let dotall = pattern(r"(?s)\[FAIL.*?\] (test\w+)\(");
    assert!(captured_names(FORGE_RED, &dotall)
        .iter()
        .any(|n| n == "testGeneratedSourceMatchesSnapshot"));

    // An invariant failure has no `] name(` of its own, so `(?s)` runs on past the
    // end of that entry and names a test that passed.
    let dotall_any = pattern(r"(?s)\[FAIL.*?\] (\w+)\(");
    for (output, label) in [(FORGE_RED, "layout"), (FORGE_OTHER_RED, "other layout")] {
        let names = captured_names(output, &dotall_any);
        assert!(
            !names.iter().any(|n| n == "invariant_NeverIncrements"),
            "forge {label}: (?s) drops the invariant: {names:?}"
        );
        assert!(
            names.iter().any(|n| n == "testCounterStartsAtZero"),
            "forge {label}: (?s) names a PASSING test: {names:?}"
        );
    }
    // The shipped pattern is line-anchored instead: all failures, no passers.
    let (_, fp) = shipped("forge");
    assert_eq!(captured_names(FORGE_OTHER_RED, &fp), FORGE_KILLERS);
}

#[test]
fn a_named_harness_supplies_both_patterns() {
    let (proof_source, fp) = resolve_patterns(&suite_config(r#"harness = "forge""#)).unwrap();
    let h = harness_named("forge").unwrap();
    assert_eq!(proof_source, h.proof);
    assert_eq!(fp.as_deref(), Some(h.fail_pattern));
}

#[test]
fn explicit_patterns_override_the_harness() {
    // A suite that wraps or reformats its harness's output must still be able to
    // say so.
    let cfg = suite_config(
        "harness = \"forge\"\nproof = '(\\d+) ok (\\d+) bad'\nfail-pattern = 'X(\\w+)'",
    );
    let (proof_source, fp) = resolve_patterns(&cfg).unwrap();
    assert_eq!(proof_source, r"(\d+) ok (\d+) bad");
    assert_eq!(fp.as_deref(), Some(r"X(\w+)"));
}

#[test]
fn one_explicit_pattern_leaves_the_other_to_the_harness() {
    let h = harness_named("cargo").unwrap();
    let (proof_source, fp) =
        resolve_patterns(&suite_config("harness = \"cargo\"\nfail-pattern = 'X(\\w+)'")).unwrap();
    assert_eq!(proof_source, h.proof);
    assert_eq!(fp.as_deref(), Some(r"X(\w+)"));
    let (proof_source, fp) =
        resolve_patterns(&suite_config("harness = \"cargo\"\nproof = '(a)(b)'")).unwrap();
    assert_eq!(proof_source, "(a)(b)");
    assert_eq!(fp.as_deref(), Some(h.fail_pattern));
}

#[test]
fn an_unknown_harness_names_the_ones_that_exist() {
    let err = resolve_patterns(&suite_config(r#"harness = "jest""#)).unwrap_err();
    assert!(err.contains("jest"), "{err}");
    assert!(err.contains("forge") && err.contains("cargo"), "{err}");
    assert_eq!(
        err,
        "suite.harness \"jest\" is not one this build ships (have: forge, cargo) — drop it and \
         write suite.proof yourself, or add the harness"
    );
    assert_eq!(harness_names(), "forge, cargo");
    assert!(harness_named("Forge").is_none());
}

#[test]
fn without_a_harness_proof_is_still_required() {
    let err = resolve_patterns(&suite_config("")).unwrap_err();
    assert!(err.contains("suite.proof"), "{err}");
    // A hand-written proof alone is enough, with no killer attribution.
    let (proof_source, fp) = resolve_patterns(&suite_config(r"proof = '(\d+)/(\d+)'")).unwrap();
    assert_eq!(proof_source, r"(\d+)/(\d+)");
    assert_eq!(fp, None);
}

#[test]
fn every_shipped_pattern_compiles_with_the_groups_the_probe_reads() {
    for h in harnesses() {
        let proof_pattern = Pattern::new(h.proof)
            .unwrap_or_else(|e| panic!("{}: proof does not compile: {e}", h.name));
        assert!(
            proof_pattern.groups() >= 3,
            "{}: proof needs (passed) and (failed)",
            h.name
        );
        let fp = Pattern::new(h.fail_pattern)
            .unwrap_or_else(|e| panic!("{}: fail-pattern does not compile: {e}", h.name));
        assert_eq!(
            fp.groups(),
            2,
            "{}: fail-pattern needs exactly one group: the probe reads group 1, so a \
             second group would be silently ignored",
            h.name
        );
    }
}

#[test]
fn a_pattern_lists_the_groups_of_every_match() {
    let p = pattern(r"(a)|(b)c");
    assert_eq!(p.groups(), 3);
    let some = |s: &str| Some(s.to_string());
    assert_eq!(
        p.matches("xa bc a"),
        vec![
            vec![some("a"), some("a"), None],
            vec![some("bc"), None, some("b")],
            vec![some("a"), some("a"), None],
        ]
    );
    assert!(p.matches("nothing").is_empty());
    assert_eq!(pattern("").matches("ab").len(), 3);
}

#[test]
fn patterns_are_refused_at_load() {
    let refused = |body: &str| match compile_patterns(&suite_config(body)) {
        Ok(_) => panic!("{body} must be refused"),
        Err(message) => message,
    };
    assert_eq!(
        refused(""),
        "suite.proof is required unless suite.harness supplies it"
    );
    let err = refused("proof = '(('");
    assert!(
        err.starts_with("suite.proof is not a valid regex: regex parse error"),
        "{err}"
    );
    assert_eq!(
        err,
        format!(
            "suite.proof is not a valid regex: {}",
            regex::Regex::new("((").unwrap_err()
        )
    );
    assert_eq!(
        refused(r"proof = '(\d+) passed'"),
        "suite.proof needs two capture groups: (passed) and (failed)"
    );
    let err = refused("proof = '(a)(b)'\nfail-pattern = '['");
    assert_eq!(
        err,
        format!(
            "suite.fail-pattern is not a valid regex: {}",
            regex::Regex::new("[").unwrap_err()
        )
    );
    assert_eq!(
        refused("proof = '(a)(b)'\nfail-pattern = 'FAILED'"),
        "suite.fail-pattern needs one capture group: the failing test's name"
    );
    // The proof is looked at first.
    assert_eq!(
        refused("proof = 'x'\nfail-pattern = 'y'"),
        "suite.proof needs two capture groups: (passed) and (failed)"
    );
    let both = compile_patterns(&suite_config(r#"harness = "cargo""#)).unwrap_or_else(|e| {
        panic!("{e}");
    });
    assert_eq!(both.proof.groups(), 3);
    assert_eq!(both.fail_pattern.unwrap().groups(), 2);
}

#[test]
fn attempts_are_judged_by_their_groups() {
    assert_eq!(check_proof(&Ok(3)), None);
    assert_eq!(check_proof(&Ok(7)), None);
    assert_eq!(
        check_proof(&Ok(2)).unwrap(),
        "suite.proof needs two capture groups: (passed) and (failed)"
    );
    assert_eq!(
        check_proof(&Err("why".to_string())).unwrap(),
        "suite.proof is not a valid regex: why"
    );
    assert_eq!(check_fail_pattern(&Ok(2)), None);
    assert_eq!(
        check_fail_pattern(&Ok(1)).unwrap(),
        "suite.fail-pattern needs one capture group: the failing test's name"
    );
    assert_eq!(
        check_fail_pattern(&Err("why".to_string())).unwrap(),
        "suite.fail-pattern is not a valid regex: why"
    );
}

#[test]
fn a_filter_selects_by_substring_in_order() {
    let all = vec![mutant("M07 guard"), mutant("M1 cap"), mutant("M070 guard")];
    let only = |part: &str| Some(part.to_string());
    let select = |o: &Option<String>| {
        select_mutants(&all, o).map(|selected| names_of(&selected))
    };
    assert_eq!(
        select(&None).unwrap(),
        vec!["M07 guard", "M1 cap", "M070 guard"]
    );
    assert_eq!(
        select(&only("M07")).unwrap(),
        vec!["M07 guard", "M070 guard"]
    );
    assert_eq!(select(&only("M070")).unwrap(), vec!["M070 guard"]);
    assert_eq!(select(&only("")).unwrap().len(), 3);
    assert_eq!(
        select(&only("absent")).unwrap_err(),
        "--only matched no mutant"
    );
    assert_eq!(
        select_mutants(&Vec::new(), &None).map(|s| names_of(&s)).unwrap_err(),
        "no [[mutants]] in the config"
    );
    assert_eq!(
        select_mutants(&Vec::new(), &only("x")).map(|s| names_of(&s)).unwrap_err(),
        "--only matched no mutant"
    );
}

#[test]
fn a_command_is_a_program_and_its_arguments() {
    let argv = |parts: &[&str]| parts.iter().map(|p| p.to_string()).collect::<Vec<String>>();
    assert_eq!(
        split_command(&argv(&["sh", "suite.sh", "-x"])).unwrap(),
        ("sh".to_string(), argv(&["suite.sh", "-x"]))
    );
    assert_eq!(
        split_command(&argv(&["sh"])).unwrap(),
        ("sh".to_string(), argv(&[]))
    );
    assert_eq!(
        split_command(&argv(&[])).unwrap_err(),
        "suite.command is empty"
    );
}

#[test]
fn a_run_may_take_half_an_hour() {
    assert_eq!(default_timeout(), 1800);
}
