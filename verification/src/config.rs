//! What a campaign is told to do: the suite, the patterns that scrape its
//! output, and the mutants.

use crate::pattern::{compiled, group_count, refusal_text, Pattern};
use crate::text::{
    contains_text, debug_quoted, has_part, join_first, joined,
    law_containing_text_splits_around_its_part, lemma_part_is_contained, occurs_at, quoted,
    same_text,
};
use crate::views::group_deep_views;
use vstd::prelude::*;
use vstd::string::*;

verus! {

broadcast use group_deep_views;

/// The suite to run and how to read it.
pub struct SuiteConfig {
    /// Target repo root the suite runs in, resolved relative to the mutants file.
    pub root: String,
    /// The suite as argv, without a shell. Regenerating artifacts belongs here:
    /// the probe runs exactly one command per verdict.
    pub command: Vec<String>,
    /// A shipped harness whose patterns are used where none is given.
    pub harness: Option<String>,
    /// Proof-of-run pattern: two capture groups, passed and failed.
    pub proof: Option<String>,
    /// One capture group that extracts a failing test's name.
    pub fail_pattern: Option<String>,
    /// Wall clock limit of one run, in seconds.
    pub timeout_secs: u64,
}

/// One mutant: an exact-string replacement in one file.
pub struct MutantConfig {
    pub name: String,
    /// File the mutant applies to, relative to the suite's root.
    pub file: String,
    /// Must occur exactly once in the file.
    pub target: String,
    pub replacement: String,
}

/// A mutant's texts.
pub struct MutantView {
    pub name: Seq<char>,
    pub file: Seq<char>,
    pub target: Seq<char>,
    pub replacement: Seq<char>,
}

impl View for MutantConfig {
    type V = MutantView;

    open spec fn view(&self) -> MutantView {
        MutantView {
            name: self.name@,
            file: self.file@,
            target: self.target@,
            replacement: self.replacement@,
        }
    }
}

impl DeepView for MutantConfig {
    type V = MutantView;

    open spec fn deep_view(&self) -> MutantView {
        self@
    }
}

/// A mutant is seen as it stands: each of its texts is its own.
pub proof fn law_a_mutant_is_seen_as_it_stands(mutant: MutantConfig)
    ensures
        mutant@.name == mutant.name@,
        mutant@.file == mutant.file@,
        mutant@.target == mutant.target@,
        mutant@.replacement == mutant.replacement@,
        mutant.deep_view() == mutant@,
{
}

impl MutantConfig {
    /// A second copy of the mutant.
    pub fn duplicate(&self) -> (r: MutantConfig)
        ensures
            r@ == self@,
    {
        MutantConfig {
            name: self.name.clone(),
            file: self.file.clone(),
            target: self.target.clone(),
            replacement: self.replacement.clone(),
        }
    }
}

/// The wall clock limit where the configuration gives none: half an hour.
pub fn default_timeout() -> (r: u64)
    ensures
        r == 1800,
{
    1800
}

// ------------------------------------------------------------- harnesses ----
/// A harness's own output format, scraped once here instead of per campaign.
#[derive(Clone, Copy, Debug)]
pub struct Harness {
    pub name: &'static str,
    pub proof: &'static str,
    pub fail_pattern: &'static str,
}

/// A harness's texts.
pub struct HarnessView {
    pub name: Seq<char>,
    pub proof: Seq<char>,
    pub fail_pattern: Seq<char>,
}

impl View for Harness {
    type V = HarnessView;

    open spec fn view(&self) -> HarnessView {
        HarnessView { name: self.name@, proof: self.proof@, fail_pattern: self.fail_pattern@ }
    }
}

impl DeepView for Harness {
    type V = HarnessView;

    open spec fn deep_view(&self) -> HarnessView {
        self@
    }
}

/// A harness is seen as it stands: each of its texts is its own.
pub proof fn law_a_harness_is_seen_as_it_stands(harness: Harness)
    ensures
        harness@.name == harness.name@,
        harness@.proof == harness.proof@,
        harness@.fail_pattern == harness.fail_pattern@,
        harness.deep_view() == harness@,
{
}

/// Forge prints one result line per test contract, and the proof sums them; the
/// comma-shaped line at the end of a run is not matched again. A failing
/// entry's name follows `] ` on the entry's own line or on the last line of its
/// message, or one space after an invariant's call sequence. A `[PASS]` or
/// `[SKIP]` line reaches none of those.
pub open spec fn forge() -> HarnessView {
    HarnessView {
        name: "forge"@,
        proof: r"(?m)^Suite result: \w+\. (\d+) passed; (\d+) failed;"@,
        fail_pattern:
            r"(?m)^(?:(?:(?:\[FAIL|[^\[\n])[^\n]*?)?\] | )(\w+)\([^\n]*\) \((?:gas|runs):"@,
    }
}

/// Cargo prints one result line per test binary and per doctest run. A
/// doctest's name has spaces in it, so the name runs to the end of the line.
pub open spec fn cargo() -> HarnessView {
    HarnessView {
        name: "cargo"@,
        proof: r"(?m)^test result: \w+\. (\d+) passed; (\d+) failed;"@,
        fail_pattern: r"(?m)^test (.+) \.\.\. FAILED$"@,
    }
}

/// The harness of that name, if it is shipped.
pub open spec fn shipped(name: Seq<char>) -> Option<HarnessView> {
    if name == "forge"@ {
        Some(forge())
    } else if name == "cargo"@ {
        Some(cargo())
    } else {
        None
    }
}

/// Every shipped harness.
pub fn harnesses() -> (r: Vec<Harness>)
    ensures
        r.deep_view() == seq![forge(), cargo()],
{
    let mut all: Vec<Harness> = Vec::new();
    all.push(
        Harness {
            name: "forge",
            proof: r"(?m)^Suite result: \w+\. (\d+) passed; (\d+) failed;",
            fail_pattern:
                r"(?m)^(?:(?:(?:\[FAIL|[^\[\n])[^\n]*?)?\] | )(\w+)\([^\n]*\) \((?:gas|runs):",
        },
    );
    all.push(
        Harness {
            name: "cargo",
            proof: r"(?m)^test result: \w+\. (\d+) passed; (\d+) failed;",
            fail_pattern: r"(?m)^test (.+) \.\.\. FAILED$",
        },
    );
    assert(all.deep_view() =~= seq![forge(), cargo()]);
    all
}

/// The shipped harness of that name.
pub fn harness_named(name: &str) -> (r: Option<Harness>)
    ensures
        match r {
            Some(harness) => shipped(name@) == Some(harness@),
            None => shipped(name@) is None,
        },
{
    let all = harnesses();
    assert(all.deep_view()[0] == forge() && all.deep_view()[1] == cargo());
    if same_text(name, all[0].name) {
        return Some(all[0]);
    }
    if same_text(name, all[1].name) {
        return Some(all[1]);
    }
    None
}

/// The names of the shipped harnesses, for a message.
pub open spec fn shipped_names() -> Seq<char> {
    joined(seq!["forge"@, "cargo"@], ", "@)
}

/// Lists the names of the shipped harnesses.
pub fn harness_names() -> (r: String)
    ensures
        r@ == shipped_names(),
{
    let all = harnesses();
    let mut names: Vec<String> = Vec::new();
    for i in 0..all.len()
        invariant
            all.deep_view() == seq![forge(), cargo()],
            names.deep_view() == seq!["forge"@, "cargo"@].take(i as int),
    {
        assert(all.deep_view()[i as int] == all@[i as int]@);
        names.push(all[i].name.to_string());
    }
    assert(names.deep_view().take(names@.len() as int) == seq!["forge"@, "cargo"@]);
    join_first(&names, names.len(), ", ")
}

// -------------------------------------------------------------- patterns ----
/// The proof and fail patterns that a suite configuration resolves to, or why
/// it resolves to none. What is given outright wins over the harness.
pub open spec fn resolved(cfg: SuiteConfig) -> Result<(Seq<char>, Option<Seq<char>>), Seq<char>> {
    let harness = match cfg.harness {
        Some(name) => shipped(name@),
        None => None,
    };
    if cfg.harness is Some && harness is None {
        Err(
            "suite.harness "@ + debug_quoted(cfg.harness->0@)
                + " is not one this build ships (have: "@ + shipped_names()
                + ") — drop it and write suite.proof yourself, or add the harness"@,
        )
    } else if cfg.proof is None && harness is None {
        Err("suite.proof is required unless suite.harness supplies it"@)
    } else {
        Ok(
            (
                match cfg.proof {
                    Some(proof) => proof@,
                    None => harness->0.proof,
                },
                match cfg.fail_pattern {
                    Some(fail_pattern) => Some(fail_pattern@),
                    None => match harness {
                        Some(h) => Some(h.fail_pattern),
                        None => None,
                    },
                },
            ),
        )
    }
}

/// A pattern that is given outright is used as given, whatever the harness; a
/// named harness supplies what is not given.
pub proof fn law_given_patterns_win(cfg: SuiteConfig)
    requires
        resolved(cfg) is Ok,
    ensures
        cfg.proof matches Some(proof) ==> resolved(cfg)->Ok_0.0 == proof@,
        cfg.fail_pattern matches Some(pattern) ==> resolved(cfg)->Ok_0.1 == Some(pattern@),
        cfg.proof is None ==> cfg.harness is Some && resolved(cfg)->Ok_0.0 == shipped(
            cfg.harness->0@,
        )->0.proof,
        cfg.fail_pattern is None && cfg.harness is Some ==> resolved(cfg)->Ok_0.1 == Some(
            shipped(cfg.harness->0@)->0.fail_pattern,
        ),
{
}

/// A configuration resolves exactly where its harness, if it names one, is shipped
/// and a proof pattern is given or supplied. It resolves to no fail pattern exactly
/// where none is given and no harness is named.
pub proof fn law_a_configuration_resolves_where_a_proof_is_known(cfg: SuiteConfig)
    ensures
        resolved(cfg) is Ok <==> (cfg.harness matches Some(name) ==> name@ == "forge"@ || name@
            == "cargo"@) && (cfg.proof is Some || cfg.harness is Some),
        resolved(cfg) matches Ok((proof, fail_pattern)) ==> {
            &&& fail_pattern is None <==> cfg.fail_pattern is None && cfg.harness is None
            &&& cfg.proof matches Some(given) ==> proof == given@
            &&& cfg.fail_pattern matches Some(given) ==> fail_pattern == Some(given@)
            &&& cfg.proof is None && cfg.harness->0@ == "forge"@ ==> proof == forge().proof
            &&& cfg.proof is None && cfg.harness->0@ == "cargo"@ ==> proof == cargo().proof
            &&& cfg.fail_pattern is None && cfg.harness is Some && cfg.harness->0@ == "forge"@
                ==> fail_pattern == Some(forge().fail_pattern)
            &&& cfg.fail_pattern is None && cfg.harness is Some && cfg.harness->0@ == "cargo"@
                ==> fail_pattern == Some(cargo().fail_pattern)
        },
        resolved(cfg) matches Err(message) ==> {
            &&& cfg.harness is None ==> message
                == "suite.proof is required unless suite.harness supplies it"@
            &&& cfg.harness matches Some(name) ==> contains_text(message, debug_quoted(name@))
                && contains_text(message, "forge, cargo"@) && message == "suite.harness "@
                + debug_quoted(name@) + " is not one this build ships (have: "@ + "forge, cargo"@
                + ") — drop it and write suite.proof yourself, or add the harness"@
        },
{
    lemma_harness_names_differ();
    if let Some(name) = cfg.harness {
        if resolved(cfg) is Err {
            let message = resolved(cfg)->Err_0;
            let listed = " is not one this build ships (have: "@ + shipped_names()
                + ") — drop it and write suite.proof yourself, or add the harness"@;
            assert(message =~= "suite.harness "@ + debug_quoted(name@) + listed);
            lemma_part_is_contained("suite.harness "@, debug_quoted(name@), listed);
            lemma_part_is_contained(
                "suite.harness "@ + debug_quoted(name@) + " is not one this build ships (have: "@,
                shipped_names(),
                ") — drop it and write suite.proof yourself, or add the harness"@,
            );
        }
    }
}

proof fn lemma_harness_names_differ()
    ensures
        "forge"@ != "cargo"@,
        shipped_names() == "forge, cargo"@,
{
    reveal_strlit("forge");
    reveal_strlit("cargo");
    reveal_strlit(", ");
    reveal_strlit("forge, cargo");
    reveal_with_fuel(joined, 3);
    assert("forge"@[0] == 'f' && "cargo"@[0] == 'c');
    let names = seq!["forge"@, "cargo"@];
    assert(names.drop_last() =~= seq!["forge"@]);
    assert(shipped_names() =~= "forge, cargo"@);
}

/// A harness is found by its own name, and by no other, and supplies the patterns of
/// that harness.
pub proof fn law_a_harness_is_found_by_its_own_name(name: Seq<char>)
    ensures
        shipped(name) is Some <==> name == "forge"@ || name == "cargo"@,
        shipped(name) matches Some(harness) ==> harness.name == name,
        name == "forge"@ ==> shipped(name)->0.proof
            == r"(?m)^Suite result: \w+\. (\d+) passed; (\d+) failed;"@ && shipped(
            name,
        )->0.fail_pattern
            == r"(?m)^(?:(?:(?:\[FAIL|[^\[\n])[^\n]*?)?\] | )(\w+)\([^\n]*\) \((?:gas|runs):"@,
        name == "cargo"@ ==> shipped(name)->0.proof
            == r"(?m)^test result: \w+\. (\d+) passed; (\d+) failed;"@ && shipped(
            name,
        )->0.fail_pattern == r"(?m)^test (.+) \.\.\. FAILED$"@,
{
    lemma_harness_names_differ();
}

/// Resolves the two patterns of a suite.
pub fn resolve_patterns(cfg: &SuiteConfig) -> (r: Result<(String, Option<String>), String>)
    ensures
        match r {
            Ok((proof, fail_pattern)) => resolved(*cfg) == Ok::<
                (Seq<char>, Option<Seq<char>>),
                Seq<char>,
            >((proof@, fail_pattern.deep_view())),
            Err(message) => resolved(*cfg) == Err::<(Seq<char>, Option<Seq<char>>), Seq<char>>(
                message@,
            ),
        },
{
    let harness: Option<Harness> = match &cfg.harness {
        None => None,
        Some(name) => match harness_named(name.as_str()) {
            Some(h) => Some(h),
            None => {
                let mut message = "suite.harness ".to_string();
                message.append(quoted(name.as_str()).as_str());
                message.append(" is not one this build ships (have: ");
                message.append(harness_names().as_str());
                message.append(
                    ") — drop it and write suite.proof yourself, or add the harness",
                );
                return Err(message);
            },
        },
    };
    let proof: String = match (&cfg.proof, &harness) {
        (Some(given), _) => given.clone(),
        (None, Some(h)) => h.proof.to_string(),
        (None, None) => {
            return Err("suite.proof is required unless suite.harness supplies it".to_string());
        },
    };
    let fail_pattern: Option<String> = match (&cfg.fail_pattern, &harness) {
        (Some(given), _) => Some(given.clone()),
        (None, Some(h)) => Some(h.fail_pattern.to_string()),
        (None, None) => None,
    };
    Ok((proof, fail_pattern))
}

/// The patterns of a suite, compiled and checked for the groups that are read.
pub struct Patterns {
    pub proof: Pattern,
    pub fail_pattern: Option<Pattern>,
}

/// A pattern tried out: its number of groups, the whole match counted as one,
/// or the text with which it was refused.
pub open spec fn tried(source: Seq<char>) -> Result<nat, Seq<char>> {
    if compiled(source) is Ok {
        Ok(group_count(source))
    } else {
        Err(refusal_text(source))
    }
}

/// What is wrong with a proof pattern, if anything is.
pub open spec fn proof_complaint(attempt: Result<nat, Seq<char>>) -> Option<Seq<char>> {
    match attempt {
        Err(message) => Some("suite.proof is not a valid regex: "@ + message),
        Ok(groups) => if groups < 3 {
            Some("suite.proof needs two capture groups: (passed) and (failed)"@)
        } else {
            None
        },
    }
}

/// What is wrong with a fail pattern, if anything is.
pub open spec fn fail_pattern_complaint(attempt: Result<nat, Seq<char>>) -> Option<Seq<char>> {
    match attempt {
        Err(message) => Some("suite.fail-pattern is not a valid regex: "@ + message),
        Ok(groups) => if groups < 2 {
            Some("suite.fail-pattern needs one capture group: the failing test's name"@)
        } else {
            None
        },
    }
}

/// An attempt to compile a pattern, by its texts.
pub open spec fn attempt_view(attempt: Result<usize, String>) -> Result<nat, Seq<char>> {
    match attempt {
        Ok(groups) => Ok(groups as nat),
        Err(message) => Err(message@),
    }
}

/// Judges the attempt to compile a proof pattern. One with fewer than two
/// capture groups can never prove a run.
pub fn check_proof(attempt: &Result<usize, String>) -> (r: Option<String>)
    ensures
        r.deep_view() == proof_complaint(attempt_view(*attempt)),
{
    match attempt {
        Err(message) => {
            let mut complaint = "suite.proof is not a valid regex: ".to_string();
            complaint.append(message.as_str());
            Some(complaint)
        },
        Ok(groups) => if *groups < 3 {
            Some("suite.proof needs two capture groups: (passed) and (failed)".to_string())
        } else {
            None
        },
    }
}

/// Judges the attempt to compile a fail pattern.
pub fn check_fail_pattern(attempt: &Result<usize, String>) -> (r: Option<String>)
    ensures
        r.deep_view() == fail_pattern_complaint(attempt_view(*attempt)),
{
    match attempt {
        Err(message) => {
            let mut complaint = "suite.fail-pattern is not a valid regex: ".to_string();
            complaint.append(message.as_str());
            Some(complaint)
        },
        Ok(groups) => if *groups < 2 {
            Some("suite.fail-pattern needs one capture group: the failing test's name".to_string())
        } else {
            None
        },
    }
}

/// The patterns that a suite configuration ends up with, or the first thing
/// that is wrong with it.
pub open spec fn configured(cfg: SuiteConfig) -> Result<
    (Seq<char>, Option<Seq<char>>),
    Seq<char>,
> {
    match resolved(cfg) {
        Err(message) => Err(message),
        Ok((proof, fail_pattern)) => match proof_complaint(tried(proof)) {
            Some(complaint) => Err(complaint),
            None => match fail_pattern {
                None => Ok((proof, None)),
                Some(source) => match fail_pattern_complaint(tried(source)) {
                    Some(complaint) => Err(complaint),
                    None => Ok((proof, Some(source))),
                },
            },
        },
    }
}

/// Where a configuration is accepted, its patterns are exactly the two that it
/// resolves to. It is accepted exactly where it resolves, the proof compiles with at
/// least two capture groups, and the fail pattern, where there is one, compiles with
/// at least one.
pub proof fn law_accepted_patterns_are_the_resolved_ones(cfg: SuiteConfig)
    ensures
        configured(cfg) is Ok ==> configured(cfg) == resolved(cfg),
        resolved(cfg) is Err ==> configured(cfg) == resolved(cfg),
        resolved(cfg) matches Ok((proof, fail_pattern)) ==> {
            let proof_serves = compiled(proof) is Ok && group_count(proof) >= 3;
            let fail_pattern_serves = fail_pattern matches Some(source) ==> compiled(source) is Ok
                && group_count(source) >= 2;
            &&& configured(cfg) is Ok <==> proof_serves && fail_pattern_serves
        },
{
}

/// A fail pattern that is given outright is the one in use where the configuration is
/// accepted, and so is a proof; there is no fail pattern exactly where none is given
/// and no harness is named.
pub proof fn law_a_given_pattern_is_the_one_in_use(cfg: SuiteConfig)
    requires
        configured(cfg) is Ok,
    ensures
        cfg.proof matches Some(given) ==> configured(cfg)->Ok_0.0 == given@,
        cfg.fail_pattern matches Some(given) ==> configured(cfg)->Ok_0.1 == Some(given@),
        configured(cfg)->Ok_0.1 is None <==> cfg.fail_pattern is None && cfg.harness is None,
{
    law_accepted_patterns_are_the_resolved_ones(cfg);
    law_a_configuration_resolves_where_a_proof_is_known(cfg);
}

/// What is wrong with patterns is told of the first that is wrong: why it does not
/// compile, or which groups it lacks. The proof comes before the fail pattern.
pub proof fn law_refused_patterns_are_told_by_their_fault(cfg: SuiteConfig)
    requires
        resolved(cfg) is Ok,
        configured(cfg) is Err,
    ensures
        ({
            let (proof, fail_pattern) = resolved(cfg)->Ok_0;
            let told = configured(cfg)->Err_0;
            &&& compiled(proof) is Err ==> told == "suite.proof is not a valid regex: "@
                + refusal_text(proof)
            &&& compiled(proof) is Ok && group_count(proof) < 3 ==> told
                == "suite.proof needs two capture groups: (passed) and (failed)"@
            &&& compiled(proof) is Ok && group_count(proof) >= 3 ==> {
                &&& fail_pattern is Some
                &&& compiled(fail_pattern->0) is Err ==> told
                    == "suite.fail-pattern is not a valid regex: "@ + refusal_text(fail_pattern->0)
                &&& compiled(fail_pattern->0) is Ok ==> told
                    == "suite.fail-pattern needs one capture group: the failing test's name"@
            }
        }),
{
}

/// An attempt to compile is accepted by its number of groups alone: three for a proof
/// and two for a fail pattern, the whole match counted as one.
pub proof fn law_attempts_are_accepted_by_their_groups(
    groups: nat,
    message: Seq<char>,
    attempt: Result<usize, String>,
)
    ensures
        attempt matches Ok(n) ==> attempt_view(attempt) == Ok::<nat, Seq<char>>(n as nat),
        attempt matches Err(told) ==> attempt_view(attempt) == Err::<nat, Seq<char>>(told@),
        proof_complaint(Ok(groups)) is None <==> groups >= 3,
        fail_pattern_complaint(Ok(groups)) is None <==> groups >= 2,
        groups < 3 ==> proof_complaint(Ok(groups)) == Some(
            "suite.proof needs two capture groups: (passed) and (failed)"@,
        ),
        groups < 2 ==> fail_pattern_complaint(Ok(groups)) == Some(
            "suite.fail-pattern needs one capture group: the failing test's name"@,
        ),
        proof_complaint(Err(message)) == Some("suite.proof is not a valid regex: "@ + message),
        fail_pattern_complaint(Err(message)) == Some(
            "suite.fail-pattern is not a valid regex: "@ + message,
        ),
{
}

/// Compiles a pattern and counts its groups.
fn try_pattern(source: &str) -> (r: (Option<Pattern>, Result<usize, String>))
    ensures
        attempt_view(r.1) == tried(source@),
        match r.0 {
            Some(p) => p@ == source@ && compiled(source@) is Ok,
            None => compiled(source@) is Err,
        },
{
    match Pattern::new(source) {
        Ok(p) => {
            let groups: usize = p.groups();
            (Some(p), Ok(groups))
        },
        Err(message) => (None, Err(message)),
    }
}

/// Resolves, compiles and checks the patterns of a suite.
pub fn compile_patterns(cfg: &SuiteConfig) -> (r: Result<Patterns, String>)
    ensures
        match r {
            Ok(patterns) => configured(*cfg) == Ok::<(Seq<char>, Option<Seq<char>>), Seq<char>>(
                (patterns.proof@, patterns.fail_pattern.deep_view()),
            ),
            Err(message) => configured(*cfg) == Err::<(Seq<char>, Option<Seq<char>>), Seq<char>>(
                message@,
            ),
        },
{
    let (proof_source, fail_source) = match resolve_patterns(cfg) {
        Ok(sources) => sources,
        Err(message) => {
            return Err(message);
        },
    };
    let (proof, attempt) = try_pattern(proof_source.as_str());
    if let Some(complaint) = check_proof(&attempt) {
        return Err(complaint);
    }
    let fail_pattern: Option<Pattern> = match fail_source {
        None => None,
        Some(source) => {
            let (pattern, attempt) = try_pattern(source.as_str());
            if let Some(complaint) = check_fail_pattern(&attempt) {
                return Err(complaint);
            }
            pattern
        },
    };
    Ok(Patterns { proof: proof.unwrap(), fail_pattern })
}

// --------------------------------------------------------------- mutants ----
/// Whether a mutant is probed under a name filter.
pub open spec fn is_selected(mutant: MutantView, only: Option<Seq<char>>) -> bool {
    match only {
        None => true,
        Some(part) => contains_text(mutant.name, part),
    }
}

/// The mutants that a pass probes: those whose name contains the filter, in
/// the order of the configuration.
pub open spec fn selection(mutants: Seq<MutantView>, only: Option<Seq<char>>) -> Seq<MutantView> {
    mutants.filter(|m: MutantView| is_selected(m, only))
}

/// Mutants are selected one by one and in order: each exactly where there is no
/// filter or its name is some text, the filter and some text.
pub proof fn law_mutants_are_selected_by_name_in_order(
    some: Seq<MutantView>,
    mutant: MutantView,
    part: Seq<char>,
)
    ensures
        selection(Seq::empty(), Some(part)) == Seq::<MutantView>::empty(),
        selection(some.push(mutant), None) == selection(some, None).push(mutant),
        (exists|before: Seq<char>, after: Seq<char>|
            mutant.name == #[trigger] (before + part + after)) ==> selection(
            some.push(mutant),
            Some(part),
        ) == selection(some, Some(part)).push(mutant),
        (forall|before: Seq<char>, after: Seq<char>|
            mutant.name != #[trigger] (before + part + after)) ==> selection(
            some.push(mutant),
            Some(part),
        ) == selection(some, Some(part)),
{
    reveal(Seq::filter);
    law_containing_text_splits_around_its_part(mutant.name, part);
    assert(some.push(mutant).drop_last() =~= some);
}

proof fn lemma_broader_filter_keeps(mutant: MutantView, broad: Seq<char>, narrow: Seq<char>)
    requires
        contains_text(narrow, broad),
        is_selected(mutant, Some(narrow)),
    ensures
        is_selected(mutant, Some(broad)),
{
    let i = choose|i: int| occurs_at(narrow, broad, i);
    let j = choose|j: int| occurs_at(mutant.name, narrow, j);
    let found = mutant.name.subrange(j, j + narrow.len());
    assert(found == narrow);
    assert(mutant.name.subrange(j + i, j + i + broad.len()) =~= found.subrange(
        i,
        i + broad.len(),
    ));
    assert(occurs_at(mutant.name, broad, j + i));
}

/// A filter that is part of another selects at least what the other selects: a
/// broad filter only adds mutants, and with them verdicts, and no filter leaves
/// none out.
pub proof fn law_broader_filter_selects_more(
    mutants: Seq<MutantView>,
    broad: Seq<char>,
    narrow: Seq<char>,
)
    requires
        contains_text(narrow, broad),
    ensures
        selection(selection(mutants, Some(broad)), Some(narrow)) == selection(
            mutants,
            Some(narrow),
        ),
        selection(mutants, None) == mutants,
    decreases mutants.len(),
{
    reveal(Seq::filter);
    if mutants.len() > 0 {
        let fewer = mutants.drop_last();
        let last = mutants.last();
        law_broader_filter_selects_more(fewer, broad, narrow);
        if is_selected(last, Some(narrow)) {
            lemma_broader_filter_keeps(last, broad, narrow);
        }
        if is_selected(last, Some(broad)) {
            let broadly = selection(mutants, Some(broad));
            assert(broadly.drop_last() =~= selection(fewer, Some(broad)));
            assert(broadly.last() == last);
        }
        assert(mutants =~= fewer.push(last));
    }
}

/// Selects the mutants to probe. A selection that holds none is an error.
pub fn select_mutants(mutants: &Vec<MutantConfig>, only: &Option<String>) -> (r: Result<
    Vec<MutantConfig>,
    String,
>)
    ensures
        match r {
            Ok(selected) => selected.deep_view() == selection(mutants.deep_view(), only.deep_view())
                && selected@.len() > 0,
            Err(message) => selection(mutants.deep_view(), only.deep_view()).len() == 0
                && message@ == (if only is Some {
                "--only matched no mutant"@
            } else {
                "no [[mutants]] in the config"@
            }),
        },
{
    let ghost all = mutants.deep_view();
    let ghost keep = |m: MutantView| is_selected(m, only.deep_view());
    let mut selected: Vec<MutantConfig> = Vec::new();
    for i in 0..mutants.len()
        invariant
            all == mutants.deep_view(),
            keep == (|m: MutantView| is_selected(m, only.deep_view())),
            selected.deep_view() == all.take(i as int).filter(keep),
    {
        let kept = match only {
            None => true,
            Some(part) => has_part(mutants[i].name.as_str(), part.as_str()),
        };
        proof {
            reveal(Seq::filter);
            assert(all.take(i + 1).drop_last() == all.take(i as int));
            assert(all.take(i + 1).last() == mutants@[i as int]@);
            assert(kept == keep(mutants@[i as int]@));
        }
        if kept {
            selected.push(mutants[i].duplicate());
        }
    }
    assert(all.take(all.len() as int) == all);
    if selected.len() == 0 {
        return Err(
            if only.is_some() {
                "--only matched no mutant".to_string()
            } else {
                "no [[mutants]] in the config".to_string()
            },
        );
    }
    Ok(selected)
}

/// Splits a suite's argv into the program and its arguments.
pub fn split_command(command: &Vec<String>) -> (r: Result<(String, Vec<String>), String>)
    ensures
        match r {
            Ok((program, args)) => command@.len() > 0 && seq![program@] + args.deep_view()
                == command.deep_view(),
            Err(message) => command@.len() == 0 && message@ == "suite.command is empty"@,
        },
{
    if command.len() == 0 {
        return Err("suite.command is empty".to_string());
    }
    let mut args: Vec<String> = Vec::new();
    for i in 1..command.len()
        invariant
            1 <= command@.len(),
            args.deep_view() == command.deep_view().subrange(1, i as int),
    {
        args.push(command[i].clone());
    }
    Ok((command[0].clone(), args))
}

} // verus!
