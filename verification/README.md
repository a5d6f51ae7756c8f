# mutation-probe

Applies exact-string mutants to a repository one at a time, runs its test suite
on each, proves that the suite ran, and scores what happened.

- `src/` is the library: what the command line asks for, how a configuration
  resolves to patterns and mutants, what a run's output proves, what a verdict
  is, and the machine that walks through a pass. Verus proves every function
  against its contract. The library touches no file and starts no process.
- `app/` is the program around it: it reads and writes files, runs the suite's
  process, and writes the report.
- `tests/` runs the library on concrete values, whole passes over files held in
  memory among them.

## What is proved of a pass

The laws in `src/laws.rs` hold of every pass, whatever its mutants and whatever
happens to it:

- A pass goes on from its baseline only where the run was green and the fail
  pattern captured nothing in it.
- Nothing is written but a valid mutation or the original of the same file.
- Whatever a run on a mutated tree did, the next step is to write the original
  back, and a verdict counts only after the file was read back byte-exact.
- Every pass ends, and a finished one reports every mutant and exits zero exactly
  where all were killed.
- Where files behave and no restore fails, the tree at the end is the tree at the
  beginning.

## What is trusted

Compiling and matching regular expressions is left to the `regex` crate, and
quoting, lossy decoding and appending a character (`String::push`) to the
standard library. What is claimed of each of those calls stands in
`src/pattern.rs` and `src/text.rs`.
