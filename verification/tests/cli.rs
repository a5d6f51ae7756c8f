//! The command line.

use mutation_probe::args::{parse_args, Command, Options};

fn parse(args: &[&str]) -> Result<Command, String> {
    parse_args(&args.iter().map(|a| a.to_string()).collect())
}

fn probe(config_path: &str, json_path: Option<&str>, only: Option<&str>) -> Command {
    Command::Probe(Options {
        config_path: config_path.to_string(),
        json_path: json_path.map(|p| p.to_string()),
        only: only.map(|p| p.to_string()),
    })
}

#[test]
fn options_come_in_any_order() {
    assert_eq!(parse(&["m.toml"]), Ok(probe("m.toml", None, None)));
    assert_eq!(
        parse(&["--only", "M07", "m.toml", "--json", "r.json"]),
        Ok(probe("m.toml", Some("r.json"), Some("M07")))
    );
    // The last of two wins, and a value may look like a flag.
    assert_eq!(
        parse(&["m.toml", "--json", "a", "--json", "--only"]),
        Ok(probe("m.toml", Some("--only"), None))
    );
    // An empty argument is no flag.
    assert_eq!(parse(&[""]), Ok(probe("", None, None)));
}

#[test]
fn help_wins_over_what_follows_it() {
    assert_eq!(parse(&["--help"]), Ok(Command::Help));
    assert_eq!(parse(&["m.toml", "-h", "--nonsense"]), Ok(Command::Help));
    assert_eq!(
        parse(&["--json", "-h", "m.toml"]),
        Ok(probe("m.toml", Some("-h"), None))
    );
}

#[test]
fn mistakes_are_told() {
    assert_eq!(
        parse(&[]).unwrap_err(),
        "usage: mutation-probe <mutants.toml> [--json <path>] [--only <substring>] (--help for \
         the manual)"
    );
    assert_eq!(
        parse(&["m.toml", "--json"]).unwrap_err(),
        "--json needs a path"
    );
    assert_eq!(
        parse(&["m.toml", "--only"]).unwrap_err(),
        "--only needs a substring"
    );
    assert_eq!(
        parse(&["--onyl", "x"]).unwrap_err(),
        r#"unknown flag "--onyl" (--help)"#
    );
    assert_eq!(parse(&["-"]).unwrap_err(), r#"unknown flag "-" (--help)"#);
    assert_eq!(
        parse(&["a.toml", "b \"c\"\n"]).unwrap_err(),
        r#"unexpected argument "b \"c\"\n""#
    );
    // The first mistake is the one that is told, even before a plea for help.
    assert_eq!(
        parse(&["-x", "--help"]).unwrap_err(),
        r#"unknown flag "-x" (--help)"#
    );
}
