use bargo::output::{prettify_toml_error, HELP};
use bargo::{help, BuildError, Error, SyntaxError, TomlError, TomlValueType, UnknownCrateSource};

#[test]
fn help_text() {
    let h = help();
    assert_eq!(h, HELP);
    assert!(h.contains("Bargo\x1B[22m is a build system wrapped around Cargo."));
    assert!(h.ends_with("https://github.com/bright-shard/bargo \n"));
}

#[test]
fn type_mismatch_message() {
    let e = TomlError::TypeMismatch("unstable".to_string(), TomlValueType::Table, TomlValueType::String);
    assert_eq!(e.message(), "Expected `unstable` to be a Table, but it was a String.");
    let e = TomlError::ChildTypeMismatch("target".to_string(), TomlValueType::String, TomlValueType::OffsetDateTime);
    assert_eq!(e.message(), "Expected children of `target` to be a `String`, but found a `OffsetDateTime`.");
    let e = TomlError::MissingKey("package.name".to_string(), TomlValueType::String);
    assert_eq!(e.message(), "Couldn't find the key `package.name` (which should store a `String`).");
}

#[test]
fn build_error_messages() {
    let e = Error::BuildError(BuildError::CyclicDependency("a".to_string()));
    assert_eq!(e.message(), "Error while building: Cyclic dependency detected for crate `a`.");
    let e = BuildError::UnknownCrate(UnknownCrateSource::Prebuild("a".to_string()), "b".to_string());
    assert_eq!(e.message(), "Unknown crate `b` specified in `a`'s `prebuild` setting.");
    let e = BuildError::UnknownCrate(UnknownCrateSource::DefaultBuild, "b".to_string());
    assert_eq!(e.message(), "Unknown crate `b` specified in the `workspace.default-build` table.");
    let e = BuildError::UnknownCrate(UnknownCrateSource::CliArg, "b".to_string());
    assert_eq!(e.message(), "Unknown crate `b` specified in `bargo build`'s arguments.");
    let e = BuildError::CrateNameMismatch("mine".to_string(), "other".to_string());
    assert_eq!(
        e.message(),
        "A crate is named `mine` in `bargo.toml`, but is named `other` in its `Cargo.toml`."
    );
    let e = BuildError::NoCargoToml("a".to_string(), "/w/a/Cargo.toml".to_string());
    assert_eq!(
        e.message(),
        "Bargo couldn't find the `Cargo.toml` file for `a`. It searched at `/w/a/Cargo.toml`."
    );
    let e = BuildError::PostBuildNotFound("a".to_string(), "p.rs".to_string());
    assert_eq!(e.message(), "Couldn't find the post-build script for `a` at `p.rs`.");
    assert_eq!(BuildError::CargoFailed.message(), "A Cargo command failed to run, exiting...");
    assert_eq!(BuildError::PostBuildFailed.message(), "A post-build script failed to run, exiting...");
}

#[test]
fn top_level_messages() {
    assert_eq!(Error::NoCrates.message(), "No crates are defined in `bargo.toml`, nothing to do...");
    assert_eq!(Error::NoCommand.message(), format!("No command provided.\n{}", HELP));
    assert_eq!(Error::UnknownArgument("-x".to_string()).message(), format!("Unknown argument: `-x`\n{}", HELP));
    assert_eq!(Error::UnknownCommand("go".to_string()).message(), format!("Unknown command `go`.\n{}", HELP));
    assert_eq!(
        Error::MultipleSubcommands("b".to_string(), "r".to_string()).message(),
        "Multiple subcommands given: `b` and `r`"
    );
    assert!(Error::NoConfig.message().starts_with("Couldn't find a `bargo.toml` file"));
    let e = Error::TomlError(TomlError::MissingKey("k".to_string(), TomlValueType::Array));
    assert_eq!(e.message(), "Error while parsing `bargo.toml`: Couldn't find the key `k` (which should store a `Array`).");
}

#[test]
fn syntax_error_report() {
    let src = "0123456789abcdefghijklmnopqrstuvwxyzABCDEFGHIJ";
    let err = SyntaxError { kind: "InvalidNumber".to_string(), start: 20, end: 22 };
    assert_eq!(
        prettify_toml_error(&err, src),
        "Syntax error:\nError type: InvalidNumber\nThe error comes from here: `klm`\n...which is in this region of text: `56789abcdefghijklmnopqrstuvwxyzAB`"
    );
    let short = "a = ";
    let err = SyntaxError { kind: "NoValueInAssignment".to_string(), start: 3, end: 3 };
    assert_eq!(
        prettify_toml_error(&err, short),
        "Syntax error:\nError type: NoValueInAssignment\nThe error comes from here: ` `\n...which is in this region of text: `a = `"
    );
    let e = BuildError::InvalidCargoToml("a".to_string(), TomlError::ParseError(err, short.to_string()));
    assert!(e.message().starts_with("Crate `a`'s Cargo.toml has a syntax error: Syntax error:\n"));
}

#[test]
fn well_formed_errors() {
    let ok = SyntaxError { kind: "K".to_string(), start: 1, end: 2 };
    assert!(Error::TomlError(TomlError::ParseError(ok, "abc".to_string())).is_well_formed());
    let bad = SyntaxError { kind: "K".to_string(), start: 1, end: 3 };
    assert!(!Error::TomlError(TomlError::ParseError(bad, "abc".to_string())).is_well_formed());
    assert!(Error::NoCrates.is_well_formed());
}
