use bargo::{Args, Error, Subcommand};

fn expect_all(inputs: Vec<Vec<&str>>, expected: Args) {
    for input in inputs {
        let output = Args::parse(&input).unwrap();
        assert_eq!(output, expected);
    }
}

/// Release mode.
#[test]
fn release() {
    expect_all(
        vec![vec!["-r"], vec!["--release"]],
        Args {
            subcommand: None,
            release: true,
            features: Vec::new(),
            targets: Vec::new(),
            crates: Vec::new(),
        },
    );
}

/// Arguments that take values.
#[test]
fn valued_args() {
    expect_all(
        vec![
            vec!["--features=feat1,feat2,feat3"],
            vec!["-F=feat1,feat2,feat3"],
            vec!["--features", "feat1", "feat2", "feat3"],
            vec!["-F", "feat1", "feat2", "feat3"],
            vec!["--features=feat1", "feat2,feat3"],
            vec!["-F=feat1", "feat2,feat3"],
        ],
        Args {
            subcommand: None,
            release: false,
            features: vec!["feat1", "feat2", "feat3"],
            targets: Vec::new(),
            crates: Vec::new(),
        },
    );
}

/// Other arguments are accepted.
#[test]
fn other_args() {
    expect_all(
        vec![vec!["build", "--target", "x86_64-unknown-none", "--package", "main"]],
        Args {
            subcommand: Some(Subcommand::Build),
            release: false,
            features: Vec::new(),
            targets: vec!["x86_64-unknown-none"],
            crates: vec!["main"],
        },
    );
}

#[test]
fn subcommand_aliases() {
    for (word, sub) in [
        ("b", Subcommand::Build),
        ("build", Subcommand::Build),
        ("r", Subcommand::Run),
        ("run", Subcommand::Run),
        ("h", Subcommand::Help),
        ("help", Subcommand::Help),
        ("?", Subcommand::Help),
    ] {
        let args = Args::parse(&vec![word]).unwrap();
        assert_eq!(args.subcommand, Some(sub));
    }
}

#[test]
fn first_subcommand_wins() {
    let args = Args::parse(&vec!["build", "run"]).unwrap();
    assert_eq!(args.subcommand, Some(Subcommand::Build));
}

#[test]
fn unknown_subcommand_is_rejected() {
    match Args::parse(&vec!["compile"]) {
        Err(Error::UnknownArgument(a)) => assert_eq!(a, "compile"),
        other => panic!("unexpected: {:?}", other),
    }
}

#[test]
fn unknown_flags_are_rejected() {
    for (input, bad) in [("--verbose", "--verbose"), ("-x", "-x"), ("-", "-")] {
        match Args::parse(&vec![input]) {
            Err(Error::UnknownArgument(a)) => assert_eq!(a, bad),
            other => panic!("unexpected: {:?}", other),
        }
    }
}

#[test]
fn flag_with_assignment_after_values() {
    let args = Args::parse(&vec!["-F", "a", "--features=b"]).unwrap();
    assert_eq!(args.features, vec!["a", "b"]);
    let args = Args::parse(&vec!["-F", "f", "--target=x,y"]).unwrap();
    assert_eq!(args.features, vec!["f"]);
    assert_eq!(args.targets, vec!["x", "y"]);
    match Args::parse(&vec!["-F", "a", "--bogus=b"]) {
        Err(Error::UnknownArgument(a)) => assert_eq!(a, "--bogus"),
        other => panic!("unexpected: {:?}", other),
    }
}

#[test]
fn values_stop_at_next_flag() {
    let args = Args::parse(&vec!["-p", "a,b", "--target", "t1", "t2", "-r", "build"]).unwrap();
    assert_eq!(args.crates, vec!["a", "b"]);
    assert_eq!(args.targets, vec!["t1", "t2"]);
    assert!(args.release);
    assert_eq!(args.subcommand, Some(Subcommand::Build));
}

#[test]
fn long_flag_plurals_and_spaces() {
    let args = Args::parse(&vec![" --packages ", " x ", "--targets", "y", "--feature", "f,,g"]).unwrap();
    assert_eq!(args.crates, vec!["x"]);
    assert_eq!(args.targets, vec!["y"]);
    assert_eq!(args.features, vec!["f", "", "g"]);
}

#[test]
fn empty_input_parses_to_nothing() {
    let args = Args::parse(&Vec::new()).unwrap();
    assert_eq!(args.subcommand, None);
    assert!(!args.release);
    assert!(args.features.is_empty());
}

#[test]
fn unicode_whitespace_is_trimmed() {
    let args = Args::parse(&vec!["\u{3000}-r\n", "\u{2009}build\u{85}"]).unwrap();
    assert!(args.release);
    assert_eq!(args.subcommand, Some(Subcommand::Build));
    let args = Args::parse(&vec!["-p", " \u{a0}x\u{202f} "]).unwrap();
    assert_eq!(args.crates, vec!["x"]);
}
