use bargo::cargo::Manifest;
use bargo::plan::plan;
use bargo::{
    BuildError, CargoCommand, Crate, Error, PrebuildMetadata, SyntaxError, TargetArg, TomlError,
    TomlTable, TomlValue, TomlValueType,
};

fn s(x: &str) -> TomlValue {
    TomlValue::String(x.to_string())
}

fn arr(xs: &[&str]) -> TomlValue {
    TomlValue::Array(xs.iter().map(|x| s(x)).collect())
}

fn table(entries: Vec<(&str, TomlValue)>) -> TomlTable {
    let mut t = TomlTable::new();
    for (k, v) in entries {
        t.push(k, v);
    }
    t
}

fn manifest_named(name: &str) -> Manifest {
    Manifest::Parsed(table(vec![("package", TomlValue::Table(table(vec![("name", s(name))])))]))
}

fn load<'a>(t: &'a TomlTable, ws: Option<&'a TomlTable>, name: &'a str) -> Crate<'a> {
    Crate::new(t, ws, name, &manifest_named(name)).unwrap()
}

#[test]
fn get_prefers_own_setting() {
    let own = table(vec![("postbuild", s("own.rs"))]);
    let ws = table(vec![("postbuild", s("ws.rs"))]);
    let c = load(&own, Some(&ws), "a");
    assert!(matches!(c.get("postbuild"), Some(TomlValue::String(v)) if v == "own.rs"));
}

#[test]
fn get_falls_back_to_workspace() {
    let own = table(vec![]);
    let ws = table(vec![("target", s("x86_64-unknown-none"))]);
    let c = load(&own, Some(&ws), "a");
    assert!(matches!(c.get("target"), Some(TomlValue::String(v)) if v == "x86_64-unknown-none"));
    assert!(c.get("direct-arg").is_none());
    let alone = load(&own, None, "a");
    assert!(alone.get("target").is_none());
}

#[test]
fn unstable_flags_and_nightly() {
    let own = table(vec![(
        "unstable",
        TomlValue::Table(table(vec![("foo", TomlValue::Boolean(true)), ("bar", s("x"))])),
    )]);
    let c = load(&own, None, "pkg");
    let cmd = CargoCommand::new(&c).unwrap();
    assert_eq!(cmd.unstable_features, vec!["-Zfoo".to_string(), "-Zbar=x".to_string()]);
    assert!(cmd.is_unstable());
    let invs = plan(&cmd, "/ws/target", false, &Vec::new(), &Vec::new(), &None).unwrap();
    assert_eq!(invs.len(), 1);
    assert_eq!(
        invs[0].args,
        vec!["+nightly", "build", "--target-dir", "/ws/target", "-Zfoo", "-Zbar=x"]
    );
    assert_eq!(invs[0].target, None);
    assert_eq!(invs[0].dir, "pkg");
}

#[test]
fn unstable_false_and_lists() {
    let own = table(vec![(
        "unstable",
        TomlValue::Table(table(vec![
            ("off", TomlValue::Boolean(false)),
            ("build-std", arr(&["core", "alloc"])),
        ])),
    )]);
    let c = load(&own, None, "pkg");
    let cmd = CargoCommand::new(&c).unwrap();
    assert_eq!(cmd.unstable_features, vec!["-Zbuild-std=core,alloc".to_string()]);
}

#[test]
fn unstable_type_errors() {
    let own = table(vec![("unstable", s("nope"))]);
    let c = load(&own, None, "pkg");
    match CargoCommand::new(&c) {
        Err(Error::TomlError(TomlError::TypeMismatch(k, TomlValueType::Table, TomlValueType::String))) => {
            assert_eq!(k, "unstable")
        }
        _ => panic!("expected a type mismatch"),
    }
    let own = table(vec![("unstable", TomlValue::Table(table(vec![("n", TomlValue::Integer(3))])))]);
    let c = load(&own, None, "pkg");
    assert!(matches!(
        CargoCommand::new(&c),
        Err(Error::TomlError(TomlError::TypeMismatch(_, TomlValueType::String, TomlValueType::Integer)))
    ));
    let own = table(vec![(
        "unstable",
        TomlValue::Table(table(vec![("n", TomlValue::Array(vec![s("a"), TomlValue::Boolean(true)]))])),
    )]);
    let c = load(&own, None, "pkg");
    assert!(matches!(
        CargoCommand::new(&c),
        Err(Error::TomlError(TomlError::ChildTypeMismatch(_, TomlValueType::String, TomlValueType::Boolean)))
    ));
}

#[test]
fn direct_args_follow_unstable_flags() {
    let own = table(vec![
        ("direct-arg", arr(&["--locked", "-v"])),
        ("unstable", TomlValue::Table(table(vec![("x", TomlValue::Boolean(true))]))),
    ]);
    let c = load(&own, None, "pkg");
    let cmd = CargoCommand::new(&c).unwrap();
    assert_eq!(cmd.direct_arguments, vec!["--locked", "-v"]);
    let invs = plan(&cmd, "t", true, &vec!["f"], &Vec::new(), &None).unwrap();
    assert_eq!(
        invs[0].args,
        vec!["+nightly", "build", "--target-dir", "t", "-Zx", "--locked", "-v", "--release", "--features", "f"]
    );
}

#[test]
fn direct_arg_errors() {
    let own = table(vec![("direct-arg", TomlValue::Boolean(true))]);
    let c = load(&own, None, "pkg");
    match CargoCommand::new(&c) {
        Err(Error::TomlError(TomlError::TypeMismatch(k, _, TomlValueType::Boolean))) => assert_eq!(k, "direct-arg"),
        _ => panic!("expected a type mismatch"),
    }
}

#[test]
fn one_invocation_without_targets() {
    let own = table(vec![("prebuild", TomlValue::Table(table(vec![])))]);
    let c = load(&own, None, "a");
    let cmd = CargoCommand::new(&c).unwrap();
    let invs = plan(&cmd, "t", false, &Vec::new(), &Vec::new(), &None).unwrap();
    assert_eq!(invs.len(), 1);
    assert!(invs[0].target.is_none());
    assert!(!invs[0].args.iter().any(|a| a == "--target"));
}

#[test]
fn one_invocation_per_own_target() {
    let own = table(vec![("target", arr(&["x86_64-unknown-none", "custom.json", "aarch64-unknown-none"]))]);
    let c = load(&own, None, "a");
    let cmd = CargoCommand::new(&c).unwrap();
    let invs = plan(&cmd, "t", false, &vec!["feat"], &Vec::new(), &None).unwrap();
    assert_eq!(invs.len(), 3);
    assert_eq!(invs[0].target, Some(TargetArg::Name("x86_64-unknown-none".to_string())));
    assert_eq!(invs[1].target, Some(TargetArg::File("custom.json".to_string())));
    assert_eq!(invs[2].target, Some(TargetArg::Name("aarch64-unknown-none".to_string())));
    for inv in &invs {
        assert_eq!(inv.args, invs[0].args);
        assert!(inv.args.ends_with(&["--features".to_string(), "feat".to_string()]));
    }
}

#[test]
fn override_precedence() {
    let own = table(vec![("target", s("own-target"))]);
    let c = load(&own, None, "a");
    let cmd = CargoCommand::new(&c).unwrap();
    let meta = Some(PrebuildMetadata { features: vec!["of"], targets: vec!["ot"] });
    let invs = plan(&cmd, "t", false, &vec!["gf"], &vec!["gt"], &meta).unwrap();
    assert_eq!(invs.len(), 1);
    assert_eq!(invs[0].target, Some(TargetArg::Name("ot".to_string())));
    assert_eq!(invs[0].args.last().unwrap(), "of");
    let invs = plan(&cmd, "t", false, &vec!["gf"], &vec!["gt"], &None).unwrap();
    assert_eq!(invs[0].target, Some(TargetArg::Name("gt".to_string())));
    assert_eq!(invs[0].args.last().unwrap(), "gf");
    let empty_meta = Some(PrebuildMetadata { features: vec![], targets: vec![] });
    let invs = plan(&cmd, "t", false, &Vec::new(), &Vec::new(), &empty_meta).unwrap();
    assert_eq!(invs[0].target, Some(TargetArg::Name("own-target".to_string())));
    assert!(!invs[0].args.iter().any(|a| a == "--features"));
}

#[test]
fn bad_target_setting() {
    let own = table(vec![("target", TomlValue::Integer(1))]);
    let c = load(&own, None, "a");
    let cmd = CargoCommand::new(&c).unwrap();
    match plan(&cmd, "t", false, &Vec::new(), &Vec::new(), &None) {
        Err(Error::TomlError(TomlError::ChildTypeMismatch(k, TomlValueType::String, TomlValueType::Integer))) => {
            assert_eq!(k, "target")
        }
        _ => panic!("expected a type mismatch"),
    }
}

#[test]
fn name_mismatch() {
    let own = table(vec![]);
    match Crate::new(&own, None, "mine", &manifest_named("other")) {
        Err(Error::BuildError(BuildError::CrateNameMismatch(a, b))) => {
            assert_eq!(a, "mine");
            assert_eq!(b, "other");
        }
        _ => panic!("expected a name mismatch"),
    }
}

#[test]
fn crate_path_setting() {
    let own = table(vec![("path", s("libs/a"))]);
    let c = load(&own, None, "a");
    assert_eq!(c.path, "libs/a");
    let plain = table(vec![]);
    assert_eq!(load(&plain, None, "a").path, "a");
    let bad = table(vec![("path", TomlValue::Boolean(false))]);
    match Crate::new(&bad, None, "a", &manifest_named("a")) {
        Err(Error::TomlError(TomlError::TypeMismatch(k, TomlValueType::String, TomlValueType::Boolean))) => {
            assert_eq!(k, "path")
        }
        _ => panic!("expected a type mismatch"),
    }
}

#[test]
fn manifest_errors() {
    let own = table(vec![]);
    match Crate::new(&own, None, "a", &Manifest::NotFound("/ws/a/Cargo.toml".to_string())) {
        Err(Error::BuildError(BuildError::NoCargoToml(n, p))) => {
            assert_eq!(n, "a");
            assert_eq!(p, "/ws/a/Cargo.toml");
        }
        _ => panic!("expected a missing manifest"),
    }
    let err = SyntaxError { kind: "ReusedKey".to_string(), start: 0, end: 1 };
    assert!(matches!(
        Crate::new(&own, None, "a", &Manifest::Invalid(err, "ab".to_string())),
        Err(Error::BuildError(BuildError::InvalidCargoToml(_, TomlError::ParseError(_, _))))
    ));
    match Crate::new(&own, None, "a", &Manifest::Parsed(table(vec![]))) {
        Err(Error::BuildError(BuildError::InvalidCargoToml(_, TomlError::MissingKey(k, TomlValueType::Table)))) => {
            assert_eq!(k, "package")
        }
        _ => panic!("expected a missing key"),
    }
    let no_name = Manifest::Parsed(table(vec![("package", TomlValue::Table(table(vec![("name", TomlValue::Integer(1))])))]));
    match Crate::new(&own, None, "a", &no_name) {
        Err(Error::BuildError(BuildError::InvalidCargoToml(_, TomlError::MissingKey(k, TomlValueType::String)))) => {
            assert_eq!(k, "package.name")
        }
        _ => panic!("expected a missing key"),
    }
}

#[test]
fn table_lookup_takes_first_entry() {
    let t = table(vec![("k", s("one")), ("k", s("two"))]);
    assert!(matches!(t.get("k"), Some(TomlValue::String(v)) if v == "one"));
    assert!(t.get("K").is_none());
    assert_eq!(t.len(), 2);
}
