use bargo::cargo::Manifest;
use bargo::orchestrate::{config_tables, enter};
use bargo::{
    Action, Args, Build, BuildError, Ctx, Error, Event, HookPath, TargetArg, TomlError, TomlTable,
    TomlValue, UnknownCrateSource,
};

fn s(x: &str) -> TomlValue {
    TomlValue::String(x.to_string())
}

fn table(entries: Vec<(&str, TomlValue)>) -> TomlTable {
    let mut t = TomlTable::new();
    for (k, v) in entries {
        t.push(k, v);
    }
    t
}

fn manifest_named(name: &str) -> Manifest {
    Manifest::Parsed(table(vec![("package", TomlValue::Table(table(vec![("name", s(name))])))]))
}

fn ctx<'a>(args: Args<'a>, workspace: Option<&'a TomlTable>, crates: &'a TomlTable) -> Ctx<'a> {
    Ctx { args, target_dir: "/ws/target".to_string(), workspace, crates }
}

fn no_args<'a>() -> Args<'a> {
    Args { subcommand: None, release: false, features: Vec::new(), targets: Vec::new(), crates: Vec::new() }
}

/// Runs a build to its end, as a driver would: every manifest declares the
/// right name, every process succeeds, and only the post-build scripts
/// listed exist. Returns the log of actions and the error, if any.
fn drive(ctx: &Ctx, hooks: &[&str]) -> (Vec<String>, Option<Error>) {
    let mut log = Vec::new();
    let mut build = match Build::new(ctx) {
        Ok(b) => b,
        Err(e) => return (log, Some(e)),
    };
    let mut event = Event::Start;
    loop {
        match build.next(event) {
            Action::LoadManifest { name, dir } => {
                log.push(format!("load {name} in {dir}"));
                event = Event::Manifest(manifest_named(&name));
            }
            Action::RunCargo(inv) => {
                let target = match &inv.target {
                    None => String::new(),
                    Some(TargetArg::Name(t)) => format!(" --target {t}"),
                    Some(TargetArg::File(t)) => format!(" --target-file {t}"),
                };
                log.push(format!("cargo in {}: {}{}", inv.dir, inv.args.join(" "), target));
                event = Event::Finished(true);
            }
            Action::FindHook(path) => {
                let p = match &path {
                    HookPath::Custom(p) => p.clone(),
                    HookPath::Default(dir) => format!("{dir}/postbuild.rs"),
                };
                if hooks.contains(&p.as_str()) {
                    event = Event::HookFound;
                } else {
                    log.push(format!("no hook {p}"));
                    event = Event::HookMissing(p);
                }
            }
            Action::RunHook { path, release } => {
                log.push(format!("hook {:?} release={release}", path));
                event = Event::Finished(true);
            }
            Action::Done => return (log, None),
            Action::Failed(e) => return (log, Some(e)),
        }
    }
}

#[test]
fn prebuild_runs_first() {
    let b = TomlTable::new();
    let a = table(vec![("prebuild", TomlValue::Table(table(vec![("b", TomlValue::Table(TomlTable::new()))])))]);
    let crates = table(vec![("a", TomlValue::Table(a)), ("b", TomlValue::Table(b))]);
    let mut args = no_args();
    args.crates = vec!["a"];
    let c = ctx(args, None, &crates);
    let (log, err) = drive(&c, &["b/postbuild.rs"]);
    assert!(err.is_none());
    assert_eq!(
        log,
        vec![
            "load a in a",
            "load b in b",
            "cargo in b: build --target-dir /ws/target",
            "hook Default(\"b\") release=false",
            "cargo in a: build --target-dir /ws/target",
            "no hook a/postbuild.rs",
        ]
    );
}

#[test]
fn default_build_order() {
    let crates = table(vec![
        ("a", TomlValue::Table(TomlTable::new())),
        ("b", TomlValue::Table(TomlTable::new())),
        ("c", TomlValue::Table(TomlTable::new())),
    ]);
    let ws = table(vec![("default-build", TomlValue::Array(vec![s("a"), s("c")]))]);
    let c = ctx(no_args(), Some(&ws), &crates);
    let (log, err) = drive(&c, &[]);
    assert!(err.is_none());
    let loads: Vec<&String> = log.iter().filter(|l| l.starts_with("load")).collect();
    assert_eq!(loads, vec!["load a in a", "load c in c"]);
    let builds: Vec<&String> = log.iter().filter(|l| l.starts_with("cargo")).collect();
    assert_eq!(builds.len(), 2);
}

#[test]
fn all_crates_in_declared_order() {
    let crates = table(vec![
        ("z", TomlValue::Table(TomlTable::new())),
        ("y", TomlValue::Table(table(vec![("path", s("libs/y"))]))),
    ]);
    let c = ctx(no_args(), None, &crates);
    let (log, err) = drive(&c, &[]);
    assert!(err.is_none());
    let loads: Vec<&String> = log.iter().filter(|l| l.starts_with("load")).collect();
    assert_eq!(loads, vec!["load z in z", "load y in libs/y"]);
}

#[test]
fn cycle_is_detected_before_any_build() {
    let a = table(vec![("prebuild", TomlValue::Table(table(vec![("b", TomlValue::Table(TomlTable::new()))])))]);
    let b = table(vec![("prebuild", TomlValue::Table(table(vec![("a", TomlValue::Table(TomlTable::new()))])))]);
    let crates = table(vec![("a", TomlValue::Table(a)), ("b", TomlValue::Table(b))]);
    let mut args = no_args();
    args.crates = vec!["a"];
    let c = ctx(args, None, &crates);
    let (log, err) = drive(&c, &[]);
    match err {
        Some(Error::BuildError(BuildError::CyclicDependency(n))) => assert_eq!(n, "a"),
        other => panic!("unexpected: {:?}", other),
    }
    assert!(!log.iter().any(|l| l.starts_with("cargo")));
}

#[test]
fn self_prebuild_is_a_cycle() {
    let a = table(vec![("prebuild", TomlValue::Table(table(vec![("a", TomlValue::Table(TomlTable::new()))])))]);
    let crates = table(vec![("a", TomlValue::Table(a))]);
    let c = ctx(no_args(), None, &crates);
    let (_, err) = drive(&c, &[]);
    assert!(matches!(err, Some(Error::BuildError(BuildError::CyclicDependency(_)))));
}

#[test]
fn enter_twice_is_an_error() {
    let mut set = Vec::new();
    assert!(enter(&mut set, "a").is_ok());
    assert!(enter(&mut set, "b").is_ok());
    match enter(&mut set, "a") {
        Err(Error::BuildError(BuildError::CyclicDependency(n))) => assert_eq!(n, "a"),
        _ => panic!("expected a cycle"),
    }
    assert_eq!(set, vec!["a".to_string(), "b".to_string()]);
}

#[test]
fn prebuild_overrides_reach_the_prebuild() {
    let over = table(vec![("features", s("extra")), ("targets", TomlValue::Array(vec![s("t1"), s("t2")]))]);
    let a = table(vec![("prebuild", TomlValue::Table(table(vec![("b", TomlValue::Table(over))])))]);
    let crates = table(vec![("a", TomlValue::Table(a)), ("b", TomlValue::Table(TomlTable::new()))]);
    let mut args = no_args();
    args.crates = vec!["a"];
    args.features = vec!["global"];
    let c = ctx(args, None, &crates);
    let (log, err) = drive(&c, &[]);
    assert!(err.is_none());
    let builds: Vec<&String> = log.iter().filter(|l| l.starts_with("cargo")).collect();
    assert_eq!(
        builds,
        vec![
            "cargo in b: build --target-dir /ws/target --features extra --target t1",
            "cargo in b: build --target-dir /ws/target --features extra --target t2",
            "cargo in a: build --target-dir /ws/target --features global",
        ]
    );
}

#[test]
fn unknown_crates_are_reported() {
    let crates = table(vec![("a", TomlValue::Table(TomlTable::new()))]);
    let mut args = no_args();
    args.crates = vec!["nope"];
    let c = ctx(args, None, &crates);
    match drive(&c, &[]).1 {
        Some(Error::BuildError(BuildError::UnknownCrate(UnknownCrateSource::CliArg, n))) => assert_eq!(n, "nope"),
        other => panic!("unexpected: {:?}", other),
    }
    let ws = table(vec![("default-build", s("gone"))]);
    let c = ctx(no_args(), Some(&ws), &crates);
    assert!(matches!(
        drive(&c, &[]).1,
        Some(Error::BuildError(BuildError::UnknownCrate(UnknownCrateSource::DefaultBuild, _)))
    ));
    let a = table(vec![("prebuild", TomlValue::Table(table(vec![("ghost", TomlValue::Table(TomlTable::new()))])))]);
    let crates = table(vec![("a", TomlValue::Table(a))]);
    let c = ctx(no_args(), None, &crates);
    match drive(&c, &[]).1 {
        Some(Error::BuildError(BuildError::UnknownCrate(UnknownCrateSource::Prebuild(dep), n))) => {
            assert_eq!(dep, "a");
            assert_eq!(n, "ghost");
        }
        other => panic!("unexpected: {:?}", other),
    }
}

#[test]
fn bad_default_build_and_crates_entries() {
    let crates = table(vec![("a", TomlValue::Table(TomlTable::new()))]);
    let ws = table(vec![("default-build", TomlValue::Integer(2))]);
    let c = ctx(no_args(), Some(&ws), &crates);
    assert!(matches!(drive(&c, &[]).1, Some(Error::TomlError(TomlError::TypeMismatch(_, _, _)))));
    let crates = table(vec![("a", s("not a table"))]);
    let c = ctx(no_args(), None, &crates);
    assert!(matches!(drive(&c, &[]).1, Some(Error::TomlError(TomlError::ChildTypeMismatch(_, _, _)))));
}

#[test]
fn custom_hook_must_exist() {
    let a = table(vec![("postbuild", s("scripts/post.rs"))]);
    let crates = table(vec![("a", TomlValue::Table(a))]);
    let c = ctx(no_args(), None, &crates);
    match drive(&c, &[]).1 {
        Some(Error::BuildError(BuildError::PostBuildNotFound(n, p))) => {
            assert_eq!(n, "a");
            assert_eq!(p, "scripts/post.rs");
        }
        other => panic!("unexpected: {:?}", other),
    }
    let (log, err) = drive(&c, &["scripts/post.rs"]);
    assert!(err.is_none());
    assert_eq!(log.last().unwrap(), "hook Custom(\"scripts/post.rs\") release=false");
}

#[test]
fn failures_stop_the_build() {
    let own = table(vec![("target", TomlValue::Array(vec![s("t1"), s("t2")]))]);
    let crates = table(vec![("a", TomlValue::Table(own))]);
    let mut args = no_args();
    args.release = true;
    let c = ctx(args, None, &crates);
    let mut build = Build::new(&c).unwrap();
    assert!(matches!(build.next(Event::Start), Action::LoadManifest { .. }));
    match build.next(Event::Manifest(manifest_named("a"))) {
        Action::RunCargo(inv) => {
            assert!(inv.args.contains(&"--release".to_string()));
            assert_eq!(inv.target, Some(TargetArg::Name("t1".to_string())));
        }
        other => panic!("unexpected: {:?}", other),
    }
    assert_eq!(build.in_progress(), &vec!["a".to_string()]);
    assert!(matches!(build.next(Event::Finished(false)), Action::Failed(Error::BuildError(BuildError::CargoFailed))));
}

#[test]
fn completed_crates_are_recorded() {
    let crates = table(vec![("a", TomlValue::Table(TomlTable::new())), ("b", TomlValue::Table(TomlTable::new()))]);
    let c = ctx(no_args(), None, &crates);
    let mut build = Build::new(&c).unwrap();
    let mut event = Event::Start;
    loop {
        match build.next(event) {
            Action::LoadManifest { name, .. } => event = Event::Manifest(manifest_named(&name)),
            Action::RunCargo(_) => event = Event::Finished(true),
            Action::FindHook(_) => event = Event::HookMissing("x".to_string()),
            Action::RunHook { .. } => event = Event::Finished(true),
            Action::Done => break,
            Action::Failed(e) => panic!("unexpected: {:?}", e),
        }
    }
    assert_eq!(build.completed(), &vec!["a".to_string(), "b".to_string()]);
    assert!(build.in_progress().is_empty());
}

#[test]
fn hook_failure_is_reported() {
    let crates = table(vec![("a", TomlValue::Table(TomlTable::new()))]);
    let c = ctx(no_args(), None, &crates);
    let mut build = Build::new(&c).unwrap();
    build.next(Event::Start);
    build.next(Event::Manifest(manifest_named("a")));
    assert!(matches!(build.next(Event::Finished(true)), Action::FindHook(HookPath::Default(_))));
    assert!(matches!(build.next(Event::HookFound), Action::RunHook { release: false, .. }));
    assert!(matches!(build.next(Event::Finished(false)), Action::Failed(Error::BuildError(BuildError::PostBuildFailed))));
}

#[test]
fn config_needs_crates() {
    let cfg = table(vec![("workspace", TomlValue::Table(TomlTable::new()))]);
    assert!(matches!(config_tables(&cfg), Err(Error::NoCrates)));
    let cfg = table(vec![("crates", TomlValue::Table(TomlTable::new()))]);
    assert!(matches!(config_tables(&cfg), Err(Error::NoCrates)));
    let cfg = table(vec![("crates", s("a"))]);
    match config_tables(&cfg) {
        Err(Error::TomlError(TomlError::TypeMismatch(k, _, _))) => assert_eq!(k, "crates"),
        _ => panic!("expected a type mismatch"),
    }
    let cfg = table(vec![("workspace", TomlValue::Integer(1)), ("crates", s("a"))]);
    match config_tables(&cfg) {
        Err(Error::TomlError(TomlError::TypeMismatch(k, _, _))) => assert_eq!(k, "workspace"),
        _ => panic!("expected a type mismatch"),
    }
    let crates = table(vec![("a", TomlValue::Table(TomlTable::new()))]);
    let cfg = table(vec![("crates", TomlValue::Table(crates))]);
    let (ws, c) = config_tables(&cfg).unwrap();
    assert!(ws.is_none());
    assert_eq!(c.len(), 1);
}
