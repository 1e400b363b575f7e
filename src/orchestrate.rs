//! The build traversal, as a state machine.
//!
//! `Build::next` takes the outcome of the last action and gives the next one:
//! load a crate's `Cargo.toml`, run Cargo, look for a post-build script, run
//! it. A crate's prebuilds are built, in the order of its `prebuild` table,
//! before its own invocations; then its post-build script runs. A crate is
//! built again each time it is reached: the set of completed crates records
//! builds and is never consulted to skip one.

use vstd::prelude::*;

use crate::args::Args;
use crate::cargo::{collect_strings, crate_dir, is_fault, load_error, loads, setting, str_views, string_items, views, CargoCommand, Crate, Fault, Manifest};
use crate::output::{BuildError, Error, TomlError, UnknownCrateSource};
use crate::plan::{crate_plan, invocation_model, invocation_models, plan, Invocation, InvocationModel, PrebuildMetadata};
use crate::text::str_eq;
use crate::value::{lookup, type_of, TomlTable, TomlValue, TomlValueType};

verus! {

/// What a build works from: the command line and the settings of `bargo.toml`.
pub struct Ctx<'a> {
    /// The parsed command line.
    pub args: Args<'a>,
    /// Cargo's output directory.
    pub target_dir: String,
    /// The `workspace` table.
    pub workspace: Option<&'a TomlTable>,
    /// The `crates` table.
    pub crates: &'a TomlTable,
}

/// A crate to build at the top level. `table` is `None` when no crate has
/// that name; `from_cli` tells whether the name came from the command line.
pub struct Root<'a> {
    pub name: &'a str,
    pub table: Option<&'a TomlTable>,
    pub from_cli: bool,
}

/// Whether `s` holds `x`.
pub open spec fn holds(s: Seq<Seq<char>>, x: Seq<char>) -> bool {
    exists|i: int| 0 <= i < s.len() && s[i] == x
}

/// Whether `b` is `a` followed by more names.
pub open spec fn grows(a: Seq<Seq<char>>, b: Seq<Seq<char>>) -> bool {
    a.len() <= b.len() && b.subrange(0, a.len() as int) == a
}

proof fn lemma_grows_refl(a: Seq<Seq<char>>)
    ensures
        grows(a, a),
{
    assert(a.subrange(0, a.len() as int) =~= a);
}

proof fn lemma_grows_push(a: Seq<Seq<char>>, b: Seq<Seq<char>>, x: Seq<char>)
    requires
        grows(a, b),
    ensures
        grows(a, b.push(x)),
{
    assert(b.push(x).subrange(0, a.len() as int) =~= b.subrange(0, a.len() as int));
}

/// Marks a crate as being built. A crate that is being built already depends
/// on itself: that is an error, and the set is left as it was.
pub fn enter(in_progress: &mut Vec<String>, name: &str) -> (r: Result<(), Error>)
    ensures
        holds(views(old(in_progress)@), name@) ==> (r matches Err(Error::BuildError(BuildError::CyclicDependency(n)))
            && n@ == name@ && final(in_progress)@ == old(in_progress)@),
        !holds(views(old(in_progress)@), name@) ==> r is Ok && views(final(in_progress)@) == views(old(in_progress)@).push(name@),
{
    let mut i: usize = 0;
    while i < in_progress.len()
        invariant
            i <= in_progress@.len(),
            forall|j: int| 0 <= j < i ==> in_progress@[j]@ != name@,
        decreases in_progress@.len() - i,
    {
        if str_eq(in_progress[i].as_str(), name) {
            proof { assert(views(in_progress@)[i as int] == name@); }
            return Err(Error::BuildError(BuildError::CyclicDependency(name.to_string())));
        }
        i = i + 1;
    }
    let ghost before = in_progress@;
    proof {
        if holds(views(before), name@) {
            let j = choose|j: int| 0 <= j < views(before).len() && views(before)[j] == name@;
            assert(before[j]@ == name@);
        }
    }
    in_progress.push(name.to_string());
    assert(views(in_progress@) =~= views(before).push(name@));
    Ok(())
}

/// `s` without the occurrences of `x`.
pub open spec fn without(s: Seq<Seq<char>>, x: Seq<char>) -> Seq<Seq<char>>
    decreases s.len(),
{
    if s.len() == 0 {
        s
    } else if s.last() == x {
        without(s.drop_last(), x)
    } else {
        without(s.drop_last(), x).push(s.last())
    }
}

/// Marks a crate as no longer being built.
pub fn leave(in_progress: &mut Vec<String>, name: &str)
    ensures
        views(final(in_progress)@) == without(views(old(in_progress)@), name@),
{
    let ghost old_views = views(in_progress@);
    let mut kept: Vec<String> = Vec::new();
    let mut i: usize = 0;
    assert(views(kept@) =~= Seq::<Seq<char>>::empty());
    while i < in_progress.len()
        invariant
            i <= in_progress@.len(),
            old_views == views(in_progress@),
            views(kept@) == without(old_views.subrange(0, i as int), name@),
        decreases in_progress@.len() - i,
    {
        proof {
            assert(old_views.subrange(0, i + 1).drop_last() =~= old_views.subrange(0, i as int));
        }
        let ghost before = kept@;
        if !str_eq(in_progress[i].as_str(), name) {
            kept.push(in_progress[i].clone());
            assert(views(kept@) =~= views(before).push(old_views[i as int]));
        }
        proof {
            assert(old_views.subrange(0, i as int).push(old_views[i as int]) =~= old_views.subrange(0, i + 1));
        }
        i = i + 1;
    }
    assert(old_views.subrange(0, old_views.len() as int) =~= old_views);
    *in_progress = kept;
}

/// The `default-build` setting of the workspace.
pub open spec fn default_build(workspace: Option<TomlTable>) -> Option<TomlValue> {
    match workspace {
        Some(w) => lookup(w.entries@, "default-build"@),
        None => None,
    }
}

/// The names of the crates declared in the `crates` table, in order, or the
/// kind of the first entry that is not a table.
pub open spec fn declared_crates(entries: Seq<(String, TomlValue)>) -> Result<Seq<Seq<char>>, TomlValueType>
    decreases entries.len(),
{
    if entries.len() == 0 {
        Ok(Seq::empty())
    } else {
        match declared_crates(entries.drop_last()) {
            Err(t) => Err(t),
            Ok(names) => match entries.last().1 {
                TomlValue::Table(_) => Ok(names.push(entries.last().0@)),
                other => Err(type_of(other)),
            },
        }
    }
}

/// The crates to build, in order: those named on the command line, else
/// those of `workspace.default-build`, else all the declared crates. An error
/// names the setting at fault and describes the mismatch.
pub open spec fn root_names(cli: Seq<Seq<char>>, workspace: Option<TomlTable>, crates: TomlTable) -> Result<Seq<Seq<char>>, (Seq<char>, Fault)> {
    if cli.len() > 0 {
        Ok(cli)
    } else {
        match default_build(workspace) {
            Some(TomlValue::Array(vals)) => match string_items(vals@) {
                Ok(items) => Ok(items),
                Err(t) => Err(("workspace.default-build"@, (true, TomlValueType::String, t))),
            },
            Some(TomlValue::String(s)) => Ok(seq![s@]),
            Some(other) => Err(("workspace.default-build"@, (false, TomlValueType::Array, type_of(other)))),
            None => match declared_crates(crates.entries@) {
                Ok(names) => Ok(names),
                Err(t) => Err(("crates"@, (true, TomlValueType::Table, t))),
            },
        }
    }
}

/// The table of the crate `name`, if there is one.
pub open spec fn root_table_spec(crates: TomlTable, name: Seq<char>) -> Option<TomlTable> {
    match lookup(crates.entries@, name) {
        Some(TomlValue::Table(t)) => Some(t),
        _ => None,
    }
}

/// The table a root carries.
pub open spec fn root_table_model(r: Root) -> Option<TomlTable> {
    match r.table {
        Some(t) => Some(*t),
        None => None,
    }
}

/// The names of a list of roots.
pub open spec fn root_views(roots: Seq<Root>) -> Seq<Seq<char>> {
    roots.map_values(|r: Root| r.name@)
}

/// Looks a crate up in the `crates` table.
fn crate_table<'a>(crates: &'a TomlTable, name: &'a str) -> (r: Option<&'a TomlTable>)
    ensures
        match lookup(crates.entries@, name@) {
            Some(TomlValue::Table(t)) => r == Some(&t),
            _ => r is None,
        },
{
    match crates.get(name) {
        Some(v) => v.as_table(),
        None => None,
    }
}

/// Wraps names as roots, looking each one up.
fn named_roots<'a>(crates: &'a TomlTable, names: &Vec<&'a str>, from_cli: bool) -> (r: Vec<Root<'a>>)
    ensures
        root_views(r@) == str_views(names@),
        forall|i: int| 0 <= i < r@.len() ==> (#[trigger] r@[i]).from_cli == from_cli
            && root_table_model(r@[i]) == root_table_spec(*crates, r@[i].name@),
{
    let mut roots: Vec<Root<'a>> = Vec::new();
    let mut i: usize = 0;
    while i < names.len()
        invariant
            i <= names@.len(),
            root_views(roots@) == str_views(names@.subrange(0, i as int)),
            forall|j: int| 0 <= j < roots@.len() ==> (#[trigger] roots@[j]).from_cli == from_cli
                && root_table_model(roots@[j]) == root_table_spec(*crates, roots@[j].name@),
        decreases names@.len() - i,
    {
        let name = names[i];
        let ghost before = roots@;
        roots.push(Root { name, table: crate_table(crates, name), from_cli });
        assert(root_views(roots@) =~= root_views(before).push(name@));
        assert(str_views(names@.subrange(0, i + 1)) =~= str_views(names@.subrange(0, i as int)).push(name@));
        i = i + 1;
    }
    assert(names@.subrange(0, names@.len() as int) =~= names@);
    roots
}

/// Chooses the crates to build: those named on the command line, else those
/// of `workspace.default-build`, else every crate of the `crates` table.
pub fn roots<'a>(ctx: &'a Ctx<'a>) -> (r: Result<Vec<Root<'a>>, Error>)
    ensures
        match root_names(str_views(ctx.args.crates@), match ctx.workspace { Some(w) => Some(*w), None => None }, *ctx.crates) {
            Ok(names) => r is Ok && root_views(r->Ok_0@) == names,
            Err((key, f)) => r is Err && is_fault(r->Err_0, key, f),
        },
        r is Ok ==> forall|i: int| 0 <= i < r->Ok_0@.len() ==> (#[trigger] r->Ok_0@[i]).from_cli == (ctx.args.crates@.len() > 0)
            && root_table_model(r->Ok_0@[i]) == root_table_spec(*ctx.crates, r->Ok_0@[i].name@),
{
    if ctx.args.crates.len() > 0 {
        return Ok(named_roots(ctx.crates, &ctx.args.crates, true));
    }
    let defaults = match ctx.workspace {
        Some(w) => w.get("default-build"),
        None => None,
    };
    match defaults {
        Some(TomlValue::Array(vals)) => match collect_strings(vals) {
            Ok(names) => Ok(named_roots(ctx.crates, &names, false)),
            Err(t) => Err(Error::TomlError(TomlError::ChildTypeMismatch("workspace.default-build".to_string(), TomlValueType::String, t))),
        },
        Some(TomlValue::String(s)) => {
            let mut names: Vec<&'a str> = Vec::new();
            names.push(s.as_str());
            assert(str_views(names@) =~= seq![s@]);
            Ok(named_roots(ctx.crates, &names, false))
        },
        Some(other) => Err(Error::TomlError(TomlError::TypeMismatch("workspace.default-build".to_string(), TomlValueType::Array, other.ty()))),
        None => {
            let entries = &ctx.crates.entries;
            let mut roots: Vec<Root<'a>> = Vec::new();
            let mut i: usize = 0;
            assert(root_views(roots@) =~= Seq::<Seq<char>>::empty());
            assert(entries@.subrange(0, 0).len() == 0);
            while i < entries.len()
                invariant
                    i <= entries@.len(),
                    entries@ == ctx.crates.entries@,
                    default_build(match ctx.workspace { Some(w) => Some(*w), None => None }) is None,
                    ctx.args.crates@.len() == 0,
                    declared_crates(entries@.subrange(0, i as int)) == Ok::<Seq<Seq<char>>, TomlValueType>(root_views(roots@)),
                    forall|j: int| 0 <= j < roots@.len() ==> !(#[trigger] roots@[j]).from_cli
                        && root_table_model(roots@[j]) == root_table_spec(*ctx.crates, roots@[j].name@),
                decreases entries@.len() - i,
            {
                let ghost sub = entries@.subrange(0, i + 1);
                assert(sub.drop_last() =~= entries@.subrange(0, i as int));
                assert(sub.last() == entries@[i as int]);
                let entry = &entries[i];
                match entry.1.as_table() {
                    Some(_) => {
                        let ghost before = roots@;
                        let name = entry.0.as_str();
                        roots.push(Root { name, table: crate_table(ctx.crates, name), from_cli: false });
                        assert(root_views(roots@) =~= root_views(before).push(entry.0@));
                    },
                    None => {
                        assert(declared_crates(sub) == Err::<Seq<Seq<char>>, TomlValueType>(type_of(entry.1)));
                        proof { lemma_declared_err_extends(entries@, i + 1); }
                        return Err(Error::TomlError(TomlError::ChildTypeMismatch("crates".to_string(), TomlValueType::Table, entry.1.ty())));
                    },
                }
                i = i + 1;
            }
            assert(entries@.subrange(0, entries@.len() as int) =~= entries@);
            Ok(roots)
        },
    }
}

proof fn lemma_declared_err_extends(entries: Seq<(String, TomlValue)>, k: int)
    requires
        0 <= k <= entries.len(),
        declared_crates(entries.subrange(0, k)) is Err,
    ensures
        declared_crates(entries) == declared_crates(entries.subrange(0, k)),
    decreases entries.len() - k,
{
    if k < entries.len() {
        assert(entries.subrange(0, k + 1).drop_last() =~= entries.subrange(0, k));
        lemma_declared_err_extends(entries, k + 1);
    } else {
        assert(entries.subrange(0, k) =~= entries);
    }
}

/// Whether an error reports a crate that depends on itself.
pub open spec fn is_cycle(e: Error) -> bool {
    e matches Error::BuildError(BuildError::CyclicDependency(_))
}

/// Where a post-build script is looked for.
#[derive(Debug, PartialEq)]
pub enum HookPath {
    /// The crate's `postbuild` setting, relative to the workspace root.
    Custom(String),
    /// `postbuild.rs` in the crate's directory, whose path relative to the
    /// workspace root is stored.
    Default(String),
}

impl HookPath {
    /// A copy of this path.
    pub fn copy(&self) -> (r: HookPath)
        ensures
            hook_model(r) == hook_model(*self),
    {
        match self {
            HookPath::Custom(s) => HookPath::Custom(s.clone()),
            HookPath::Default(s) => HookPath::Default(s.clone()),
        }
    }
}

/// The model of a hook path: whether it is custom, and its text.
pub open spec fn hook_model(h: HookPath) -> (bool, Seq<char>) {
    match h {
        HookPath::Custom(s) => (true, s@),
        HookPath::Default(s) => (false, s@),
    }
}

/// The post-build script of a crate: its `postbuild` setting, which must be a
/// string, else `postbuild.rs` in its directory.
pub open spec fn hook_spec(postbuild: Option<TomlValue>, dir: Seq<char>) -> Result<(bool, Seq<char>), Fault> {
    match postbuild {
        None => Ok((false, dir)),
        Some(TomlValue::String(s)) => Ok((true, s@)),
        Some(other) => Err((false, TomlValueType::String, type_of(other))),
    }
}

/// Finds where a crate's post-build script is looked for.
pub fn hook_path(pkg: &Crate) -> (r: Result<HookPath, Error>)
    ensures
        match hook_spec(setting(*pkg.table, pkg.spec_workspace(), "postbuild"@), pkg.path@) {
            Ok(h) => r is Ok && hook_model(r->Ok_0) == h,
            Err(f) => r is Err && is_fault(r->Err_0, "postbuild"@, f),
        },
{
    match pkg.get("postbuild") {
        None => Ok(HookPath::Default(pkg.path.clone())),
        Some(v) => match v.as_string() {
            Some(s) => Ok(HookPath::Custom(s.to_string())),
            None => Err(Error::TomlError(TomlError::TypeMismatch("postbuild".to_string(), TomlValueType::String, v.ty()))),
        },
    }
}

/// The values of a list setting of a prebuild entry: a string or an array of strings.
pub open spec fn override_spec(v: Option<TomlValue>) -> Result<Seq<Seq<char>>, Fault> {
    match v {
        None => Ok(Seq::empty()),
        Some(TomlValue::String(s)) => Ok(seq![s@]),
        Some(TomlValue::Array(vals)) => match string_items(vals@) {
            Ok(items) => Ok(items),
            Err(t) => Err((true, TomlValueType::String, t)),
        },
        Some(other) => Err((false, TomlValueType::String, type_of(other))),
    }
}

/// Reads a list setting of a prebuild entry; errors name it by `label`.
fn override_list<'a>(over: &'a TomlTable, key: &str, label: &str) -> (r: Result<Vec<&'a str>, Error>)
    ensures
        match override_spec(lookup(over.entries@, key@)) {
            Ok(vals) => r is Ok && str_views(r->Ok_0@) == vals,
            Err(f) => r is Err && is_fault(r->Err_0, label@, f),
        },
{
    match over.get(key) {
        None => {
            let v: Vec<&'a str> = Vec::new();
            assert(str_views(v@) =~= Seq::<Seq<char>>::empty());
            Ok(v)
        },
        Some(TomlValue::String(s)) => {
            let mut v: Vec<&'a str> = Vec::new();
            v.push(s.as_str());
            assert(str_views(v@) =~= seq![s@]);
            Ok(v)
        },
        Some(TomlValue::Array(vals)) => match collect_strings(vals) {
            Ok(v) => Ok(v),
            Err(t) => Err(Error::TomlError(TomlError::ChildTypeMismatch(label.to_string(), TomlValueType::String, t))),
        },
        Some(other) => Err(Error::TomlError(TomlError::TypeMismatch(label.to_string(), TomlValueType::String, other.ty()))),
    }
}

/// The features and targets that a `prebuild` entry asks for, if it is a
/// table whose `features` and `targets` are strings or arrays of strings.
pub open spec fn entry_overrides(over: TomlValue) -> Result<(Seq<Seq<char>>, Seq<Seq<char>>), ()> {
    match over {
        TomlValue::Table(o) => match override_spec(lookup(o.entries@, "features"@)) {
            Ok(f) => match override_spec(lookup(o.entries@, "targets"@)) {
                Ok(t) => Ok((f, t)),
                Err(_) => Err(()),
            },
            Err(_) => Err(()),
        },
        _ => Err(()),
    }
}

/// Resolves an entry of a crate's `prebuild` table: the crate it names and
/// the features and targets it asks for.
fn prebuild_entry<'a>(
    crates: &'a TomlTable,
    dependent: &str,
    name: &'a str,
    overrides: &'a TomlValue,
) -> (r: Result<(&'a TomlTable, PrebuildMetadata<'a>), Error>)
    ensures
        match lookup(crates.entries@, name@) {
            Some(TomlValue::Table(t)) => match entry_overrides(*overrides) {
                Ok((f, g)) => r is Ok && *r->Ok_0.0 == t && str_views(r->Ok_0.1.features@) == f
                    && str_views(r->Ok_0.1.targets@) == g,
                Err(_) => r is Err && !is_cycle(r->Err_0),
            },
            _ => r matches Err(Error::BuildError(BuildError::UnknownCrate(UnknownCrateSource::Prebuild(d), n)))
                && d@ == dependent@ && n@ == name@,
        },
{
    let Some(table) = crate_table(crates, name) else {
        return Err(Error::BuildError(BuildError::UnknownCrate(
            UnknownCrateSource::Prebuild(dependent.to_string()),
            name.to_string(),
        )));
    };
    let Some(over) = overrides.as_table() else {
        return Err(Error::TomlError(TomlError::ChildTypeMismatch("prebuild".to_string(), TomlValueType::Table, overrides.ty())));
    };
    let features = override_list(over, "features", "prebuild.features")?;
    let targets = override_list(over, "targets", "prebuild.targets")?;
    Ok((table, PrebuildMetadata { features, targets }))
}

/// What the driver of a build does next.
#[derive(Debug)]
pub enum Action {
    /// Read and parse the `Cargo.toml` of crate `name`, in directory `dir`
    /// relative to the workspace root; answer with `Event::Manifest`.
    LoadManifest { name: String, dir: String },
    /// Run Cargo; answer with `Event::Finished`.
    RunCargo(Invocation),
    /// Look for a post-build script; answer with `Event::HookFound` or
    /// `Event::HookMissing`.
    FindHook(HookPath),
    /// Run the post-build script, from the workspace root, with the profile
    /// `release` or `debug`; answer with `Event::Finished`.
    RunHook { path: HookPath, release: bool },
    /// Every crate was built.
    Done,
    /// The build stopped on an error.
    Failed(Error),
}

/// The outcome of an action.
#[derive(Debug)]
pub enum Event {
    /// Begins the build.
    Start,
    /// What was found at a crate's `Cargo.toml`.
    Manifest(Manifest),
    /// Whether a process ran and exited with success.
    Finished(bool),
    /// The post-build script exists.
    HookFound,
    /// The post-build script does not exist. Stores the path searched.
    HookMissing(String),
}

/// The kind of event a build expects next.
#[derive(Clone, Copy, Debug, PartialEq, Eq, Structural)]
pub enum Waiting {
    Start,
    Manifest,
    Cargo,
    HookSearch,
    Hook,
    Nothing,
}

/// Whether an event answers what is awaited.
pub open spec fn accepts(w: Waiting, e: Event) -> bool {
    match w {
        Waiting::Start => e is Start,
        Waiting::Manifest => e is Manifest,
        Waiting::Cargo => e is Finished,
        Waiting::HookSearch => e is HookFound || e is HookMissing,
        Waiting::Hook => e is Finished,
        Waiting::Nothing => false,
    }
}

/// What an action awaits.
pub open spec fn awaited(a: Action) -> Waiting {
    match a {
        Action::LoadManifest { .. } => Waiting::Manifest,
        Action::RunCargo(_) => Waiting::Cargo,
        Action::FindHook(_) => Waiting::HookSearch,
        Action::RunHook { .. } => Waiting::Hook,
        Action::Done => Waiting::Nothing,
        Action::Failed(_) => Waiting::Nothing,
    }
}

#[derive(Clone, Copy, PartialEq, Eq, Structural)]
enum Stage {
    Loading,
    Prebuilds,
    Building,
    HookSearch,
    Hook,
    Finished,
}

/// A crate on the way: loaded or not, with its prebuilds, invocations and
/// post-build script in progress.
struct Frame<'a> {
    name: &'a str,
    table: &'a TomlTable,
    overrides: Option<PrebuildMetadata<'a>>,
    krate: Option<Crate<'a>>,
    prebuilds: Option<&'a TomlTable>,
    next_prebuild: usize,
    invocations: Vec<Invocation>,
    next_invocation: usize,
    hook: Option<HookPath>,
    stage: Stage,
}

/// The `workspace` table of a context.
pub open spec fn ctx_workspace(ctx: Ctx) -> Option<TomlTable> {
    match ctx.workspace {
        Some(w) => Some(*w),
        None => None,
    }
}

/// The features a frame's prebuild entry asks for.
spec fn over_features(f: Frame) -> Seq<Seq<char>> {
    match f.overrides {
        Some(m) => str_views(m.features@),
        None => Seq::empty(),
    }
}

/// The targets a frame's prebuild entry asks for.
spec fn over_targets(f: Frame) -> Seq<Seq<char>> {
    match f.overrides {
        Some(m) => str_views(m.targets@),
        None => Seq::empty(),
    }
}

/// The plan of a frame's crate.
spec fn plan_of(ctx: Ctx, f: Frame) -> Result<Seq<InvocationModel>, (Seq<char>, Fault)> {
    crate_plan(*f.table, ctx_workspace(ctx), ctx.target_dir@, ctx.args.release, over_features(f),
        over_targets(f), str_views(ctx.args.features@), str_views(ctx.args.targets@))
}

/// The post-build script of a frame's crate.
spec fn hook_of(ctx: Ctx, f: Frame) -> Result<(bool, Seq<char>), Fault> {
    hook_spec(setting(*f.table, ctx_workspace(ctx), "postbuild"@), crate_dir(*f.table, f.name@)->Ok_0)
}

spec fn hook_view(f: Frame) -> (bool, Seq<char>) {
    match f.hook {
        Some(h) => hook_model(h),
        None => (false, Seq::empty()),
    }
}

spec fn entries_of(f: Frame) -> Seq<(String, TomlValue)> {
    match f.prebuilds {
        Some(p) => p.entries@,
        None => Seq::empty(),
    }
}

spec fn past_prebuilds(s: Stage) -> bool {
    s == Stage::Building || s == Stage::HookSearch || s == Stage::Hook || s == Stage::Finished
}

spec fn frame_ok(ctx: Ctx, f: Frame) -> bool {
    &&& f.next_invocation <= f.invocations@.len()
    &&& f.stage != Stage::Loading ==> (f.krate matches Some(c) && *c.table == *f.table
        && c.spec_workspace() == ctx_workspace(ctx) && crate_dir(*f.table, f.name@) == Ok::<Seq<char>, Fault>(c.path@))
    &&& past_prebuilds(f.stage) ==> plan_of(ctx, f) == Ok::<Seq<InvocationModel>, (Seq<char>, Fault)>(invocation_models(f.invocations@))
    &&& (f.stage == Stage::HookSearch || f.stage == Stage::Hook) ==> f.hook is Some && hook_of(ctx, f) == Ok::<(bool, Seq<char>), Fault>(hook_view(f))
}

/// Opening crate `name`, with settings `table`: its `Cargo.toml` is asked
/// for, in its directory.
pub open spec fn opens(r: Action, name: Seq<char>, table: TomlTable) -> bool {
    match crate_dir(table, name) {
        Ok(d) => r matches Action::LoadManifest { name: n, dir } && n@ == name && dir@ == d,
        Err(f) => r matches Action::Failed(e) && is_fault(e, "path"@, f),
    }
}

/// Opening the prebuild entry `key = over` of crate `dependent`.
pub open spec fn opens_prebuild(r: Action, crates: TomlTable, dependent: Seq<char>, key: Seq<char>, over: TomlValue) -> bool {
    match lookup(crates.entries@, key) {
        Some(TomlValue::Table(t)) => match entry_overrides(over) {
            Ok(_) => opens(r, key, t),
            Err(_) => r matches Action::Failed(e) && !is_cycle(e),
        },
        _ => r matches Action::Failed(Error::BuildError(BuildError::UnknownCrate(UnknownCrateSource::Prebuild(d), n)))
            && d@ == dependent && n@ == key,
    }
}

/// Issuing the first invocation of a plan.
pub open spec fn issues_plan(r: Action, p: Result<Seq<InvocationModel>, (Seq<char>, Fault)>) -> bool {
    match p {
        Ok(invs) => invs.len() > 0 && (r matches Action::RunCargo(inv) && invocation_model(inv) == invs[0]),
        Err((key, f)) => r matches Action::Failed(e) && is_fault(e, key, f),
    }
}

/// Looking for a post-build script.
pub open spec fn issues_hook(r: Action, h: Result<(bool, Seq<char>), Fault>) -> bool {
    match h {
        Ok(m) => r matches Action::FindHook(x) && hook_model(x) == m,
        Err(f) => r matches Action::Failed(e) && is_fault(e, "postbuild"@, f),
    }
}

/// The entries of a `prebuild` setting.
pub open spec fn prebuild_entries(v: Option<TomlValue>) -> Seq<(String, TomlValue)> {
    match v {
        Some(TomlValue::Table(t)) => t.entries@,
        _ => Seq::empty(),
    }
}

/// The names of the loaded frames, outermost first.
spec fn loaded_names(frames: Seq<Frame>) -> Seq<Seq<char>>
    decreases frames.len(),
{
    if frames.len() == 0 {
        Seq::empty()
    } else if frames.last().stage == Stage::Loading {
        loaded_names(frames.drop_last())
    } else {
        loaded_names(frames.drop_last()).push(frames.last().name@)
    }
}

proof fn lemma_loaded_push(frames: Seq<Frame>, f: Frame)
    ensures
        loaded_names(frames.push(f)) == if f.stage == Stage::Loading {
            loaded_names(frames)
        } else {
            loaded_names(frames).push(f.name@)
        },
{
    assert(frames.push(f).drop_last() =~= frames);
}

proof fn lemma_loaded_split(frames: Seq<Frame>)
    requires
        frames.len() > 0,
    ensures
        frames =~= frames.subrange(0, frames.len() - 1).push(frames.last()),
        loaded_names(frames) == if frames.last().stage == Stage::Loading {
            loaded_names(frames.subrange(0, frames.len() - 1))
        } else {
            loaded_names(frames.subrange(0, frames.len() - 1)).push(frames.last().name@)
        },
{
    lemma_loaded_push(frames.subrange(0, frames.len() - 1), frames.last());
    assert(frames.subrange(0, frames.len() - 1).push(frames.last()) =~= frames);
}

/// Whether no name occurs twice.
pub open spec fn distinct(s: Seq<Seq<char>>) -> bool {
    forall|i: int, j: int| 0 <= i < j < s.len() ==> s[i] != s[j]
}

proof fn lemma_without_absent(s: Seq<Seq<char>>, x: Seq<char>)
    requires
        !holds(s, x),
    ensures
        without(s, x) == s,
    decreases s.len(),
{
    if s.len() > 0 {
        assert(!holds(s.drop_last(), x)) by {
            if holds(s.drop_last(), x) {
                let i = choose|i: int| 0 <= i < s.drop_last().len() && s.drop_last()[i] == x;
                assert(s[i] == x);
            }
        }
        lemma_without_absent(s.drop_last(), x);
        assert(s.last() != x) by {
            if s.last() == x {
                assert(s[s.len() - 1] == x);
            }
        }
        assert(s.drop_last().push(s.last()) =~= s);
    }
}

proof fn lemma_distinct_prefix(s: Seq<Seq<char>>, x: Seq<char>)
    requires
        distinct(s.push(x)),
    ensures
        distinct(s),
        !holds(s, x),
{
    assert forall|i: int, j: int| 0 <= i < j < s.len() implies s[i] != s[j] by {
        assert(s.push(x)[i] == s[i] && s.push(x)[j] == s[j]);
    }
    if holds(s, x) {
        let i = choose|i: int| 0 <= i < s.len() && s[i] == x;
        assert(s.push(x)[i] == s.push(x)[s.len() as int]);
    }
}

proof fn lemma_distinct_push(s: Seq<Seq<char>>, x: Seq<char>)
    requires
        distinct(s),
        !holds(s, x),
    ensures
        distinct(s.push(x)),
{
    assert forall|i: int, j: int| 0 <= i < j < s.push(x).len() implies s.push(x)[i] != s.push(x)[j] by {
        if j == s.len() {
            assert(s[i] != x);
        }
    }
}

/// A build in progress.
pub struct Build<'a> {
    ctx: &'a Ctx<'a>,
    roots: Vec<Root<'a>>,
    next_root: usize,
    stack: Vec<Frame<'a>>,
    in_progress: Vec<String>,
    completed: Vec<String>,
    waiting: Waiting,
}

impl<'a> Build<'a> {
    /// The kind of event expected next.
    pub closed spec fn waiting_for(&self) -> Waiting {
        self.waiting
    }

    /// The crates being built, outermost first.
    pub closed spec fn in_progress_names(&self) -> Seq<Seq<char>> {
        views(self.in_progress@)
    }

    /// The crates built so far, in the order they completed.
    pub closed spec fn completed_names(&self) -> Seq<Seq<char>> {
        views(self.completed@)
    }

    /// The context of the build.
    pub closed spec fn context(&self) -> Ctx {
        *self.ctx
    }

    /// Whether the build is in release mode.
    pub open spec fn release_mode(&self) -> bool {
        self.context().args.release
    }

    /// The `crates` table.
    pub open spec fn crates_table(&self) -> TomlTable {
        *self.context().crates
    }

    /// The number of crates to build at the top level.
    pub closed spec fn root_count(&self) -> int {
        self.roots@.len() as int
    }

    /// The name of the `i`-th top-level crate.
    pub closed spec fn root_name(&self, i: int) -> Seq<char> {
        self.roots@[i].name@
    }

    /// The settings of the `i`-th top-level crate, if it exists.
    pub closed spec fn root_table(&self, i: int) -> Option<TomlTable> {
        root_table_model(self.roots@[i])
    }

    /// Whether the `i`-th top-level crate was named on the command line.
    pub closed spec fn root_from_cli(&self, i: int) -> bool {
        self.roots@[i].from_cli
    }

    /// How many top-level crates were started.
    pub closed spec fn next_root_index(&self) -> int {
        self.next_root as int
    }

    /// How many crates are on the way: the top-level one and its prebuilds.
    pub closed spec fn depth(&self) -> int {
        self.stack@.len() as int
    }

    /// The name of the `j`-th crate on the way, outermost first.
    pub closed spec fn frame_name(&self, j: int) -> Seq<char> {
        self.stack@[j].name@
    }

    /// The settings of the `j`-th crate on the way.
    pub closed spec fn frame_table(&self, j: int) -> TomlTable {
        *self.stack@[j].table
    }

    /// The features and targets the prebuild entry of the `j`-th crate on the way asks for.
    pub closed spec fn frame_overrides(&self, j: int) -> (Seq<Seq<char>>, Seq<Seq<char>>) {
        (over_features(self.stack@[j]), over_targets(self.stack@[j]))
    }

    /// The `prebuild` entries of the `j`-th crate on the way.
    pub closed spec fn frame_entries(&self, j: int) -> Seq<(String, TomlValue)> {
        entries_of(self.stack@[j])
    }

    /// How many prebuild entries of the `j`-th crate on the way were started.
    pub closed spec fn frame_next_prebuild(&self, j: int) -> int {
        self.stack@[j].next_prebuild as int
    }

    /// The invocations planned for the `j`-th crate on the way.
    pub closed spec fn frame_planned(&self, j: int) -> Seq<InvocationModel> {
        invocation_models(self.stack@[j].invocations@)
    }

    /// How many planned invocations of the `j`-th crate on the way were issued.
    pub closed spec fn frame_next_invocation(&self, j: int) -> int {
        self.stack@[j].next_invocation as int
    }

    /// The post-build script of the `j`-th crate on the way, once known.
    pub closed spec fn frame_hook(&self, j: int) -> (bool, Seq<char>) {
        hook_view(self.stack@[j])
    }

    /// The plan of a crate with settings `table`, given the features and
    /// targets its prebuild entry asks for.
    pub open spec fn plan_for(&self, table: TomlTable, over: (Seq<Seq<char>>, Seq<Seq<char>>)) -> Result<Seq<InvocationModel>, (Seq<char>, Fault)> {
        crate_plan(table, ctx_workspace(self.context()), self.context().target_dir@, self.release_mode(),
            over.0, over.1, str_views(self.context().args.features@), str_views(self.context().args.targets@))
    }

    /// The plan of the `j`-th crate on the way.
    pub open spec fn frame_plan(&self, j: int) -> Result<Seq<InvocationModel>, (Seq<char>, Fault)> {
        self.plan_for(self.frame_table(j), self.frame_overrides(j))
    }

    /// The post-build script of the `j`-th crate on the way, from its settings.
    pub open spec fn frame_hook_spec(&self, j: int) -> Result<(bool, Seq<char>), Fault> {
        hook_spec(setting(self.frame_table(j), ctx_workspace(self.context()), "postbuild"@),
            crate_dir(self.frame_table(j), self.frame_name(j))->Ok_0)
    }

    /// What the build does for the `j`-th crate on the way once `k` of its
    /// prebuild entries were started: start entry `k`, else issue its plan.
    pub open spec fn continues(&self, r: Action, j: int, k: int) -> bool {
        let entries = self.frame_entries(j);
        if k < entries.len() {
            opens_prebuild(r, self.crates_table(), self.frame_name(j), entries[k].0@, entries[k].1)
        } else {
            issues_plan(r, self.frame_plan(j))
        }
    }

    /// What the build does when no crate is on the way: start the next
    /// top-level crate, or end.
    pub open spec fn opens_root(&self, r: Action) -> bool {
        let i = self.next_root_index();
        if i >= self.root_count() {
            r is Done
        } else {
            match self.root_table(i) {
                Some(t) => opens(r, self.root_name(i), t),
                None => r matches Action::Failed(Error::BuildError(BuildError::UnknownCrate(src, n)))
                    && n@ == self.root_name(i)
                    && (if self.root_from_cli(i) { src is CliArg } else { src is DefaultBuild }),
            }
        }
    }

    /// What the build does once the innermost crate on the way is built:
    /// go on with the crate that depends on it, else with the next top-level crate.
    pub open spec fn moves_on(&self, r: Action) -> bool {
        let n = self.depth();
        if n <= 1 {
            self.opens_root(r)
        } else {
            self.continues(r, n - 2, self.frame_next_prebuild(n - 2))
        }
    }

    closed spec fn frames_ok(&self) -> bool {
        let n = self.stack@.len();
        &&& self.next_root <= self.roots@.len()
        &&& forall|j: int| 0 <= j < n ==> frame_ok(*self.ctx, #[trigger] self.stack@[j])
        &&& forall|j: int| 0 <= j < n - 1 ==> (#[trigger] self.stack@[j]).stage == Stage::Prebuilds
        &&& views(self.in_progress@) == loaded_names(self.stack@)
        &&& distinct(views(self.in_progress@))
    }

    /// The internal consistency of a build that goes on.
    pub closed spec fn wf(&self) -> bool {
        let n = self.stack@.len();
        self.waiting == Waiting::Nothing || {
            &&& self.frames_ok()
            &&& self.waiting == Waiting::Start ==> n == 0 && self.next_root == 0
            &&& self.waiting == Waiting::Manifest ==> n > 0 && self.stack@[n - 1].stage == Stage::Loading
            &&& self.waiting == Waiting::Cargo ==> n > 0 && self.stack@[n - 1].stage == Stage::Building
                && self.stack@[n - 1].next_invocation < self.stack@[n - 1].invocations@.len()
            &&& self.waiting == Waiting::HookSearch ==> n > 0 && self.stack@[n - 1].stage == Stage::HookSearch
            &&& self.waiting == Waiting::Hook ==> n > 0 && self.stack@[n - 1].stage == Stage::Hook
            &&& (self.waiting != Waiting::Manifest && n > 0) ==> self.stack@[n - 1].stage != Stage::Loading
        }
    }

    /// The facts about the innermost crate on the way that the awaited event relies on.
    pub open spec fn pending(&self) -> bool {
        let top = self.depth() - 1;
        &&& self.waiting_for() != Waiting::Nothing && self.waiting_for() != Waiting::Start ==> self.depth() > 0
        &&& self.waiting_for() == Waiting::Cargo ==> self.frame_plan(top) == Ok::<Seq<InvocationModel>, (Seq<char>, Fault)>(self.frame_planned(top))
            && 0 <= self.frame_next_invocation(top) < self.frame_planned(top).len()
        &&& (self.waiting_for() == Waiting::HookSearch || self.waiting_for() == Waiting::Hook)
            ==> self.frame_hook_spec(top) == Ok::<(bool, Seq<char>), Fault>(self.frame_hook(top))
        &&& self.waiting_for() == Waiting::Start ==> self.depth() == 0 && self.next_root_index() == 0
        &&& self.waiting_for() != Waiting::Nothing ==> distinct(self.in_progress_names())
    }

    proof fn lemma_pending(&self)
        requires
            self.wf(),
        ensures
            self.pending(),
    {
        let n = self.stack@.len();
        if self.waiting != Waiting::Nothing && n > 0 {
            assert(frame_ok(*self.ctx, self.stack@[n - 1]));
        }
    }

    /// Starts a build of the crates that the command line and the settings ask for.
    pub fn new(ctx: &'a Ctx<'a>) -> (r: Result<Build<'a>, Error>)
        ensures
            match root_names(str_views(ctx.args.crates@), ctx_workspace(*ctx), *ctx.crates) {
                Ok(names) => r is Ok && ({
                    let b = r->Ok_0;
                    &&& b.wf()
                    &&& b.waiting_for() == Waiting::Start
                    &&& b.context() == *ctx
                    &&& b.in_progress_names().len() == 0
                    &&& b.completed_names().len() == 0
                    &&& b.depth() == 0
                    &&& b.next_root_index() == 0
                    &&& b.root_count() == names.len()
                    &&& forall|i: int| 0 <= i < names.len() ==> b.root_name(i) == names[i]
                        && b.root_table(i) == root_table_spec(*ctx.crates, names[i])
                        && b.root_from_cli(i) == (ctx.args.crates@.len() > 0)
                }),
                Err((key, f)) => r is Err && is_fault(r->Err_0, key, f),
            },
    {
        let roots = roots(ctx)?;
        let b = Build {
            ctx,
            roots,
            next_root: 0,
            stack: Vec::new(),
            in_progress: Vec::new(),
            completed: Vec::new(),
            waiting: Waiting::Start,
        };
        assert(views(b.in_progress@) =~= Seq::<Seq<char>>::empty());
        assert(views(b.completed@) =~= Seq::<Seq<char>>::empty());
        assert(loaded_names(b.stack@) =~= Seq::<Seq<char>>::empty());
        assert forall|i: int| 0 <= i < b.roots@.len() implies b.root_name(i) == root_views(b.roots@)[i] by {}
        Ok(b)
    }

    /// The crates being built, outermost first.
    pub fn in_progress(&self) -> (r: &Vec<String>)
        ensures
            views(r@) == self.in_progress_names(),
    {
        &self.in_progress
    }

    /// The crates built so far, in the order they completed.
    pub fn completed(&self) -> (r: &Vec<String>)
        ensures
            views(r@) == self.completed_names(),
    {
        &self.completed
    }

    /// Stops the build: every crate on the way leaves the in-progress set.
    fn fail(&mut self, e: Error) -> (r: Action)
        ensures
            final(self).wf(),
            r == Action::Failed(e),
            final(self).waiting_for() == Waiting::Nothing,
            final(self).in_progress_names().len() == 0,
            final(self).completed_names() == old(self).completed_names(),
            final(self).ctx == old(self).ctx,
    {
        self.in_progress = Vec::new();
        assert(views(self.in_progress@) =~= Seq::<Seq<char>>::empty());
        self.waiting = Waiting::Nothing;
        Action::Failed(e)
    }

    /// Puts a crate on the way and asks for its `Cargo.toml`.
    fn open_frame(&mut self, name: &'a str, table: &'a TomlTable, overrides: Option<PrebuildMetadata<'a>>) -> (r: Action)
        requires
            old(self).frames_ok(),
            old(self).stack@.len() > 0 ==> old(self).stack@.last().stage == Stage::Prebuilds,
        ensures
            final(self).wf(),
            final(self).waiting_for() == awaited(r),
            final(self).completed_names() == old(self).completed_names(),
            final(self).ctx == old(self).ctx,
            opens(r, name@, *table),
            r is Failed ==> final(self).in_progress_names().len() == 0,
            r is LoadManifest ==> final(self).depth() == old(self).depth() + 1
                && final(self).frame_name(old(self).depth()) == name@
                && final(self).frame_table(old(self).depth()) == *table
                && final(self).frame_overrides(old(self).depth()) == match overrides {
                    Some(m) => (str_views(m.features@), str_views(m.targets@)),
                    None => (Seq::<Seq<char>>::empty(), Seq::<Seq<char>>::empty()),
                },
    {
        let dir = match Crate::dir(table, name) {
            Ok(d) => d,
            Err(e) => {
                return self.fail(e);
            },
        };
        let ghost before_push = self.stack@;
        self.stack.push(Frame {
            name,
            table,
            overrides,
            krate: None,
            prebuilds: None,
            next_prebuild: 0,
            invocations: Vec::new(),
            next_invocation: 0,
            hook: None,
            stage: Stage::Loading,
        });
        proof { lemma_loaded_push(before_push, self.stack@.last()); }
        self.waiting = Waiting::Manifest;
        Action::LoadManifest { name: name.to_string(), dir }
    }

    /// Starts the next top-level crate, or ends the build.
    fn start_root(&mut self) -> (r: Action)
        requires
            old(self).frames_ok(),
            old(self).stack@.len() == 0,
        ensures
            final(self).wf(),
            final(self).waiting_for() == awaited(r),
            final(self).completed_names() == old(self).completed_names(),
            final(self).ctx == old(self).ctx,
            old(self).opens_root(r),
            (r is Failed || r is Done) ==> final(self).in_progress_names().len() == 0,
    {
        if self.next_root >= self.roots.len() {
            assert(loaded_names(self.stack@) =~= Seq::<Seq<char>>::empty());
            self.waiting = Waiting::Nothing;
            return Action::Done;
        }
        let name = self.roots[self.next_root].name;
        let table = self.roots[self.next_root].table;
        let from_cli = self.roots[self.next_root].from_cli;
        self.next_root = self.next_root + 1;
        match table {
            Some(t) => self.open_frame(name, t, None),
            None => {
                let source = if from_cli { UnknownCrateSource::CliArg } else { UnknownCrateSource::DefaultBuild };
                self.fail(Error::BuildError(BuildError::UnknownCrate(source, name.to_string())))
            },
        }
    }

    /// Goes on with the prebuilds of the innermost crate: starts the next
    /// one, or, when all are built, plans its invocations and issues the first.
    fn continue_prebuilds(&mut self) -> (r: Action)
        requires
            old(self).frames_ok(),
            old(self).stack@.len() > 0,
            old(self).stack@.last().stage == Stage::Prebuilds,
        ensures
            final(self).wf(),
            final(self).waiting_for() == awaited(r),
            final(self).completed_names() == old(self).completed_names(),
            final(self).ctx == old(self).ctx,
            old(self).continues(r, old(self).depth() - 1, old(self).frame_next_prebuild(old(self).depth() - 1)),
            r is Failed ==> final(self).in_progress_names().len() == 0,
            ({
                let top = old(self).depth() - 1;
                let k = old(self).frame_next_prebuild(top);
                let entries = old(self).frame_entries(top);
                r is LoadManifest && 0 <= k < entries.len() ==> final(self).depth() == old(self).depth() + 1
                    && final(self).frame_overrides(top + 1) == entry_overrides(entries[k].1)->Ok_0
            }),
    {
        let ghost old_stack = self.stack@;
        let n = self.stack.len();
        let mut frame = self.stack.pop().unwrap();
        assert(frame == old_stack[n - 1]);
        proof { lemma_loaded_split(old_stack); }
        assert(frame_ok(*self.ctx, frame));
        let next = match frame.prebuilds {
            Some(p) => if frame.next_prebuild < p.entries.len() {
                Some(&p.entries[frame.next_prebuild])
            } else {
                None
            },
            None => None,
        };
        match next {
            Some(entry) => {
                let dependent = frame.name;
                frame.next_prebuild = frame.next_prebuild + 1;
                let ghost before_push = self.stack@;
                self.stack.push(frame);
                proof { lemma_loaded_push(before_push, self.stack@.last()); }
                assert(self.stack@ =~= old_stack.subrange(0, n - 1).push(frame));
                match prebuild_entry(self.ctx.crates, dependent, entry.0.as_str(), &entry.1) {
                    Ok((table, meta)) => self.open_frame(entry.0.as_str(), table, Some(meta)),
                    Err(e) => self.fail(e),
                }
            },
            None => {
                let planned = match CargoCommand::new(frame.krate.as_ref().unwrap()) {
                    Ok(cmd) => plan(
                        &cmd,
                        self.ctx.target_dir.as_str(),
                        self.ctx.args.release,
                        &self.ctx.args.features,
                        &self.ctx.args.targets,
                        &frame.overrides,
                    ),
                    Err(e) => Err(e),
                };
                match planned {
                    Ok(invs) => {
                        frame.invocations = invs;
                        frame.next_invocation = 0;
                        frame.stage = Stage::Building;
                        let ghost before_push = self.stack@;
                        self.stack.push(frame);
                        proof { lemma_loaded_push(before_push, self.stack@.last()); }
                        self.continue_building()
                    },
                    Err(e) => self.fail(e),
                }
            },
        }
    }
}

impl<'a> Build<'a> {
    /// Goes on with the invocations of the innermost crate: issues the next
    /// one, or, when all were issued, looks for its post-build script.
    fn continue_building(&mut self) -> (r: Action)
        requires
            old(self).frames_ok(),
            old(self).stack@.len() > 0,
            old(self).stack@.last().stage == Stage::Building,
        ensures
            final(self).wf(),
            final(self).waiting_for() == awaited(r),
            final(self).completed_names() == old(self).completed_names(),
            final(self).ctx == old(self).ctx,
            ({
                let top = old(self).depth() - 1;
                let k = old(self).frame_next_invocation(top);
                let p = old(self).frame_planned(top);
                &&& k < p.len() ==> (r matches Action::RunCargo(inv) && invocation_model(inv) == p[k])
                &&& k >= p.len() ==> issues_hook(r, old(self).frame_hook_spec(top))
            }),
            r is Failed ==> final(self).in_progress_names().len() == 0,
    {
        let ghost old_stack = self.stack@;
        let n = self.stack.len();
        let mut frame = self.stack.pop().unwrap();
        assert(frame == old_stack[n - 1]);
        proof { lemma_loaded_split(old_stack); }
        assert(frame_ok(*self.ctx, frame));
        if frame.next_invocation < frame.invocations.len() {
            let inv = frame.invocations[frame.next_invocation].copy();
            assert(invocation_models(frame.invocations@)[frame.next_invocation as int] == invocation_model(frame.invocations@[frame.next_invocation as int]));
            let ghost before_push = self.stack@;
            self.stack.push(frame);
            proof { lemma_loaded_push(before_push, self.stack@.last()); }
            self.waiting = Waiting::Cargo;
            return Action::RunCargo(inv);
        }
        match hook_path(frame.krate.as_ref().unwrap()) {
            Ok(h) => {
                let found = h.copy();
                frame.hook = Some(h);
                frame.stage = Stage::HookSearch;
                let ghost before_push = self.stack@;
                self.stack.push(frame);
                proof { lemma_loaded_push(before_push, self.stack@.last()); }
                self.waiting = Waiting::HookSearch;
                Action::FindHook(found)
            },
            Err(e) => self.fail(e),
        }
    }

    /// Closes the innermost crate, which is built, and moves on.
    fn finish_top(&mut self) -> (r: Action)
        requires
            old(self).frames_ok(),
            old(self).stack@.len() > 0,
            old(self).stack@.last().stage == Stage::Finished,
        ensures
            final(self).wf(),
            final(self).waiting_for() == awaited(r),
            final(self).completed_names() == old(self).completed_names().push(old(self).frame_name(old(self).depth() - 1)),
            grows(old(self).completed_names(), final(self).completed_names()),
            final(self).ctx == old(self).ctx,
            old(self).moves_on(r),
            (r is Failed || r is Done) ==> final(self).in_progress_names().len() == 0,
    {
        let ghost old_stack = self.stack@;
        let n = self.stack.len();
        let frame = self.stack.pop().unwrap();
        assert(frame == old_stack[n - 1]);
        proof {
            lemma_loaded_split(old_stack);
            let rest = loaded_names(old_stack.subrange(0, n - 1));
            lemma_distinct_prefix(rest, frame.name@);
            assert(rest.push(frame.name@).drop_last() =~= rest);
            lemma_without_absent(rest, frame.name@);
        }
        leave(&mut self.in_progress, frame.name);
        let ghost before = self.completed@;
        self.completed.push(frame.name.to_string());
        assert(views(self.completed@) =~= views(before).push(frame.name@));
        proof {
            lemma_grows_refl(views(before));
            lemma_grows_push(views(before), views(before), frame.name@);
        }
        assert(self.stack@ =~= old_stack.subrange(0, n - 1));
        if self.stack.len() == 0 {
            self.start_root()
        } else {
            assert(self.stack@.last() == old_stack[n - 2]);
            self.continue_prebuilds()
        }
    }
}

impl<'a> Build<'a> {
    /// Takes the outcome of the last action and gives the next action.
    ///
    /// The build starts the top-level crates in turn. A crate's `Cargo.toml`
    /// is loaded and checked; a crate that is still being built when it is
    /// loaded again depends on itself, and the build fails before anything
    /// runs for it. Then the crate's prebuilds are built, in the order of its
    /// `prebuild` table, then its planned invocations are issued in order,
    /// then its post-build script is looked for and run. Any failure stops
    /// the build and empties the in-progress set.
    pub fn next(&mut self, event: Event) -> (r: Action)
        requires
            old(self).wf(),
            accepts(old(self).waiting_for(), event),
        ensures
            final(self).wf(),
            final(self).pending(),
            final(self).waiting_for() == awaited(r),
            final(self).context() == old(self).context(),
            grows(old(self).completed_names(), final(self).completed_names()),
            r is Failed || r is Done ==> final(self).in_progress_names().len() == 0,
            old(self).waiting_for() == Waiting::Start ==> old(self).opens_root(r),
            ({
                let top = old(self).depth() - 1;
                let name = old(self).frame_name(top);
                let table = old(self).frame_table(top);
                let pb = setting(table, ctx_workspace(old(self).context()), "prebuild"@);
                let entries = prebuild_entries(pb);
                event matches Event::Manifest(m) ==> {
                    &&& !loads(table, name, m) ==> (r matches Action::Failed(e) && load_error(e, table, name, m))
                    &&& loads(table, name, m) && holds(old(self).in_progress_names(), name)
                        ==> (r matches Action::Failed(Error::BuildError(BuildError::CyclicDependency(n))) && n@ == name)
                    &&& loads(table, name, m) && !holds(old(self).in_progress_names(), name) ==> {
                        &&& (pb matches Some(v) && !(v is Table)) ==> (r matches Action::Failed(e)
                            && is_fault(e, "prebuild"@, (false, TomlValueType::Table, type_of(pb->0))))
                        &&& (pb is None || pb->0 is Table) ==> if entries.len() > 0 {
                            opens_prebuild(r, old(self).crates_table(), name, entries[0].0@, entries[0].1)
                                && (r is LoadManifest ==> final(self).depth() == old(self).depth() + 1
                                && final(self).frame_overrides(top + 1) == entry_overrides(entries[0].1)->Ok_0)
                        } else {
                            issues_plan(r, old(self).plan_for(table, old(self).frame_overrides(top)))
                        }
                    }
                }
            }),
            ({
                let top = old(self).depth() - 1;
                let k = old(self).frame_next_invocation(top);
                let p = old(self).frame_planned(top);
                &&& old(self).waiting_for() == Waiting::Cargo && event == Event::Finished(false)
                    ==> r == Action::Failed(Error::BuildError(BuildError::CargoFailed))
                &&& old(self).waiting_for() == Waiting::Cargo && event == Event::Finished(true) ==> {
                    &&& k + 1 < p.len() ==> (r matches Action::RunCargo(inv) && invocation_model(inv) == p[k + 1])
                    &&& k + 1 >= p.len() ==> issues_hook(r, old(self).frame_hook_spec(top))
                }
                &&& old(self).waiting_for() == Waiting::HookSearch && event is HookFound
                    ==> (r matches Action::RunHook { path, release } && hook_model(path) == old(self).frame_hook(top)
                    && release == old(self).release_mode())
                &&& old(self).waiting_for() == Waiting::HookSearch ==> (event matches Event::HookMissing(searched)
                    ==> if old(self).frame_hook(top).0 {
                        (r matches Action::Failed(Error::BuildError(BuildError::PostBuildNotFound(n, q)))
                            && n@ == old(self).frame_name(top) && q == searched)
                    } else {
                        final(self).completed_names() == old(self).completed_names().push(old(self).frame_name(top))
                            && old(self).moves_on(r)
                    })
                &&& old(self).waiting_for() == Waiting::Hook && event == Event::Finished(false)
                    ==> r == Action::Failed(Error::BuildError(BuildError::PostBuildFailed))
                &&& old(self).waiting_for() == Waiting::Hook && event == Event::Finished(true)
                    ==> final(self).completed_names() == old(self).completed_names().push(old(self).frame_name(top))
                    && old(self).moves_on(r)
            }),
    {
        proof {
            lemma_grows_refl(self.completed_names());
        }
        let r = match event {
            Event::Start => self.start_root(),
            Event::Manifest(m) => {
                let ghost old_stack = self.stack@;
                let n = self.stack.len();
                let mut frame = self.stack.pop().unwrap();
                assert(frame == old_stack[n - 1]);
                proof { lemma_loaded_split(old_stack); }
                let krate = match Crate::new(frame.table, self.ctx.workspace, frame.name, &m) {
                    Ok(c) => c,
                    Err(e) => {
                        return self.fail(e);
                    },
                };
                let ghost before_enter = views(self.in_progress@);
                if let Err(e) = enter(&mut self.in_progress, frame.name) {
                    return self.fail(e);
                }
                proof { lemma_distinct_push(before_enter, frame.name@); }
                let prebuilds = match krate.get("prebuild") {
                    None => None,
                    Some(v) => match v.as_table() {
                        Some(t) => Some(t),
                        None => {
                            return self.fail(Error::TomlError(TomlError::TypeMismatch("prebuild".to_string(), TomlValueType::Table, v.ty())));
                        },
                    },
                };
                frame.krate = Some(krate);
                frame.prebuilds = prebuilds;
                frame.next_prebuild = 0;
                frame.stage = Stage::Prebuilds;
                let ghost before_push = self.stack@;
                self.stack.push(frame);
                proof { lemma_loaded_push(before_push, self.stack@.last()); }
                self.continue_prebuilds()
            },
            Event::Finished(ok) => {
                let ghost old_stack = self.stack@;
                let n = self.stack.len();
                let mut frame = self.stack.pop().unwrap();
                assert(frame == old_stack[n - 1]);
                proof { lemma_loaded_split(old_stack); }
                if self.waiting == Waiting::Cargo {
                    if !ok {
                        return self.fail(Error::BuildError(BuildError::CargoFailed));
                    }
                    let total = frame.invocations.len();
                    assert(frame.next_invocation < total);
                    frame.next_invocation = frame.next_invocation + 1;
                    let ghost before_push = self.stack@;
                    self.stack.push(frame);
                    proof { lemma_loaded_push(before_push, self.stack@.last()); }
                    self.continue_building()
                } else {
                    if !ok {
                        return self.fail(Error::BuildError(BuildError::PostBuildFailed));
                    }
                    frame.stage = Stage::Finished;
                    let ghost before_push = self.stack@;
                    self.stack.push(frame);
                    proof { lemma_loaded_push(before_push, self.stack@.last()); }
                    self.finish_top()
                }
            },
            Event::HookFound => {
                let ghost old_stack = self.stack@;
                let n = self.stack.len();
                let mut frame = self.stack.pop().unwrap();
                assert(frame == old_stack[n - 1]);
                proof { lemma_loaded_split(old_stack); }
                let path = frame.hook.as_ref().unwrap().copy();
                frame.stage = Stage::Hook;
                let ghost before_push = self.stack@;
                self.stack.push(frame);
                proof { lemma_loaded_push(before_push, self.stack@.last()); }
                self.waiting = Waiting::Hook;
                Action::RunHook { path, release: self.ctx.args.release }
            },
            Event::HookMissing(searched) => {
                let ghost old_stack = self.stack@;
                let n = self.stack.len();
                let mut frame = self.stack.pop().unwrap();
                assert(frame == old_stack[n - 1]);
                proof { lemma_loaded_split(old_stack); }
                if let Some(HookPath::Custom(_)) = &frame.hook {
                    return self.fail(Error::BuildError(BuildError::PostBuildNotFound(frame.name.to_string(), searched)));
                }
                frame.stage = Stage::Finished;
                let ghost before_push = self.stack@;
                self.stack.push(frame);
                proof { lemma_loaded_push(before_push, self.stack@.last()); }
                self.finish_top()
            },
        };
        proof { self.lemma_pending(); }
        r
    }
}

/// The `workspace` and `crates` tables of a parsed `bargo.toml`, as
/// `config_tables` finds them.
pub open spec fn config_spec(cfg: TomlTable) -> Result<(Option<TomlTable>, TomlTable), Option<(Seq<char>, TomlValueType)>> {
    match lookup(cfg.entries@, "workspace"@) {
        Some(TomlValue::Table(w)) => crates_spec(cfg, Some(w)),
        None => crates_spec(cfg, None),
        Some(other) => Err(Some(("workspace"@, type_of(other)))),
    }
}

/// The `crates` table, which must hold at least one crate; `Err(None)` when
/// there is none.
pub open spec fn crates_spec(cfg: TomlTable, w: Option<TomlTable>) -> Result<(Option<TomlTable>, TomlTable), Option<(Seq<char>, TomlValueType)>> {
    match lookup(cfg.entries@, "crates"@) {
        Some(TomlValue::Table(c)) => if c.entries@.len() > 0 { Ok((w, c)) } else { Err(None) },
        None => Err(None),
        Some(other) => Err(Some(("crates"@, type_of(other)))),
    }
}

/// Finds the `workspace` table, if any, and the `crates` table of a parsed
/// `bargo.toml`. Both must be tables, and `crates` must not be empty.
pub fn config_tables<'a>(cfg: &'a TomlTable) -> (r: Result<(Option<&'a TomlTable>, &'a TomlTable), Error>)
    ensures
        match config_spec(*cfg) {
            Ok((w, c)) => r is Ok && *r->Ok_0.1 == c && match r->Ok_0.0 {
                Some(x) => w == Some(*x),
                None => w is None,
            },
            Err(None) => r == Err::<(Option<&TomlTable>, &TomlTable), Error>(Error::NoCrates),
            Err(Some((key, t))) => r is Err && is_fault(r->Err_0, key, (false, TomlValueType::Table, t)),
        },
{
    let workspace = match cfg.get("workspace") {
        None => None,
        Some(v) => match v.as_table() {
            Some(t) => Some(t),
            None => {
                return Err(Error::TomlError(TomlError::TypeMismatch("workspace".to_string(), TomlValueType::Table, v.ty())));
            },
        },
    };
    let crates = match cfg.get("crates") {
        None => {
            return Err(Error::NoCrates);
        },
        Some(v) => match v.as_table() {
            Some(t) => t,
            None => {
                return Err(Error::TomlError(TomlError::TypeMismatch("crates".to_string(), TomlValueType::Table, v.ty())));
            },
        },
    };
    if crates.len() == 0 {
        return Err(Error::NoCrates);
    }
    Ok((workspace, crates))
}

} // verus!
