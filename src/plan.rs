//! The Cargo invocations a crate's build issues.

use vstd::prelude::*;

use crate::cargo::{
    collect_strings, direct_setting, unstable_setting, str_views, string_items, views, CargoCommand, Crate, Fault, is_fault, setting,
};
use crate::output::{Error, TomlError};
use crate::text::str_eq;
use crate::value::{type_of, TomlTable, TomlValue, TomlValueType};

verus! {

/// Features and targets that a dependent crate's `prebuild` entry asks for.
#[derive(Debug)]
pub struct PrebuildMetadata<'a> {
    pub features: Vec<&'a str>,
    pub targets: Vec<&'a str>,
}

/// How a target is handed to Cargo.
#[derive(Debug, PartialEq)]
pub enum TargetArg {
    /// A target that Cargo knows by name.
    Name(String),
    /// A target description file, relative to the workspace root.
    File(String),
}

/// One run of `cargo`, in a crate's directory.
#[derive(Debug)]
pub struct Invocation {
    /// The crate's directory, relative to the workspace root.
    pub dir: String,
    /// The arguments, without the target.
    pub args: Vec<String>,
    /// The target, if one is asked for.
    pub target: Option<TargetArg>,
}

/// The model of an invocation: its arguments, and its target, if any, as
/// whether it names a file and its text.
pub type InvocationModel = (Seq<Seq<char>>, Option<(bool, Seq<char>)>);

/// Whether `s` holds `pat` somewhere.
pub open spec fn contains(s: Seq<char>, pat: Seq<char>) -> bool {
    exists|i: int| 0 <= i && i + pat.len() <= s.len() && #[trigger] s.subrange(i, i + pat.len()) == pat
}

/// Whether `s` holds `pat` somewhere.
pub fn str_contains(s: &str, pat: &str) -> (r: bool)
    ensures
        r == contains(s@, pat@),
{
    let n = s.unicode_len();
    let m = pat.unicode_len();
    if m > n {
        return false;
    }
    let mut i: usize = 0;
    loop
        invariant
            m <= n,
            n == s@.len(),
            m == pat@.len(),
            i <= n - m,
            forall|j: int| 0 <= j < i ==> #[trigger] s@.subrange(j, j + m) != pat@,
        decreases n - m - i,
    {
        if str_eq(s.substring_char(i, i + m), pat) {
            return true;
        }
        if i == n - m {
            proof {
                assert forall|j: int| 0 <= j && j + pat@.len() <= s@.len() implies #[trigger] s@.subrange(j, j + pat@.len()) != pat@ by {
                    if j < i {
                    } else {
                        assert(j == i);
                    }
                }
            }
            return false;
        }
        i = i + 1;
    }
}

/// A target in the model of invocations: whether it names a file, and its text.
pub open spec fn target_model(t: Seq<char>) -> (bool, Seq<char>) {
    (contains(t, ".json"@), t)
}

/// The model of a target argument.
pub open spec fn target_arg_model(t: TargetArg) -> (bool, Seq<char>) {
    match t {
        TargetArg::Name(s) => (false, s@),
        TargetArg::File(s) => (true, s@),
    }
}

/// The model of an invocation: its arguments and its target.
pub open spec fn invocation_model(inv: Invocation) -> (Seq<Seq<char>>, Option<(bool, Seq<char>)>) {
    (views(inv.args@), match inv.target {
        Some(t) => Some(target_arg_model(t)),
        None => None,
    })
}

/// The models of a list of invocations.
pub open spec fn invocation_models(invs: Seq<Invocation>) -> Seq<(Seq<Seq<char>>, Option<(bool, Seq<char>)>)> {
    invs.map_values(|inv: Invocation| invocation_model(inv))
}

/// A list of the override if it is not empty, else the fallback.
pub open spec fn prefer(over: Seq<Seq<char>>, fallback: Seq<Seq<char>>) -> Seq<Seq<char>> {
    if over.len() > 0 { over } else { fallback }
}

/// The targets of a crate's own `target` setting.
pub open spec fn target_setting(v: Option<TomlValue>) -> Result<Seq<Seq<char>>, Fault> {
    match v {
        None => Ok(Seq::empty()),
        Some(TomlValue::String(s)) => Ok(seq![s@]),
        Some(TomlValue::Array(vals)) => match string_items(vals@) {
            Ok(items) => Ok(items),
            Err(t) => Err((true, TomlValueType::String, t)),
        },
        Some(other) => Err((true, TomlValueType::String, type_of(other))),
    }
}

/// The targets to build for: those of the prebuild entry, else those asked
/// for on the command line, else the crate's own.
pub open spec fn effective_targets(
    over: Seq<Seq<char>>,
    global: Seq<Seq<char>>,
    own: Option<TomlValue>,
) -> Result<Seq<Seq<char>>, Fault> {
    if over.len() > 0 {
        Ok(over)
    } else if global.len() > 0 {
        Ok(global)
    } else {
        target_setting(own)
    }
}

/// The arguments shared by all the invocations of a crate's build.
pub open spec fn cargo_args(
    unstable: Seq<Seq<char>>,
    direct: Seq<Seq<char>>,
    target_dir: Seq<char>,
    release: bool,
    features: Seq<Seq<char>>,
) -> Seq<Seq<char>> {
    (if unstable.len() > 0 { seq!["+nightly"@] } else { Seq::empty() }) + seq!["build"@, "--target-dir"@, target_dir]
        + unstable + direct + (if release { seq!["--release"@] } else { Seq::empty() })
        + (if features.len() > 0 { seq!["--features"@] + features } else { Seq::empty() })
}

/// The invocations for a list of targets: one without a target if the list
/// is empty, else one per target, all with the same arguments.
pub open spec fn fan_out(args: Seq<Seq<char>>, targets: Seq<Seq<char>>) -> Seq<(Seq<Seq<char>>, Option<(bool, Seq<char>)>)> {
    if targets.len() == 0 {
        seq![(args, None)]
    } else {
        targets.map_values(|t: Seq<char>| (args, Some(target_model(t))))
    }
}

/// The invocations of a crate's build.
pub open spec fn plan_spec(
    unstable: Seq<Seq<char>>,
    direct: Seq<Seq<char>>,
    target_dir: Seq<char>,
    release: bool,
    over_features: Seq<Seq<char>>,
    over_targets: Seq<Seq<char>>,
    global_features: Seq<Seq<char>>,
    global_targets: Seq<Seq<char>>,
    own_targets: Option<TomlValue>,
) -> Result<Seq<(Seq<Seq<char>>, Option<(bool, Seq<char>)>)>, Fault> {
    match effective_targets(over_targets, global_targets, own_targets) {
        Err(f) => Err(f),
        Ok(targets) => Ok(fan_out(
            cargo_args(unstable, direct, target_dir, release, prefer(over_features, global_features)),
            targets,
        )),
    }
}

/// Copies a list of strings.
pub fn copy_strings(v: &Vec<String>) -> (r: Vec<String>)
    ensures
        views(r@) == views(v@),
{
    let mut out: Vec<String> = Vec::new();
    let mut i: usize = 0;
    while i < v.len()
        invariant
            i <= v@.len(),
            views(out@) == views(v@.subrange(0, i as int)),
        decreases v@.len() - i,
    {
        let ghost before = out@;
        out.push(v[i].clone());
        assert(views(out@) =~= views(before).push(v@[i as int]@));
        assert(views(v@.subrange(0, i + 1)) =~= views(v@.subrange(0, i as int)).push(v@[i as int]@));
        i = i + 1;
    }
    assert(v@.subrange(0, v@.len() as int) =~= v@);
    out
}

/// Appends copies of string slices to a list of strings.
fn push_all(out: &mut Vec<String>, items: &Vec<&str>)
    ensures
        views(final(out)@) == views(old(out)@) + str_views(items@),
{
    let mut i: usize = 0;
    while i < items.len()
        invariant
            i <= items@.len(),
            views(out@) == views(old(out)@) + str_views(items@.subrange(0, i as int)),
        decreases items@.len() - i,
    {
        let ghost before = out@;
        out.push(items[i].to_string());
        assert(views(out@) =~= views(before).push(items@[i as int]@));
        assert(str_views(items@.subrange(0, i + 1)) =~= str_views(items@.subrange(0, i as int)).push(items@[i as int]@));
        i = i + 1;
    }
    assert(items@.subrange(0, items@.len() as int) =~= items@);
}

/// Builds the target argument for a target: a file path if it names a
/// `.json` target description, else a name.
fn target_arg(t: &str) -> (r: TargetArg)
    ensures
        target_arg_model(r) == target_model(t@),
{
    if str_contains(t, ".json") {
        TargetArg::File(t.to_string())
    } else {
        TargetArg::Name(t.to_string())
    }
}

/// Plans the invocations of a crate's build: the arguments of its settings,
/// the features and targets by precedence, and one invocation per target.
pub fn plan<'a>(
    cmd: &CargoCommand<'a>,
    target_dir: &str,
    release: bool,
    global_features: &Vec<&str>,
    global_targets: &Vec<&str>,
    overrides: &Option<PrebuildMetadata>,
) -> (r: Result<Vec<Invocation>, Error>)
    ensures
        ({
            let over_f = match overrides { Some(m) => str_views(m.features@), None => Seq::empty() };
            let over_t = match overrides { Some(m) => str_views(m.targets@), None => Seq::empty() };
            let p = plan_spec(
                views(cmd.unstable_features@),
                str_views(cmd.direct_arguments@),
                target_dir@,
                release,
                over_f,
                over_t,
                str_views(global_features@),
                str_views(global_targets@),
                setting(*cmd.pkg.table, cmd.pkg.spec_workspace(), "target"@),
            );
            match p {
                Ok(invs) => r is Ok && invocation_models(r->Ok_0@) == invs
                    && forall|i: int| 0 <= i < r->Ok_0@.len() ==> (#[trigger] r->Ok_0@[i]).dir@ == cmd.pkg.path@,
                Err(f) => r is Err && is_fault(r->Err_0, "target"@, f),
            }
        }),
        r is Ok ==> r->Ok_0@.len() > 0,
{
    let ghost over_f = match overrides { Some(m) => str_views(m.features@), None => Seq::empty() };
    let ghost over_t = match overrides { Some(m) => str_views(m.targets@), None => Seq::empty() };
    let empty: Vec<&str> = Vec::new();
    assert(str_views(empty@) =~= Seq::<Seq<char>>::empty());
    let (over_features, over_targets) = match overrides {
        Some(m) => (&m.features, &m.targets),
        None => (&empty, &empty),
    };
    let features = if over_features.len() > 0 { over_features } else { global_features };
    let ghost fs = prefer(over_f, str_views(global_features@));
    assert(str_views(features@) == fs);
    let ghost unstable = views(cmd.unstable_features@);
    let mut args: Vec<String> = Vec::new();
    if cmd.is_unstable() {
        args.push(String::from_str("+nightly"));
    }
    let ghost a0 = views(args@);
    assert(a0 =~= (if unstable.len() > 0 { seq!["+nightly"@] } else { Seq::<Seq<char>>::empty() }));
    args.push(String::from_str("build"));
    args.push(String::from_str("--target-dir"));
    args.push(target_dir.to_string());
    let ghost a1 = views(args@);
    assert(a1 =~= a0 + seq!["build"@, "--target-dir"@, target_dir@]);
    let mut copied = copy_strings(&cmd.unstable_features);
    let ghost before = args@;
    let ghost appended = copied@;
    args.append(&mut copied);
    assert(views(args@) =~= views(before) + views(appended));
    push_all(&mut args, &cmd.direct_arguments);
    let ghost a2 = views(args@);
    assert(a2 =~= a1 + unstable + str_views(cmd.direct_arguments@));
    if release {
        args.push(String::from_str("--release"));
    }
    let ghost a3 = views(args@);
    assert(a3 =~= a2 + (if release { seq!["--release"@] } else { Seq::<Seq<char>>::empty() }));
    if features.len() > 0 {
        args.push(String::from_str("--features"));
        push_all(&mut args, features);
    }
    assert(views(args@) =~= a3 + (if fs.len() > 0 { seq!["--features"@] + fs } else { Seq::<Seq<char>>::empty() }));
    assert(views(args@) =~= cargo_args(
        views(cmd.unstable_features@),
        str_views(cmd.direct_arguments@),
        target_dir@,
        release,
        fs,
    ));
    let own = cmd.pkg.get("target");
    let mut own_list: Vec<&str> = Vec::new();
    let targets: &Vec<&str> = if over_targets.len() > 0 {
        over_targets
    } else if global_targets.len() > 0 {
        global_targets
    } else {
        match own {
            None => &own_list,
            Some(TomlValue::String(s)) => {
                own_list.push(s.as_str());
                assert(str_views(own_list@) =~= seq![s@]);
                &own_list
            },
            Some(TomlValue::Array(vals)) => match collect_strings(vals) {
                Ok(items) => {
                    own_list = items;
                    &own_list
                },
                Err(t) => {
                    return Err(Error::TomlError(TomlError::ChildTypeMismatch("target".to_string(), TomlValueType::String, t)));
                },
            },
            Some(other) => {
                return Err(Error::TomlError(TomlError::ChildTypeMismatch("target".to_string(), TomlValueType::String, other.ty())));
            },
        }
    };
    assert(effective_targets(over_t, str_views(global_targets@), setting(*cmd.pkg.table, cmd.pkg.spec_workspace(), "target"@))
        == Ok::<Seq<Seq<char>>, Fault>(str_views(targets@)));
    let mut invs: Vec<Invocation> = Vec::new();
    if targets.len() == 0 {
        invs.push(Invocation { dir: cmd.pkg.path.clone(), args, target: None });
        assert(invocation_models(invs@) =~= fan_out(views(args@), str_views(targets@)));
        return Ok(invs);
    }
    let ghost expected = fan_out(views(args@), str_views(targets@));
    let mut i: usize = 0;
    while i < targets.len()
        invariant
            i <= targets@.len(),
            targets@.len() > 0,
            expected == fan_out(views(args@), str_views(targets@)),
            invocation_models(invs@) == expected.subrange(0, i as int),
            forall|j: int| 0 <= j < invs@.len() ==> (#[trigger] invs@[j]).dir@ == cmd.pkg.path@,
        decreases targets@.len() - i,
    {
        let ghost before = invs@;
        let inv = Invocation { dir: cmd.pkg.path.clone(), args: copy_strings(&args), target: Some(target_arg(targets[i])) };
        invs.push(inv);
        assert(invocation_models(invs@) =~= invocation_models(before).push(invocation_model(inv)));
        assert(expected.subrange(0, i + 1) =~= expected.subrange(0, i as int).push(expected[i as int]));
        i = i + 1;
    }
    assert(expected.subrange(0, targets@.len() as int) =~= expected);
    Ok(invs)
}

/// A crate with no target asked for by a prebuild entry, on the command line
/// or in its own settings is built by exactly one invocation, without a target.
pub proof fn lemma_single_invocation(
    unstable: Seq<Seq<char>>,
    direct: Seq<Seq<char>>,
    target_dir: Seq<char>,
    release: bool,
    over_features: Seq<Seq<char>>,
    global_features: Seq<Seq<char>>,
)
    ensures
        ({
            let p = plan_spec(unstable, direct, target_dir, release, over_features, Seq::empty(),
                global_features, Seq::empty(), None);
            &&& p is Ok
            &&& p->Ok_0.len() == 1
            &&& p->Ok_0[0].1 is None
        }),
{
}

/// A crate whose own `target` setting lists `n` targets, with none asked for by
/// a prebuild entry or on the command line, is built by exactly `n`
/// invocations, one per target in order, all with the same arguments.
pub proof fn lemma_one_invocation_per_target(
    unstable: Seq<Seq<char>>,
    direct: Seq<Seq<char>>,
    target_dir: Seq<char>,
    release: bool,
    over_features: Seq<Seq<char>>,
    global_features: Seq<Seq<char>>,
    own: Vec<TomlValue>,
)
    requires
        string_items(own@) is Ok,
        own@.len() > 0,
    ensures
        ({
            let p = plan_spec(unstable, direct, target_dir, release, over_features, Seq::empty(),
                global_features, Seq::empty(), Some(TomlValue::Array(own)));
            let targets = string_items(own@)->Ok_0;
            &&& p is Ok
            &&& p->Ok_0.len() == own@.len()
            &&& forall|i: int| 0 <= i < own@.len() ==> (#[trigger] p->Ok_0[i]).0 == p->Ok_0[0].0
                && p->Ok_0[i].1 == Some(target_model(targets[i]))
        }),
{
    lemma_string_items_len(own@);
}

proof fn lemma_string_items_len(vals: Seq<TomlValue>)
    requires
        string_items(vals) is Ok,
    ensures
        string_items(vals)->Ok_0.len() == vals.len(),
    decreases vals.len(),
{
    if vals.len() > 0 {
        lemma_string_items_len(vals.drop_last());
    }
}

/// Overrides take strict precedence: the features and targets of a prebuild
/// entry win over those asked for on the command line, which win over the
/// crate's own `target` setting.
pub proof fn lemma_override_precedence(
    unstable: Seq<Seq<char>>,
    direct: Seq<Seq<char>>,
    target_dir: Seq<char>,
    release: bool,
    over_features: Seq<Seq<char>>,
    over_targets: Seq<Seq<char>>,
    global_features: Seq<Seq<char>>,
    global_targets: Seq<Seq<char>>,
    own: Option<TomlValue>,
)
    ensures
        ({
            let p = plan_spec(unstable, direct, target_dir, release, over_features, over_targets,
                global_features, global_targets, own);
            let with_features = |f: Seq<Seq<char>>| cargo_args(unstable, direct, target_dir, release, f);
            &&& over_features.len() > 0 ==> p is Ok ==> forall|i: int| 0 <= i < p->Ok_0.len()
                ==> (#[trigger] p->Ok_0[i]).0 == with_features(over_features)
            &&& over_features.len() == 0 ==> p is Ok ==> forall|i: int| 0 <= i < p->Ok_0.len()
                ==> (#[trigger] p->Ok_0[i]).0 == with_features(global_features)
            &&& over_targets.len() > 0 ==> p == Ok::<_, Fault>(fan_out(with_features(prefer(over_features, global_features)), over_targets))
            &&& over_targets.len() == 0 && global_targets.len() > 0 ==> p == Ok::<_, Fault>(fan_out(with_features(prefer(over_features, global_features)), global_targets))
            &&& over_targets.len() == 0 && global_targets.len() == 0 ==> p == match target_setting(own) {
                Ok(t) => Ok(fan_out(with_features(prefer(over_features, global_features)), t)),
                Err(f) => Err(f),
            }
        }),
{
}

impl TargetArg {
    /// A copy of this target.
    pub fn copy(&self) -> (r: TargetArg)
        ensures
            target_arg_model(r) == target_arg_model(*self),
    {
        match self {
            TargetArg::Name(s) => TargetArg::Name(s.clone()),
            TargetArg::File(s) => TargetArg::File(s.clone()),
        }
    }
}

impl Invocation {
    /// A copy of this invocation.
    pub fn copy(&self) -> (r: Invocation)
        ensures
            invocation_model(r) == invocation_model(*self),
            r.dir@ == self.dir@,
    {
        let target = match &self.target {
            Some(t) => Some(t.copy()),
            None => None,
        };
        Invocation { dir: self.dir.clone(), args: copy_strings(&self.args), target }
    }
}

/// The invocations of a crate's build, from its settings (its own, else the
/// workspace's) and the features and targets asked for; an error names the
/// setting at fault.
pub open spec fn crate_plan(
    table: TomlTable,
    workspace: Option<TomlTable>,
    target_dir: Seq<char>,
    release: bool,
    over_features: Seq<Seq<char>>,
    over_targets: Seq<Seq<char>>,
    global_features: Seq<Seq<char>>,
    global_targets: Seq<Seq<char>>,
) -> Result<Seq<InvocationModel>, (Seq<char>, Fault)> {
    match unstable_setting(setting(table, workspace, "unstable"@)) {
        Err(f) => Err(("unstable"@, f)),
        Ok(unstable) => match direct_setting(setting(table, workspace, "direct-arg"@)) {
            Err(f) => Err(("direct-arg"@, f)),
            Ok(direct) => match plan_spec(unstable, direct, target_dir, release, over_features,
                over_targets, global_features, global_targets, setting(table, workspace, "target"@)) {
                Ok(invs) => Ok(invs),
                Err(f) => Err(("target"@, f)),
            },
        },
    }
}

} // verus!
