//! Crates of the workspace, and the Cargo arguments their settings ask for.

use vstd::prelude::*;

use crate::output::{BuildError, Error, SyntaxError, TomlError};
use crate::text::str_eq;
use crate::value::{lookup, type_of, TomlTable, TomlValue, TomlValueType};

verus! {

/// What was found at the place of a crate's `Cargo.toml`.
#[derive(Debug)]
pub enum Manifest {
    /// No file. Stores the path searched.
    NotFound(String),
    /// The file is not valid TOML. Stores the error and the file's text.
    Invalid(SyntaxError, String),
    /// The file's top-level table.
    Parsed(TomlTable),
}

/// A crate of the workspace: its settings, the workspace's settings it falls
/// back on, its name, and its directory relative to the workspace root.
pub struct Crate<'a> {
    /// The crate's settings in `bargo.toml`.
    pub table: &'a TomlTable,
    /// The `workspace` table of `bargo.toml`.
    pub workspace: Option<&'a TomlTable>,
    /// The crate's name.
    pub name: &'a str,
    /// The crate's directory, relative to the workspace root.
    pub path: String,
}

/// A description of a type mismatch: whether it concerns a child of the key,
/// the kind expected and the kind found.
pub type Fault = (bool, TomlValueType, TomlValueType);

/// Whether `e` is the type-mismatch error that `f` describes, for `key`.
pub open spec fn is_fault(e: Error, key: Seq<char>, f: Fault) -> bool {
    match e {
        Error::TomlError(TomlError::TypeMismatch(k, x, y)) => !f.0 && k@ == key && x == f.1 && y == f.2,
        Error::TomlError(TomlError::ChildTypeMismatch(k, x, y)) => f.0 && k@ == key && x == f.1 && y
            == f.2,
        _ => false,
    }
}

/// Whether `e` reports a missing key `key` that should hold a `ty`.
pub open spec fn is_missing_key_in_manifest(e: Error, name: Seq<char>, key: Seq<char>, ty: TomlValueType) -> bool {
    match e {
        Error::BuildError(BuildError::InvalidCargoToml(n, TomlError::MissingKey(k, t))) => n@ == name
            && k@ == key && t == ty,
        _ => false,
    }
}

/// The strings of a list of values, or the kind of the first value that is no string.
pub open spec fn string_items(vals: Seq<TomlValue>) -> Result<Seq<Seq<char>>, TomlValueType>
    decreases vals.len(),
{
    if vals.len() == 0 {
        Ok(Seq::empty())
    } else {
        match string_items(vals.drop_last()) {
            Err(t) => Err(t),
            Ok(items) => match vals.last() {
                TomlValue::String(s) => Ok(items.push(s@)),
                other => Err(type_of(other)),
            },
        }
    }
}

/// Strings joined with commas between them.
pub open spec fn comma_join(parts: Seq<Seq<char>>) -> Seq<char>
    decreases parts.len(),
{
    if parts.len() == 0 {
        Seq::empty()
    } else if parts.len() == 1 {
        parts[0]
    } else {
        comma_join(parts.drop_last()) + ","@ + parts.last()
    }
}

/// The flag that one entry of the `unstable` table asks for, if any.
pub open spec fn unstable_entry(name: Seq<char>, v: TomlValue) -> Result<Option<Seq<char>>, Fault> {
    match v {
        TomlValue::Boolean(b) => Ok(if b { Some("-Z"@ + name) } else { None }),
        TomlValue::String(s) => Ok(Some("-Z"@ + name + "="@ + s@)),
        TomlValue::Array(vals) => match string_items(vals@) {
            Ok(items) => Ok(Some("-Z"@ + name + "="@ + comma_join(items))),
            Err(t) => Err((true, TomlValueType::String, t)),
        },
        other => Err((false, TomlValueType::String, type_of(other))),
    }
}

/// The flags that the entries of an `unstable` table ask for, in order.
pub open spec fn unstable_flags(entries: Seq<(String, TomlValue)>) -> Result<Seq<Seq<char>>, Fault>
    decreases entries.len(),
{
    if entries.len() == 0 {
        Ok(Seq::empty())
    } else {
        match unstable_flags(entries.drop_last()) {
            Err(f) => Err(f),
            Ok(flags) => match unstable_entry(entries.last().0@, entries.last().1) {
                Err(f) => Err(f),
                Ok(Some(flag)) => Ok(flags.push(flag)),
                Ok(None) => Ok(flags),
            },
        }
    }
}

/// The flags that an `unstable` setting asks for.
pub open spec fn unstable_setting(v: Option<TomlValue>) -> Result<Seq<Seq<char>>, Fault> {
    match v {
        None => Ok(Seq::empty()),
        Some(TomlValue::Table(t)) => unstable_flags(t.entries@),
        Some(other) => Err((false, TomlValueType::Table, type_of(other))),
    }
}

/// The arguments that a `direct-arg` setting asks for.
pub open spec fn direct_setting(v: Option<TomlValue>) -> Result<Seq<Seq<char>>, Fault> {
    match v {
        None => Ok(Seq::empty()),
        Some(TomlValue::String(s)) => Ok(seq![s@]),
        Some(TomlValue::Array(vals)) => match string_items(vals@) {
            Ok(items) => Ok(items),
            Err(t) => Err((true, TomlValueType::String, t)),
        },
        Some(other) => Err((false, TomlValueType::String, type_of(other))),
    }
}

/// The views of a list of strings.
pub open spec fn views(s: Seq<String>) -> Seq<Seq<char>> {
    s.map_values(|x: String| x@)
}

/// The views of a list of string slices.
pub open spec fn str_views(s: Seq<&str>) -> Seq<Seq<char>> {
    s.map_values(|x: &str| x@)
}

/// Collects the strings of a list of values, or reports the kind of the first
/// value that is no string.
pub fn collect_strings<'a>(vals: &'a Vec<TomlValue>) -> (r: Result<Vec<&'a str>, TomlValueType>)
    ensures
        match string_items(vals@) {
            Ok(items) => r is Ok && str_views(r->Ok_0@) == items,
            Err(t) => r == Err::<Vec<&str>, TomlValueType>(t),
        },
{
    let mut out: Vec<&'a str> = Vec::new();
    let mut i: usize = 0;
    assert(str_views(out@) =~= Seq::<Seq<char>>::empty());
    assert(vals@.subrange(0, 0).len() == 0);
    while i < vals.len()
        invariant
            i <= vals@.len(),
            string_items(vals@.subrange(0, i as int)) == Ok::<Seq<Seq<char>>, TomlValueType>(str_views(out@)),
        decreases vals@.len() - i,
    {
        assert(vals@.subrange(0, i + 1).drop_last() =~= vals@.subrange(0, i as int));
        assert(vals@.subrange(0, i + 1).last() == vals@[i as int]);
        match vals[i].as_string() {
            Some(s) => {
                let ghost before = out@;
                out.push(s);
                assert(str_views(out@) =~= str_views(before).push(s@));
            },
            None => {
                assert(string_items(vals@.subrange(0, i + 1)) is Err);
                proof { lemma_items_err_extends(vals@, i as int + 1); }
                return Err(vals[i].ty());
            },
        }
        i = i + 1;
    }
    assert(vals@.subrange(0, vals@.len() as int) =~= vals@);
    Ok(out)
}

proof fn lemma_items_err_extends(vals: Seq<TomlValue>, k: int)
    requires
        0 <= k <= vals.len(),
        string_items(vals.subrange(0, k)) is Err,
    ensures
        string_items(vals) == string_items(vals.subrange(0, k)),
    decreases vals.len() - k,
{
    if k < vals.len() {
        assert(vals.subrange(0, k + 1).drop_last() =~= vals.subrange(0, k));
        lemma_items_err_extends(vals, k + 1);
    } else {
        assert(vals.subrange(0, k) =~= vals);
    }
}

/// The value of a setting for a crate: its own, else the workspace's.
pub open spec fn setting(table: TomlTable, workspace: Option<TomlTable>, key: Seq<char>) -> Option<TomlValue> {
    match lookup(table.entries@, key) {
        Some(v) => Some(v),
        None => match workspace {
            Some(w) => lookup(w.entries@, key),
            None => None,
        },
    }
}

/// A crate's directory relative to the workspace root: its `path` setting,
/// else its name.
pub open spec fn crate_dir(table: TomlTable, name: Seq<char>) -> Result<Seq<char>, Fault> {
    match lookup(table.entries@, "path"@) {
        None => Ok(name),
        Some(TomlValue::String(p)) => Ok(p@),
        Some(other) => Err((false, TomlValueType::String, type_of(other))),
    }
}

/// The name that a parsed `Cargo.toml` declares under `package.name`, if it
/// declares one: `Err(true)` when `package` is no table, `Err(false)` when
/// `package.name` is no string.
pub open spec fn declared_name(manifest: TomlTable) -> Result<Seq<char>, bool> {
    match lookup(manifest.entries@, "package"@) {
        Some(TomlValue::Table(package)) => match lookup(package.entries@, "name"@) {
            Some(TomlValue::String(n)) => Ok(n@),
            _ => Err(false),
        },
        _ => Err(true),
    }
}

/// Whether `e` is the error that loading crate `name` ends with, given its
/// settings and what was found at its `Cargo.toml`; `None` when loading succeeds.
pub open spec fn load_error(e: Error, table: TomlTable, name: Seq<char>, manifest: Manifest) -> bool {
    match crate_dir(table, name) {
        Err(f) => is_fault(e, "path"@, f),
        Ok(_) => match manifest {
            Manifest::NotFound(p) => match e {
                Error::BuildError(BuildError::NoCargoToml(n, q)) => n@ == name && q@ == p@,
                _ => false,
            },
            Manifest::Invalid(err, src) => match e {
                Error::BuildError(BuildError::InvalidCargoToml(n, TomlError::ParseError(err2, src2))) =>
                    n@ == name && src2@ == src@ && err2.kind@ == err.kind@ && err2.start == err.start
                    && err2.end == err.end,
                _ => false,
            },
            Manifest::Parsed(m) => match declared_name(m) {
                Err(true) => is_missing_key_in_manifest(e, name, "package"@, TomlValueType::Table),
                Err(false) => is_missing_key_in_manifest(e, name, "package.name"@, TomlValueType::String),
                Ok(declared) => match e {
                    Error::BuildError(BuildError::CrateNameMismatch(a, b)) => a@ == name && b@ == declared,
                    _ => false,
                },
            },
        },
    }
}

/// Whether loading succeeds.
pub open spec fn loads(table: TomlTable, name: Seq<char>, manifest: Manifest) -> bool {
    &&& crate_dir(table, name) is Ok
    &&& manifest matches Manifest::Parsed(m) && declared_name(m) == Ok::<Seq<char>, bool>(name)
}

impl<'a> Crate<'a> {
    /// The workspace settings this crate falls back on.
    pub open spec fn spec_workspace(&self) -> Option<TomlTable> {
        match self.workspace {
            Some(w) => Some(*w),
            None => None,
        }
    }

    /// The crate's directory relative to the workspace root: its `path`
    /// setting, which must be a string, else its name.
    pub fn dir(table: &TomlTable, name: &str) -> (r: Result<String, Error>)
        ensures
            match crate_dir(*table, name@) {
                Ok(d) => r is Ok && r->Ok_0@ == d,
                Err(f) => r is Err && is_fault(r->Err_0, "path"@, f),
            },
    {
        match table.get("path") {
            None => Ok(name.to_string()),
            Some(v) => match v.as_string() {
                Some(p) => Ok(p.to_string()),
                None => Err(Error::TomlError(TomlError::TypeMismatch("path".to_string(), TomlValueType::String, v.ty()))),
            },
        }
    }

    /// Loads a crate from its settings and what was found at its `Cargo.toml`,
    /// which must declare the crate's name under `package.name`.
    pub fn new(
        table: &'a TomlTable,
        workspace: Option<&'a TomlTable>,
        name: &'a str,
        manifest: &Manifest,
    ) -> (r: Result<Crate<'a>, Error>)
        ensures
            r is Ok <==> loads(*table, name@, *manifest),
            r is Ok ==> ({
                let c = r->Ok_0;
                &&& *c.table == *table
                &&& c.name@ == name@
                &&& Ok::<Seq<char>, Fault>(c.path@) == crate_dir(*table, name@)
                &&& c.spec_workspace() == match workspace { Some(w) => Some(*w), None => None::<TomlTable> }
            }),
            r is Err ==> load_error(r->Err_0, *table, name@, *manifest),
    {
        let path = Self::dir(table, name)?;
        match manifest {
            Manifest::NotFound(p) => Err(Error::BuildError(BuildError::NoCargoToml(name.to_string(), p.clone()))),
            Manifest::Invalid(err, src) => {
                let err2 = SyntaxError { kind: err.kind.clone(), start: err.start, end: err.end };
                Err(Error::BuildError(BuildError::InvalidCargoToml(name.to_string(), TomlError::ParseError(err2, src.clone()))))
            },
            Manifest::Parsed(m) => {
                let package = match m.get("package") {
                    Some(v) => v.as_table(),
                    None => None,
                };
                let Some(package) = package else {
                    return Err(Error::BuildError(BuildError::InvalidCargoToml(
                        name.to_string(),
                        TomlError::MissingKey("package".to_string(), TomlValueType::Table),
                    )));
                };
                let declared = match package.get("name") {
                    Some(v) => v.as_string(),
                    None => None,
                };
                let Some(declared) = declared else {
                    return Err(Error::BuildError(BuildError::InvalidCargoToml(
                        name.to_string(),
                        TomlError::MissingKey("package.name".to_string(), TomlValueType::String),
                    )));
                };
                if !str_eq(declared, name) {
                    return Err(Error::BuildError(BuildError::CrateNameMismatch(name.to_string(), declared.to_string())));
                }
                Ok(Crate { table, workspace, name, path })
            },
        }
    }

    /// The value of a setting: the crate's own, else the workspace's.
    pub fn get(&self, key: &str) -> (r: Option<&'a TomlValue>)
        ensures
            r is Some <==> setting(*self.table, self.spec_workspace(), key@) is Some,
            r is Some ==> *r->0 == setting(*self.table, self.spec_workspace(), key@)->0,
            lookup(self.table.entries@, key@) is Some ==> r is Some && *r->0 == lookup(self.table.entries@, key@)->0,
    {
        match self.table.get(key) {
            Some(v) => Some(v),
            None => match self.workspace {
                Some(w) => w.get(key),
                None => None,
            },
        }
    }
}

/// The arguments of a Cargo command that a crate's settings ask for.
pub struct CargoCommand<'a> {
    /// The crate the command builds.
    pub pkg: &'a Crate<'a>,
    /// The `-Z` flags of the crate's `unstable` setting.
    pub unstable_features: Vec<String>,
    /// The crate's `direct-arg` setting.
    pub direct_arguments: Vec<&'a str>,
}

/// Builds the flag of one `unstable` entry.
fn unstable_flag(name: &str, value: &TomlValue) -> (r: Result<Option<String>, Error>)
    ensures
        match unstable_entry(name@, *value) {
            Ok(Some(flag)) => r is Ok && r->Ok_0 is Some && r->Ok_0->0@ == flag,
            Ok(None) => r is Ok && r->Ok_0 is None,
            Err(f) => r is Err && is_fault(r->Err_0, "unstable"@, f),
        },
{
    match value {
        TomlValue::Boolean(enable) => {
            if *enable {
                let mut flag = String::from_str("-Z");
                flag.append(name);
                Ok(Some(flag))
            } else {
                Ok(None)
            }
        },
        TomlValue::String(v) => {
            let mut flag = String::from_str("-Z");
            flag.append(name);
            flag.append("=");
            flag.append(v.as_str());
            Ok(Some(flag))
        },
        TomlValue::Array(vals) => {
            match collect_strings(vals) {
                Err(t) => Err(Error::TomlError(TomlError::ChildTypeMismatch("unstable".to_string(), TomlValueType::String, t))),
                Ok(items) => {
                    let mut flag = String::from_str("-Z");
                    flag.append(name);
                    flag.append("=");
                    let ghost prefix = flag@;
                    let mut i: usize = 0;
                    while i < items.len()
                        invariant
                            i <= items@.len(),
                            flag@ == prefix + comma_join(str_views(items@).subrange(0, i as int)),
                        decreases items@.len() - i,
                    {
                        let ghost parts = str_views(items@).subrange(0, i + 1);
                        assert(parts.drop_last() =~= str_views(items@).subrange(0, i as int));
                        if i > 0 {
                            flag.append(",");
                        } else {
                            assert(str_views(items@).subrange(0, 0) =~= Seq::<Seq<char>>::empty());
                        }
                        flag.append(items[i]);
                        assert(parts.last() == items@[i as int]@);
                        i = i + 1;
                    }
                    assert(str_views(items@).subrange(0, items@.len() as int) =~= str_views(items@));
                    Ok(Some(flag))
                },
            }
        },
        other => Err(Error::TomlError(TomlError::TypeMismatch("unstable".to_string(), TomlValueType::String, other.ty()))),
    }
}

proof fn lemma_flags_err_extends(entries: Seq<(String, TomlValue)>, k: int)
    requires
        0 <= k <= entries.len(),
        unstable_flags(entries.subrange(0, k)) is Err,
    ensures
        unstable_flags(entries) == unstable_flags(entries.subrange(0, k)),
    decreases entries.len() - k,
{
    if k < entries.len() {
        assert(entries.subrange(0, k + 1).drop_last() =~= entries.subrange(0, k));
        lemma_flags_err_extends(entries, k + 1);
    } else {
        assert(entries.subrange(0, k) =~= entries);
    }
}

/// Builds the flags of an `unstable` table, in its order.
fn unstable_table_flags(table: &TomlTable) -> (r: Result<Vec<String>, Error>)
    ensures
        match unstable_flags(table.entries@) {
            Ok(flags) => r is Ok && views(r->Ok_0@) == flags,
            Err(f) => r is Err && is_fault(r->Err_0, "unstable"@, f),
        },
{
    let mut args: Vec<String> = Vec::new();
    let mut i: usize = 0;
    assert(views(args@) =~= Seq::<Seq<char>>::empty());
    assert(table.entries@.subrange(0, 0).len() == 0);
    while i < table.entries.len()
        invariant
            i <= table.entries@.len(),
            unstable_flags(table.entries@.subrange(0, i as int)) == Ok::<Seq<Seq<char>>, Fault>(views(args@)),
        decreases table.entries@.len() - i,
    {
        let ghost sub = table.entries@.subrange(0, i + 1);
        assert(sub.drop_last() =~= table.entries@.subrange(0, i as int));
        assert(sub.last() == table.entries@[i as int]);
        let entry = &table.entries[i];
        match unstable_flag(entry.0.as_str(), &entry.1) {
            Err(e) => {
                proof { lemma_flags_err_extends(table.entries@, i + 1); }
                return Err(e);
            },
            Ok(Some(flag)) => {
                let ghost before = args@;
                args.push(flag);
                assert(views(args@) =~= views(before).push(flag@));
            },
            Ok(None) => {},
        }
        i = i + 1;
    }
    assert(table.entries@.subrange(0, table.entries@.len() as int) =~= table.entries@);
    Ok(args)
}

impl<'a> CargoCommand<'a> {
    /// Reads a crate's `unstable` and `direct-arg` settings.
    pub fn new(pkg: &'a Crate<'a>) -> (r: Result<CargoCommand<'a>, Error>)
        ensures
            ({
                let u = unstable_setting(setting(*pkg.table, pkg.spec_workspace(), "unstable"@));
                let d = direct_setting(setting(*pkg.table, pkg.spec_workspace(), "direct-arg"@));
                &&& r is Ok <==> (u is Ok && d is Ok)
                &&& u is Err ==> r is Err && is_fault(r->Err_0, "unstable"@, u->Err_0)
                &&& u is Ok && d is Err ==> r is Err && is_fault(r->Err_0, "direct-arg"@, d->Err_0)
                &&& r is Ok ==> r->Ok_0.pkg == pkg && views(r->Ok_0.unstable_features@) == u->Ok_0
                    && str_views(r->Ok_0.direct_arguments@) == d->Ok_0
            }),
    {
        let unstable_features = match pkg.get("unstable") {
            None => Vec::new(),
            Some(v) => match v.as_table() {
                Some(t) => unstable_table_flags(t)?,
                None => {
                    return Err(Error::TomlError(TomlError::TypeMismatch("unstable".to_string(), TomlValueType::Table, v.ty())));
                },
            },
        };
        assert(unstable_setting(setting(*pkg.table, pkg.spec_workspace(), "unstable"@)) is Ok);
        let direct_arguments = match pkg.get("direct-arg") {
            None => Vec::new(),
            Some(TomlValue::String(arg)) => {
                let mut args: Vec<&'a str> = Vec::new();
                args.push(arg.as_str());
                assert(str_views(args@) =~= seq![arg@]);
                args
            },
            Some(TomlValue::Array(vals)) => match collect_strings(vals) {
                Ok(args) => args,
                Err(t) => {
                    return Err(Error::TomlError(TomlError::ChildTypeMismatch("direct-arg".to_string(), TomlValueType::String, t)));
                },
            },
            Some(other) => {
                return Err(Error::TomlError(TomlError::TypeMismatch("direct-arg".to_string(), TomlValueType::String, other.ty())));
            },
        };
        proof {
            assert(views(Seq::<String>::empty()) =~= Seq::<Seq<char>>::empty());
            assert(str_views(Seq::<&str>::empty()) =~= Seq::<Seq<char>>::empty());
        }
        Ok(CargoCommand { pkg, unstable_features, direct_arguments })
    }

    /// Whether the crate asks for unstable features, which need the nightly
    /// toolchain.
    pub fn is_unstable(&self) -> (r: bool)
        ensures
            r == (self.unstable_features@.len() > 0),
    {
        self.unstable_features.len() > 0
    }
}

/// A setting absent from a crate's own table is read from the workspace
/// table; absent from both, it has no value.
pub proof fn lemma_workspace_fallback(table: TomlTable, workspace: Option<TomlTable>, key: Seq<char>)
    requires
        lookup(table.entries@, key) is None,
    ensures
        workspace matches Some(w) ==> setting(table, workspace, key) == lookup(w.entries@, key),
        (workspace is None || lookup(workspace->0.entries@, key) is None) ==> setting(table, workspace, key) is None,
{
}

} // verus!
