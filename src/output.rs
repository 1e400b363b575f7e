//! Errors, their messages, and the help text.

use vstd::prelude::*;

use crate::value::TomlValueType;

verus! {

/// Everything that can stop a run.
#[derive(Debug)]
pub enum Error {
    /// An error in the settings of `bargo.toml`.
    TomlError(TomlError),
    /// An error while building.
    BuildError(BuildError),
    /// No command was given.
    NoCommand,
    /// An unknown command was given. Stores the command.
    UnknownCommand(String),
    /// No `bargo.toml` was found in this folder nor its parents.
    NoConfig,
    /// No crates are defined in `bargo.toml`.
    NoCrates,
    /// An unknown argument was given. Stores the argument.
    UnknownArgument(String),
    /// Several subcommands were given. Stores two of them.
    MultipleSubcommands(String, String),
}

/// A TOML syntax error, located by character positions in its source.
#[derive(Debug)]
pub struct SyntaxError {
    /// The name of the kind of error.
    pub kind: String,
    /// The position of the first character of the offending text.
    pub start: usize,
    /// The position of the last character of the offending text.
    pub end: usize,
}

/// Errors in TOML settings.
#[derive(Debug)]
pub enum TomlError {
    /// The TOML had invalid syntax. Stores the error and the TOML source.
    ParseError(SyntaxError, String),
    /// A value had the wrong kind. Stores the key, the expected kind and the actual kind.
    TypeMismatch(String, TomlValueType, TomlValueType),
    /// A value inside an array or a table had the wrong kind. Stores the parent's
    /// key, the expected kind and the actual kind.
    ChildTypeMismatch(String, TomlValueType, TomlValueType),
    /// A key was missing. Stores the key and the kind its value should have.
    MissingKey(String, TomlValueType),
}

/// Errors of the `build` command.
#[derive(Debug)]
pub enum BuildError {
    /// An unknown crate was named. Stores where it was named, and its name.
    UnknownCrate(UnknownCrateSource, String),
    /// A crate prebuilds itself, directly or not. Stores its name.
    CyclicDependency(String),
    /// A post-build script failed.
    PostBuildFailed,
    /// A custom post-build script is missing. Stores the crate and the path.
    PostBuildNotFound(String, String),
    /// A Cargo command failed.
    CargoFailed,
    /// A crate's `Cargo.toml` is invalid. Stores the crate and the error.
    InvalidCargoToml(String, TomlError),
    /// A crate's name in `bargo.toml` differs from the one in its `Cargo.toml`.
    /// Stores both names, in that order.
    CrateNameMismatch(String, String),
    /// A crate's `Cargo.toml` is missing. Stores the crate and the path searched.
    NoCargoToml(String, String),
}

/// Where an unknown crate was named.
#[derive(Debug)]
pub enum UnknownCrateSource {
    /// In the `prebuild` setting of the crate whose name is stored.
    Prebuild(String),
    /// In `workspace.default-build`.
    DefaultBuild,
    /// On the command line.
    CliArg,
}

/// The help text.
pub const HELP: &'static str = "\x1B[37mHelp: \n\n\x1B[1mBargo\x1B[22m is a build system wrapped around Cargo. \n\n\x1B[32mCommands:\x1B[37m \n\t\x1B[36mbuild\x1B[37m, \x1B[36mb\x1B[37m        If a crate is specified, compiles that crate in the workspace. Otherwise, compiles the whole workspace. \n\t\x1B[36mrun\x1B[37m, \x1B[36mr\x1B[37m\t\tIf a crate is specified, runs that crate in the workspace. Otherwise, runs the default runner, as specified in the `bargo.toml` file. \n\t\x1B[36mhelp\x1B[37m, \x1B[36mh\x1B[37m\t\tPrints this help message. \n\n\x1B[32mArguments:\x1B[37m \n\t\x1B[36m--release\x1B[37m, \x1B[36m-r\x1B[37m   Build crates in release mode. \n\t\x1B[36m--features\x1B[37m, \x1B[36m-F\x1B[37m  A comma-separated list of crate features to enable. \n\t\x1B[36m--target\x1B[37m        A comma-separated list of targets to build for. \n\t\x1B[36m--package\x1B[37m, \x1B[36m-p\x1B[37m   A comma-separated list of crates to build/run. \n\nFor more docs and info, see the GitHub repo: https://github.com/bright-shard/bargo \n";

/// The help text, as a `String`.
pub fn help() -> (r: String)
    ensures
        r@ == HELP@,
{
    String::from_str(HELP)
}

/// The name of a kind of value.
pub open spec fn kind_name(t: TomlValueType) -> Seq<char> {
    match t {
        TomlValueType::String => "String"@,
        TomlValueType::Integer => "Integer"@,
        TomlValueType::Float => "Float"@,
        TomlValueType::Boolean => "Boolean"@,
        TomlValueType::Time => "Time"@,
        TomlValueType::Date => "Date"@,
        TomlValueType::DateTime => "DateTime"@,
        TomlValueType::OffsetDateTime => "OffsetDateTime"@,
        TomlValueType::Array => "Array"@,
        TomlValueType::Table => "Table"@,
    }
}

/// The name of a kind of value.
pub fn kind_name_str(t: TomlValueType) -> (r: &'static str)
    ensures
        r@ == kind_name(t),
{
    match t {
        TomlValueType::String => "String",
        TomlValueType::Integer => "Integer",
        TomlValueType::Float => "Float",
        TomlValueType::Boolean => "Boolean",
        TomlValueType::Time => "Time",
        TomlValueType::Date => "Date",
        TomlValueType::DateTime => "DateTime",
        TomlValueType::OffsetDateTime => "OffsetDateTime",
        TomlValueType::Array => "Array",
        TomlValueType::Table => "Table",
    }
}

/// The characters of `s` from position `a` to position `b`, both included.
pub open spec fn excerpt(s: Seq<char>, a: int, b: int) -> Seq<char> {
    s.subrange(a, b + 1)
}

/// Where the context shown around a syntax error starts.
pub open spec fn context_start(err: SyntaxError) -> int {
    if err.start > 15 { err.start - 15 } else { 0 }
}

/// Where the context shown around a syntax error ends.
pub open spec fn context_end(err: SyntaxError, len: int) -> int {
    if err.end + 16 < len { err.end + 15 } else { len - 1 }
}

/// Whether a syntax error's positions lie within its source.
pub open spec fn syntax_error_fits(err: SyntaxError, src: Seq<char>) -> bool {
    err.start <= err.end < src.len()
}

/// The report of a syntax error: its kind, the offending text, and up to
/// fifteen characters of context on each side.
pub open spec fn pretty_syntax_error(err: SyntaxError, src: Seq<char>) -> Seq<char> {
    "Syntax error:\nError type: "@ + err.kind@ + "\nThe error comes from here: `"@
        + excerpt(src, err.start as int, err.end as int)
        + "`\n...which is in this region of text: `"@
        + excerpt(src, context_start(err), context_end(err, src.len() as int)) + "`"@
}

/// Reports a syntax error with the text around it.
pub fn prettify_toml_error(err: &SyntaxError, src: &str) -> (r: String)
    requires
        syntax_error_fits(*err, src@),
    ensures
        r@ == pretty_syntax_error(*err, src@),
{
    let len = src.unicode_len();
    let contextual_start: usize = if err.start > 15 { err.start - 15 } else { 0 };
    let contextual_end: usize = if len > 16 && err.end < len - 16 { err.end + 15 } else { len - 1 };
    let mut r = String::from_str("Syntax error:\nError type: ");
    r.append(err.kind.as_str());
    r.append("\nThe error comes from here: `");
    r.append(src.substring_char(err.start, err.end + 1));
    r.append("`\n...which is in this region of text: `");
    r.append(src.substring_char(contextual_start, contextual_end + 1));
    r.append("`");
    r
}

impl UnknownCrateSource {
    /// The text of the message.
    pub open spec fn spec_message(self) -> Seq<char> {
        match self {
            UnknownCrateSource::Prebuild(pkg) => "`"@ + pkg@ + "`'s `prebuild` setting"@,
            UnknownCrateSource::DefaultBuild => "the `workspace.default-build` table"@,
            UnknownCrateSource::CliArg => "`bargo build`'s arguments"@,
        }
    }

    /// Describes where the crate was named.
    pub fn message(&self) -> (r: String)
        ensures
            r@ == self.spec_message(),
    {
        match self {
            UnknownCrateSource::Prebuild(pkg) => {
                let mut r = String::from_str("`");
                r.append(pkg.as_str());
                r.append("`'s `prebuild` setting");
                r
            },
            UnknownCrateSource::DefaultBuild => String::from_str("the `workspace.default-build` table"),
            UnknownCrateSource::CliArg => String::from_str("`bargo build`'s arguments"),
        }
    }
}

impl TomlError {
    /// Whether a syntax error lies within its source.
    pub open spec fn wf(self) -> bool {
        match self {
            TomlError::ParseError(err, src) => syntax_error_fits(err, src@),
            _ => true,
        }
    }

    /// The text of the message.
    pub open spec fn spec_message(self) -> Seq<char> {
        match self {
            TomlError::ParseError(err, src) => pretty_syntax_error(err, src@),
            TomlError::TypeMismatch(key, expected, actual) => "Expected `"@ + key@ + "` to be a "@
                + kind_name(expected) + ", but it was a "@ + kind_name(actual) + "."@,
            TomlError::ChildTypeMismatch(key, expected, actual) => "Expected children of `"@ + key@
                + "` to be a `"@ + kind_name(expected) + "`, but found a `"@ + kind_name(actual)
                + "`."@,
            TomlError::MissingKey(key, ty) => "Couldn't find the key `"@ + key@
                + "` (which should store a `"@ + kind_name(ty) + "`)."@,
        }
    }

    /// Tests `wf`.
    pub fn is_well_formed(&self) -> (r: bool)
        ensures
            r == self.wf(),
    {
        match self {
            TomlError::ParseError(err, src) => err.start <= err.end && err.end < src.as_str().unicode_len(),
            _ => true,
        }
    }

    /// Describes the error.
    pub fn message(&self) -> (r: String)
        requires
            self.wf(),
        ensures
            r@ == self.spec_message(),
    {
        match self {
            TomlError::ParseError(err, src) => prettify_toml_error(err, src.as_str()),
            TomlError::TypeMismatch(key, expected, actual) => {
                let mut r = String::from_str("Expected `");
                r.append(key.as_str());
                r.append("` to be a ");
                r.append(kind_name_str(*expected));
                r.append(", but it was a ");
                r.append(kind_name_str(*actual));
                r.append(".");
                r
            },
            TomlError::ChildTypeMismatch(key, expected, actual) => {
                let mut r = String::from_str("Expected children of `");
                r.append(key.as_str());
                r.append("` to be a `");
                r.append(kind_name_str(*expected));
                r.append("`, but found a `");
                r.append(kind_name_str(*actual));
                r.append("`.");
                r
            },
            TomlError::MissingKey(key, ty) => {
                let mut r = String::from_str("Couldn't find the key `");
                r.append(key.as_str());
                r.append("` (which should store a `");
                r.append(kind_name_str(*ty));
                r.append("`).");
                r
            },
        }
    }
}

impl BuildError {
    /// Whether any syntax error inside lies within its source.
    pub open spec fn wf(self) -> bool {
        match self {
            BuildError::InvalidCargoToml(_, err) => err.wf(),
            _ => true,
        }
    }

    /// The text of the message.
    pub open spec fn spec_message(self) -> Seq<char> {
        match self {
            BuildError::PostBuildFailed => "A post-build script failed to run, exiting..."@,
            BuildError::CargoFailed => "A Cargo command failed to run, exiting..."@,
            BuildError::CyclicDependency(pkg) => "Cyclic dependency detected for crate `"@ + pkg@
                + "`."@,
            BuildError::UnknownCrate(source, name) => "Unknown crate `"@ + name@
                + "` specified in "@ + source.spec_message() + "."@,
            BuildError::PostBuildNotFound(pkg, path) => "Couldn't find the post-build script for `"@
                + pkg@ + "` at `"@ + path@ + "`."@,
            BuildError::InvalidCargoToml(pkg, err) => "Crate `"@ + pkg@
                + "`'s Cargo.toml has a syntax error: "@ + err.spec_message(),
            BuildError::CrateNameMismatch(bargo_name, cargo_name) => "A crate is named `"@
                + bargo_name@ + "` in `bargo.toml`, but is named `"@ + cargo_name@
                + "` in its `Cargo.toml`."@,
            BuildError::NoCargoToml(pkg, path) => "Bargo couldn't find the `Cargo.toml` file for `"@
                + pkg@ + "`. It searched at `"@ + path@ + "`."@,
        }
    }

    /// Describes the error.
    pub fn message(&self) -> (r: String)
        requires
            self.wf(),
        ensures
            r@ == self.spec_message(),
    {
        match self {
            BuildError::PostBuildFailed => String::from_str("A post-build script failed to run, exiting..."),
            BuildError::CargoFailed => String::from_str("A Cargo command failed to run, exiting..."),
            BuildError::CyclicDependency(pkg) => {
                let mut r = String::from_str("Cyclic dependency detected for crate `");
                r.append(pkg.as_str());
                r.append("`.");
                r
            },
            BuildError::UnknownCrate(source, name) => {
                let mut r = String::from_str("Unknown crate `");
                r.append(name.as_str());
                r.append("` specified in ");
                let s = source.message();
                r.append(s.as_str());
                r.append(".");
                r
            },
            BuildError::PostBuildNotFound(pkg, path) => {
                let mut r = String::from_str("Couldn't find the post-build script for `");
                r.append(pkg.as_str());
                r.append("` at `");
                r.append(path.as_str());
                r.append("`.");
                r
            },
            BuildError::InvalidCargoToml(pkg, err) => {
                let mut r = String::from_str("Crate `");
                r.append(pkg.as_str());
                r.append("`'s Cargo.toml has a syntax error: ");
                let s = err.message();
                r.append(s.as_str());
                r
            },
            BuildError::CrateNameMismatch(bargo_name, cargo_name) => {
                let mut r = String::from_str("A crate is named `");
                r.append(bargo_name.as_str());
                r.append("` in `bargo.toml`, but is named `");
                r.append(cargo_name.as_str());
                r.append("` in its `Cargo.toml`.");
                r
            },
            BuildError::NoCargoToml(pkg, path) => {
                let mut r = String::from_str("Bargo couldn't find the `Cargo.toml` file for `");
                r.append(pkg.as_str());
                r.append("`. It searched at `");
                r.append(path.as_str());
                r.append("`.");
                r
            },
        }
    }
}

impl Error {
    /// Whether any syntax error inside lies within its source.
    pub open spec fn wf(self) -> bool {
        match self {
            Error::TomlError(err) => err.wf(),
            Error::BuildError(err) => err.wf(),
            _ => true,
        }
    }

    /// The text of the message.
    pub open spec fn spec_message(self) -> Seq<char> {
        match self {
            Error::NoCrates => "No crates are defined in `bargo.toml`, nothing to do..."@,
            Error::NoCommand => "No command provided.\n"@ + HELP@,
            Error::UnknownCommand(cmd) => "Unknown command `"@ + cmd@ + "`.\n"@ + HELP@,
            Error::TomlError(err) => "Error while parsing `bargo.toml`: "@ + err.spec_message(),
            Error::BuildError(err) => "Error while building: "@ + err.spec_message(),
            Error::NoConfig => "Couldn't find a `bargo.toml` file in this folder nor its parent folders. Is this a Bargo workspace?"@,
            Error::UnknownArgument(arg) => "Unknown argument: `"@ + arg@ + "`\n"@ + HELP@,
            Error::MultipleSubcommands(a, b) => "Multiple subcommands given: `"@ + a@ + "` and `"@
                + b@ + "`"@,
        }
    }

    /// Tests `wf`: whether `message` may be called.
    pub fn is_well_formed(&self) -> (r: bool)
        ensures
            r == self.wf(),
    {
        match self {
            Error::TomlError(err) => err.is_well_formed(),
            Error::BuildError(BuildError::InvalidCargoToml(_, err)) => err.is_well_formed(),
            _ => true,
        }
    }

    /// Describes the error to the user.
    pub fn message(&self) -> (r: String)
        requires
            self.wf(),
        ensures
            r@ == self.spec_message(),
    {
        match self {
            Error::NoCrates => String::from_str("No crates are defined in `bargo.toml`, nothing to do..."),
            Error::NoCommand => {
                let mut r = String::from_str("No command provided.\n");
                r.append(HELP);
                r
            },
            Error::UnknownCommand(cmd) => {
                let mut r = String::from_str("Unknown command `");
                r.append(cmd.as_str());
                r.append("`.\n");
                r.append(HELP);
                r
            },
            Error::TomlError(err) => {
                let mut r = String::from_str("Error while parsing `bargo.toml`: ");
                let s = err.message();
                r.append(s.as_str());
                r
            },
            Error::BuildError(err) => {
                let mut r = String::from_str("Error while building: ");
                let s = err.message();
                r.append(s.as_str());
                r
            },
            Error::NoConfig => String::from_str("Couldn't find a `bargo.toml` file in this folder nor its parent folders. Is this a Bargo workspace?"),
            Error::UnknownArgument(arg) => {
                let mut r = String::from_str("Unknown argument: `");
                r.append(arg.as_str());
                r.append("`\n");
                r.append(HELP);
                r
            },
            Error::MultipleSubcommands(a, b) => {
                let mut r = String::from_str("Multiple subcommands given: `");
                r.append(a.as_str());
                r.append("` and `");
                r.append(b.as_str());
                r.append("`");
                r
            },
        }
    }
}

} // verus!
