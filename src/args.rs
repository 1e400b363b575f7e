//! The command-line parser.

use vstd::prelude::*;

use crate::output::Error;
use crate::text::{split_at_first, split_char, split_on, split_once, str_eq, trim, trimmed};

verus! {

/// The parsed command line.
#[derive(Debug, PartialEq)]
pub struct Args<'a> {
    /// The subcommand to run.
    pub subcommand: Option<Subcommand>,
    /// Whether release mode is enabled.
    pub release: bool,
    /// Crate features that were enabled.
    pub features: Vec<&'a str>,
    /// Targets that were asked for.
    pub targets: Vec<&'a str>,
    /// Crates to build.
    pub crates: Vec<&'a str>,
}

/// The subcommands.
#[derive(Clone, Copy, Debug, PartialEq, Eq, Structural)]
pub enum Subcommand {
    Build,
    Run,
    Help,
}

/// One command-line argument, classified.
#[derive(Debug, PartialEq)]
pub enum ArgType<'a> {
    /// `-r` or `--release`: build in release mode.
    Release,
    /// `-F` or `--features`: crate features to enable.
    Features,
    /// `--target`: targets to build for.
    Target,
    /// `-p` or `--package`: crates to build.
    Package,
    /// An argument that does not start with `-`: a subcommand, or a value of
    /// one of the arguments above.
    Keyword(&'a str),
}

/// The class of an argument, as the parser sees it.
#[derive(Clone, Copy, Debug, PartialEq, Eq, Structural)]
pub enum ArgClass {
    Keyword,
    Release,
    Features,
    Target,
    Package,
    Unknown,
}

/// The class of an argument, already trimmed: a keyword unless it starts
/// with `-`; a long flag by its whole name; a short flag by its second character.
pub open spec fn arg_class(a: Seq<char>) -> ArgClass {
    if a.len() == 0 || a[0] != '-' {
        ArgClass::Keyword
    } else if a.len() == 1 {
        ArgClass::Unknown
    } else if a[1] == '-' {
        let rest = a.subrange(2, a.len() as int);
        if rest == "release"@ {
            ArgClass::Release
        } else if rest == "features"@ || rest == "feature"@ {
            ArgClass::Features
        } else if rest == "target"@ || rest == "targets"@ {
            ArgClass::Target
        } else if rest == "package"@ || rest == "packages"@ {
            ArgClass::Package
        } else {
            ArgClass::Unknown
        }
    } else if a[1] == 'r' {
        ArgClass::Release
    } else if a[1] == 'F' {
        ArgClass::Features
    } else if a[1] == 'p' {
        ArgClass::Package
    } else {
        ArgClass::Unknown
    }
}

/// Whether a class takes a list of values.
pub open spec fn takes_values(k: ArgClass) -> bool {
    k == ArgClass::Features || k == ArgClass::Target || k == ArgClass::Package
}

/// The subcommand a keyword names.
pub open spec fn subcommand_of(w: Seq<char>) -> Option<Subcommand> {
    if w == "r"@ || w == "run"@ {
        Some(Subcommand::Run)
    } else if w == "b"@ || w == "build"@ {
        Some(Subcommand::Build)
    } else if w == "h"@ || w == "help"@ || w == "?"@ {
        Some(Subcommand::Help)
    } else {
        None
    }
}

/// The parser's state: what was parsed so far, and the list that following
/// keywords add to, if any.
pub struct ParseState {
    pub subcommand: Option<Subcommand>,
    pub release: bool,
    pub features: Seq<Seq<char>>,
    pub targets: Seq<Seq<char>>,
    pub crates: Seq<Seq<char>>,
    pub mode: Option<ArgClass>,
}

/// The state before any argument.
pub open spec fn initial_state() -> ParseState {
    ParseState {
        subcommand: None,
        release: false,
        features: Seq::empty(),
        targets: Seq::empty(),
        crates: Seq::empty(),
        mode: None,
    }
}

/// Adds values to the list of class `k`.
pub open spec fn add_values(st: ParseState, k: ArgClass, vals: Seq<Seq<char>>) -> ParseState {
    if k == ArgClass::Features {
        ParseState { features: st.features + vals, ..st }
    } else if k == ArgClass::Target {
        ParseState { targets: st.targets + vals, ..st }
    } else {
        ParseState { crates: st.crates + vals, ..st }
    }
}

/// Parses one argument that is not a value of the list being filled: the
/// part before a first `=` is the argument, the part after it holds
/// comma-separated values. An error holds the unknown argument.
pub open spec fn next_state(st: ParseState, raw: Seq<char>) -> Result<ParseState, Seq<char>> {
    let (name, values) = split_once(raw, '=');
    let t = trimmed(name);
    let k = arg_class(t);
    if k == ArgClass::Unknown {
        Err(t)
    } else if k == ArgClass::Release {
        Ok(ParseState { release: true, mode: None, ..st })
    } else if k == ArgClass::Keyword {
        if st.subcommand is Some {
            Ok(ParseState { mode: None, ..st })
        } else {
            match subcommand_of(t) {
                Some(s) => Ok(ParseState { subcommand: Some(s), mode: None, ..st }),
                None => Err(t),
            }
        }
    } else {
        let st2 = match values {
            Some(v) => add_values(st, k, split_on(v, ',')),
            None => st,
        };
        Ok(ParseState { mode: Some(k), ..st2 })
    }
}

/// Parses one argument. After an argument that takes values, each following
/// keyword is split at commas and added to its list.
pub open spec fn step(st: ParseState, raw: Seq<char>) -> Result<ParseState, Seq<char>> {
    match st.mode {
        Some(k) => {
            let t = trimmed(split_once(raw, '=').0);
            let c = arg_class(t);
            if c == ArgClass::Unknown {
                Err(t)
            } else if c == ArgClass::Keyword {
                Ok(add_values(st, k, split_on(trimmed(raw), ',')))
            } else {
                next_state(st, raw)
            }
        },
        None => next_state(st, raw),
    }
}

/// The class of an argument by its part before a first `=`.
pub open spec fn head_class(raw: Seq<char>) -> ArgClass {
    arg_class(trimmed(split_once(raw, '=').0))
}

/// Parses a list of arguments, or gives the first unknown argument.
pub open spec fn parse_state(raw: Seq<Seq<char>>) -> Result<ParseState, Seq<char>>
    decreases raw.len(),
{
    if raw.len() == 0 {
        Ok(initial_state())
    } else {
        match parse_state(raw.drop_last()) {
            Err(e) => Err(e),
            Ok(st) => step(st, raw.last()),
        }
    }
}

/// The views of a list of string slices.
pub open spec fn arg_views(s: Seq<&str>) -> Seq<Seq<char>> {
    s.map_values(|x: &str| x@)
}

proof fn lemma_parse_err_extends(raw: Seq<Seq<char>>, k: int)
    requires
        0 <= k <= raw.len(),
        parse_state(raw.subrange(0, k)) is Err,
    ensures
        parse_state(raw) == parse_state(raw.subrange(0, k)),
    decreases raw.len() - k,
{
    if k < raw.len() {
        assert(raw.subrange(0, k + 1).drop_last() =~= raw.subrange(0, k));
        lemma_parse_err_extends(raw, k + 1);
    } else {
        assert(raw.subrange(0, k) =~= raw);
    }
}

proof fn lemma_parse_step(raw: Seq<Seq<char>>, k: int)
    requires
        0 <= k < raw.len(),
    ensures
        parse_state(raw.subrange(0, k + 1)) == match parse_state(raw.subrange(0, k)) {
            Err(e) => Err(e),
            Ok(st) => step(st, raw[k]),
        },
{
    assert(raw.subrange(0, k + 1).drop_last() =~= raw.subrange(0, k));
}

impl<'a> Args<'a> {
    /// The parser's state that these arguments stand for, with `mode` as the
    /// list being filled.
    pub open spec fn model(&self, mode: Option<ArgClass>) -> ParseState {
        ParseState {
            subcommand: self.subcommand,
            release: self.release,
            features: arg_views(self.features@),
            targets: arg_views(self.targets@),
            crates: arg_views(self.crates@),
            mode,
        }
    }

    /// Parses a list of arguments.
    pub fn parse(raw_args: &Vec<&'a str>) -> (r: Result<Self, Error>)
        ensures
            match parse_state(arg_views(raw_args@)) {
                Ok(st) => r is Ok && r->Ok_0.model(st.mode) == st,
                Err(t) => r matches Err(Error::UnknownArgument(a)) && a@ == t,
            },
    {
        let mut this = Args {
            subcommand: None,
            release: false,
            features: Vec::new(),
            targets: Vec::new(),
            crates: Vec::new(),
        };
        assert(this.model(None) == initial_state()) by {
            assert(arg_views(this.features@) =~= Seq::<Seq<char>>::empty());
            assert(arg_views(this.targets@) =~= Seq::<Seq<char>>::empty());
            assert(arg_views(this.crates@) =~= Seq::<Seq<char>>::empty());
        }
        this.parse_(raw_args)?;
        Ok(this)
    }

    /// Adds the comma-separated values of `s` to the list of class `k`.
    fn add_values(&mut self, k: ArgClass, s: &'a str)
        requires
            takes_values(k),
        ensures
            final(self).model(None) == add_values(old(self).model(None), k, split_on(s@, ',')),
    {
        let mut parts = split_char(s, ',');
        let ghost vals = arg_views(parts@);
        if k == ArgClass::Features {
            let ghost before = self.features@;
            self.features.append(&mut parts);
            assert(arg_views(self.features@) =~= arg_views(before) + vals);
        } else if k == ArgClass::Target {
            let ghost before = self.targets@;
            self.targets.append(&mut parts);
            assert(arg_views(self.targets@) =~= arg_views(before) + vals);
        } else {
            let ghost before = self.crates@;
            self.crates.append(&mut parts);
            assert(arg_views(self.crates@) =~= arg_views(before) + vals);
        }
    }

    /// Parses each argument in turn into `self`.
    fn parse_(&mut self, raw_args: &Vec<&'a str>) -> (r: Result<(), Error>)
        requires
            old(self).model(None) == initial_state(),
        ensures
            match parse_state(arg_views(raw_args@)) {
                Ok(st) => r is Ok && final(self).model(st.mode) == st,
                Err(t) => r matches Err(Error::UnknownArgument(a)) && a@ == t,
            },
    {
        let ghost raw = arg_views(raw_args@);
        let ghost mut mode: Option<ArgClass> = None;
        let mut i: usize = 0;
        assert(raw.subrange(0, 0).len() == 0);
        while i < raw_args.len()
            invariant
                raw == arg_views(raw_args@),
                i <= raw.len(),
                parse_state(raw.subrange(0, i as int)) == Ok::<ParseState, Seq<char>>(self.model(mode)),
                mode is Some && i < raw.len() ==> head_class(raw[i as int]) != ArgClass::Keyword
                    && head_class(raw[i as int]) != ArgClass::Unknown,
            decreases raw.len() - i,
        {
            proof { lemma_parse_step(raw, i as int); }
            let (name, values) = split_at_first(raw_args[i], '=');
            let kind = Self::parse_arg(name);
            let kind = match kind {
                Ok(k) => k,
                Err(e) => {
                    proof { lemma_parse_err_extends(raw, i + 1); }
                    return Err(e);
                },
            };
            match kind {
                ArgType::Release => {
                    self.release = true;
                    proof { mode = None; }
                    i = i + 1;
                },
                ArgType::Keyword(word) => {
                    if self.subcommand.is_none() {
                        if str_eq(word, "r") || str_eq(word, "run") {
                            self.subcommand = Some(Subcommand::Run);
                        } else if str_eq(word, "b") || str_eq(word, "build") {
                            self.subcommand = Some(Subcommand::Build);
                        } else if str_eq(word, "h") || str_eq(word, "help") || str_eq(word, "?") {
                            self.subcommand = Some(Subcommand::Help);
                        } else {
                            proof { lemma_parse_err_extends(raw, i + 1); }
                            return Err(Error::UnknownArgument(word.to_string()));
                        }
                    }
                    proof { mode = None; }
                    i = i + 1;
                },
                _ => {
                    let k = match kind {
                        ArgType::Features => ArgClass::Features,
                        ArgType::Target => ArgClass::Target,
                        _ => ArgClass::Package,
                    };
                    if let Some(v) = values {
                        self.add_values(k, v);
                    }
                    proof { mode = Some(k); }
                    i = self.parse_arg_values(k, raw_args, i + 1)?;
                },
            }
        }
        assert(raw.subrange(0, raw.len() as int) =~= raw);
        Ok(())
    }

    /// Adds the values that follow an argument taking values, up to the next
    /// argument that is not a keyword; gives the position of that argument.
    /// An argument is classified by its part before a first `=`.
    fn parse_arg_values(&mut self, k: ArgClass, raw_args: &Vec<&'a str>, start: usize) -> (r: Result<usize, Error>)
        requires
            takes_values(k),
            start <= raw_args@.len(),
            parse_state(arg_views(raw_args@).subrange(0, start as int)) == Ok::<ParseState, Seq<char>>(old(self).model(Some(k))),
        ensures
            match r {
                Ok(j) => start <= j <= raw_args@.len()
                    && parse_state(arg_views(raw_args@).subrange(0, j as int)) == Ok::<ParseState, Seq<char>>(final(self).model(Some(k)))
                    && (j < raw_args@.len() ==> head_class(raw_args@[j as int]@) != ArgClass::Keyword
                        && head_class(raw_args@[j as int]@) != ArgClass::Unknown),
                Err(e) => parse_state(arg_views(raw_args@)) matches Err(t) && e matches Error::UnknownArgument(a) && a@ == t,
            },
    {
        let ghost raw = arg_views(raw_args@);
        let mut i = start;
        while i < raw_args.len()
            invariant
                raw == arg_views(raw_args@),
                takes_values(k),
                start <= i <= raw.len(),
                parse_state(raw.subrange(0, i as int)) == Ok::<ParseState, Seq<char>>(self.model(Some(k))),
            decreases raw.len() - i,
        {
            proof { lemma_parse_step(raw, i as int); }
            let (name, _) = split_at_first(raw_args[i], '=');
            match Self::parse_arg(name) {
                Err(e) => {
                    proof { lemma_parse_err_extends(raw, i + 1); }
                    return Err(e);
                },
                Ok(ArgType::Keyword(_)) => {
                    self.add_values(k, trim(raw_args[i]));
                },
                Ok(_) => {
                    return Ok(i);
                },
            }
            i = i + 1;
        }
        Ok(i)
    }

    /// Classifies one argument, trimmed: a flag if it starts with `-`, a
    /// keyword otherwise.
    fn parse_arg(arg: &'a str) -> (r: Result<ArgType<'a>, Error>)
        ensures
            match arg_class(trimmed(arg@)) {
                ArgClass::Keyword => r matches Ok(ArgType::Keyword(w)) && w@ == trimmed(arg@),
                ArgClass::Release => r matches Ok(ArgType::Release),
                ArgClass::Features => r matches Ok(ArgType::Features),
                ArgClass::Target => r matches Ok(ArgType::Target),
                ArgClass::Package => r matches Ok(ArgType::Package),
                ArgClass::Unknown => r matches Err(Error::UnknownArgument(a)) && a@ == trimmed(arg@),
            },
    {
        let arg = trim(arg);
        let n = arg.unicode_len();
        if n == 0 || arg.get_char(0) != '-' {
            return Ok(ArgType::Keyword(arg));
        }
        if n == 1 {
            return Err(Error::UnknownArgument(arg.to_string()));
        }
        let second = arg.get_char(1);
        if second == '-' {
            let rest = arg.substring_char(2, n);
            if str_eq(rest, "release") {
                Ok(ArgType::Release)
            } else if str_eq(rest, "features") || str_eq(rest, "feature") {
                Ok(ArgType::Features)
            } else if str_eq(rest, "target") || str_eq(rest, "targets") {
                Ok(ArgType::Target)
            } else if str_eq(rest, "package") || str_eq(rest, "packages") {
                Ok(ArgType::Package)
            } else {
                Err(Error::UnknownArgument(arg.to_string()))
            }
        } else if second == 'r' {
            Ok(ArgType::Release)
        } else if second == 'F' {
            Ok(ArgType::Features)
        } else if second == 'p' {
            Ok(ArgType::Package)
        } else {
            Err(Error::UnknownArgument(arg.to_string()))
        }
    }
}

} // verus!
