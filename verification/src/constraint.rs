//! What a dependency asks of a package, and the judgement of one installed
//! record against it. Version constraints and build patterns are evaluated by
//! `rattler_conda_types`; how the judgements combine is decided here.

use rattler_conda_types::{ParseStrictness, StringMatcher, Version, VersionSpec};
use std::str::FromStr;
use vstd::prelude::*;
use vstd::string::*;

verus! {

/// Whether `rattler_conda_types` reads `constraint` as a version constraint
/// under strict parsing.
pub uninterp spec fn version_spec_parses(constraint: Seq<char>) -> bool;

/// Whether `rattler_conda_types` reads `version` as a conda version.
pub uninterp spec fn version_parses(version: Seq<char>) -> bool;

/// Whether the version constraint written `constraint` admits the version
/// written `version`, where both parse.
pub uninterp spec fn version_spec_accepts(constraint: Seq<char>, version: Seq<char>) -> bool;

/// Whether `rattler_conda_types` reads `pattern` as a build-string matcher.
pub uninterp spec fn build_pattern_parses(pattern: Seq<char>) -> bool;

/// Whether the build-string matcher written `pattern` admits `build`, where
/// the pattern parses.
pub uninterp spec fn build_pattern_accepts(pattern: Seq<char>, build: Seq<char>) -> bool;

/// The text that could not be read when a version was held against a
/// constraint.
#[derive(Debug, Clone, Copy, PartialEq, Eq, Structural)]
pub enum Unparsed {
    /// The constraint is not a version constraint.
    Constraint,
    /// The version is not a conda version.
    Version,
}

/// Whether `c` separates the components of a path on some platform.
pub open spec fn is_separator(c: char) -> bool {
    c == '/' || c == '\\'
}

/// Whether `s` holds no path separator.
pub open spec fn separator_free(s: Seq<char>) -> bool {
    forall|i: int| 0 <= i < s.len() ==> !is_separator(#[trigger] s[i])
}

/// Whether `pattern` is written as a regular expression: between `^` and
/// `$`.
pub open spec fn is_regex_form(pattern: Seq<char>) -> bool {
    pattern.len() > 0 && pattern[0] == '^' && pattern.last() == '$'
}

/// Whether `s` holds a `*`.
pub open spec fn holds_star(s: Seq<char>) -> bool {
    exists|i: int| 0 <= i < s.len() && #[trigger] s[i] == '*'
}

/// Whether a build pattern means the same on every platform. Only a glob
/// that holds a path separator does not: a pattern is a glob where it holds
/// a `*` and is not written as a regular expression.
pub open spec fn is_portable(pattern: Seq<char>) -> bool {
    is_regex_form(pattern) || !holds_star(pattern) || separator_free(pattern)
}

/// What holding the version written `version` against the constraint
/// written `constraint` yields: which of the two cannot be read, the
/// constraint first, or whether the constraint admits the version.
pub open spec fn version_verdict_of(constraint: Seq<char>, version: Seq<char>) -> Result<
    bool,
    Unparsed,
> {
    if !version_spec_parses(constraint) {
        Err(Unparsed::Constraint)
    } else if !version_parses(version) {
        Err(Unparsed::Version)
    } else {
        Ok(version_spec_accepts(constraint, version))
    }
}

/// What holding `build` against the portable pattern written `pattern`
/// yields: nothing where the pattern cannot be read, and otherwise whether
/// the pattern admits the build string.
pub open spec fn build_verdict_of(pattern: Seq<char>, build: Seq<char>) -> Option<bool> {
    if build_pattern_parses(pattern) {
        Some(build_pattern_accepts(pattern, build))
    } else {
        None
    }
}

/// Calls `VersionSpec::from_str` (strict), `Version::from_str` and
/// `VersionSpec::matches` of `rattler_conda_types`. The constraint is parsed
/// first, so a constraint that cannot be read is reported whatever the version
/// is; then the version; then the result of `matches` is handed back. None of
/// the three reads anything but its arguments.
#[verifier::external_body]
fn version_verdict(constraint: &str, version: &str) -> (verdict: Result<bool, Unparsed>)
    ensures
        verdict is Err <==> !version_spec_parses(constraint@) || !version_parses(version@),
        verdict is Err ==> verdict->Err_0 == (if version_spec_parses(constraint@) {
            Unparsed::Version
        } else {
            Unparsed::Constraint
        }),
        verdict is Ok ==> verdict->Ok_0 == version_spec_accepts(constraint@, version@),
{
    let spec = match VersionSpec::from_str(constraint, ParseStrictness::Strict) {
        Ok(spec) => spec,
        Err(_) => return Err(Unparsed::Constraint),
    };
    let version = match Version::from_str(version) {
        Ok(version) => version,
        Err(_) => return Err(Unparsed::Version),
    };
    Ok(spec.matches(&version))
}

/// Calls `StringMatcher::from_str` and `StringMatcher::matches` of
/// `rattler_conda_types`. A pattern that cannot be read gives `None`. A
/// pattern between `^` and `$` is matched as a regular expression, one
/// without `*` as it is, and any other as a glob; all without regard to the
/// case of ASCII letters. The glob matcher treats path separators
/// differently from platform to platform, so the result is tied to the named
/// one only for a portable pattern.
#[verifier::external_body]
fn build_verdict(pattern: &str, build: &str) -> (verdict: Option<bool>)
    ensures
        is_portable(pattern@) ==> (verdict is Some <==> build_pattern_parses(pattern@)),
        is_portable(pattern@) && verdict is Some ==> verdict->Some_0 == build_pattern_accepts(
            pattern@,
            build@,
        ),
{
    match StringMatcher::from_str(pattern) {
        Ok(matcher) => Some(matcher.matches(build)),
        Err(_) => None,
    }
}

/// What one dependency asks of the package that carries its name.
#[derive(Debug, Clone, PartialEq, Eq)]
pub enum DependencySpec {
    /// A package from a channel: a version constraint and, where given, a
    /// pattern for the build string.
    Registry { version: String, build: Option<String> },
    /// A package from elsewhere (a URL, a repository, a path). Nothing but
    /// the name can be held against an installed record.
    Source,
}

/// What a dependency spec says.
pub enum SpecModel {
    Registry { version: Seq<char>, build: Option<Seq<char>> },
    Source,
}

impl View for DependencySpec {
    type V = SpecModel;

    open spec fn view(&self) -> SpecModel {
        match self {
            DependencySpec::Registry { version, build } => SpecModel::Registry {
                version: version@,
                build: match build {
                    Some(pattern) => Some(pattern@),
                    None => None,
                },
            },
            DependencySpec::Source => SpecModel::Source,
        }
    }
}

/// The outcome of holding one installed record's version and build against
/// one dependency spec.
#[derive(Debug, Clone, Copy, PartialEq, Eq, Structural)]
pub enum Judgement {
    /// The spec is a matchable constraint and the record meets it.
    Accepted,
    /// The spec is a matchable constraint and the record does not meet it.
    Rejected,
    /// The spec cannot be turned into a matchable constraint.
    Unmatchable,
}

impl DependencySpec {
    /// Whether the judgement of a record against the spec is the same on
    /// every platform: it is, unless the spec has a build pattern that is
    /// not portable.
    pub open spec fn is_portable(&self) -> bool {
        match self {
            DependencySpec::Registry { version, build: Some(pattern) } => is_portable(pattern@),
            _ => true,
        }
    }

    /// Whether the spec can be turned into a matchable constraint: it names a
    /// channel package, its version constraint parses, and its build pattern,
    /// if any, parses. This is what a portable spec is judged by.
    pub open spec fn is_matchable(&self) -> bool {
        match self {
            DependencySpec::Registry { version, build } => {
                &&& version_spec_parses(version@)
                &&& build matches Some(pattern) ==> build_pattern_parses(pattern@)
            },
            DependencySpec::Source => false,
        }
    }

    /// Whether a matchable spec admits a record with this version and build.
    pub open spec fn admits(&self, version: Seq<char>, build: Seq<char>) -> bool {
        match self {
            DependencySpec::Registry { version: constraint, build: pattern } => {
                &&& version_parses(version)
                &&& version_spec_accepts(constraint@, version)
                &&& pattern matches Some(p) ==> build_pattern_accepts(p@, build)
            },
            DependencySpec::Source => false,
        }
    }

    /// The judgement of a record with this version and build against a
    /// portable spec.
    pub open spec fn judgement(&self, version: Seq<char>, build: Seq<char>) -> Judgement {
        if !self.is_matchable() {
            Judgement::Unmatchable
        } else if self.admits(version, build) {
            Judgement::Accepted
        } else {
            Judgement::Rejected
        }
    }

    /// The judgement of a record with this version, given what holding its
    /// build string against the spec's build pattern yields.
    pub open spec fn judgement_given(&self, version: Seq<char>, pattern_verdict: Option<bool>) -> Judgement {
        match self {
            DependencySpec::Registry { version: constraint, build } => combined(
                true,
                version_verdict_of(constraint@, version),
                match build {
                    Some(_) => Some(pattern_verdict),
                    None => None,
                },
            ),
            DependencySpec::Source => Judgement::Unmatchable,
        }
    }

    /// Whether holding `build` against the spec's build pattern may yield
    /// `pattern_verdict`. A portable pattern yields what its reading and
    /// matching are named to give; of a pattern that is not portable nothing
    /// is known, since its reading and matching differ from platform to
    /// platform.
    pub open spec fn may_yield(&self, build: Seq<char>, pattern_verdict: Option<bool>) -> bool {
        match self {
            DependencySpec::Registry { version, build: Some(pattern) } => is_portable(pattern@)
                ==> pattern_verdict == build_verdict_of(pattern@, build),
            _ => true,
        }
    }

    /// Whether `judgement` may be the judgement of a record with this
    /// version and build: it follows from the version's verdict and from a
    /// verdict that the build pattern may yield.
    pub open spec fn may_judge(&self, version: Seq<char>, build: Seq<char>, judgement: Judgement) -> bool {
        exists|pattern_verdict: Option<bool>| #[trigger]
            self.may_yield(build, pattern_verdict) && judgement == self.judgement_given(
                version,
                pattern_verdict,
            )
    }

    /// Copies the spec.
    pub fn duplicate(&self) -> (r: DependencySpec)
        ensures
            r@ == self@,
    {
        match self {
            DependencySpec::Registry { version, build } => DependencySpec::Registry {
                version: version.clone(),
                build: match build {
                    Some(pattern) => Some(pattern.clone()),
                    None => None,
                },
            },
            DependencySpec::Source => DependencySpec::Source,
        }
    }

    /// Tells whether two specs say the same.
    pub fn same(&self, other: &DependencySpec) -> (r: bool)
        ensures
            r == (self@ == other@),
    {
        match (self, other) {
            (DependencySpec::Source, DependencySpec::Source) => true,
            (
                DependencySpec::Registry { version: my_version, build: my_build },
                DependencySpec::Registry { version: their_version, build: their_build },
            ) => {
                if *my_version != *their_version {
                    return false;
                }
                match (my_build, their_build) {
                    (None, None) => true,
                    (Some(mine), Some(theirs)) => *mine == *theirs,
                    _ => false,
                }
            },
            _ => false,
        }
    }

    /// Holds a record's version and build against the spec. The version
    /// constraint and the build pattern, where there is one, are always
    /// evaluated. For a portable spec the judgement is the named one; for
    /// any other it follows from the version's verdict and from whatever
    /// this platform makes of the build pattern.
    pub fn judge(&self, version: &str, build: &str) -> (r: Judgement)
        ensures
            self.may_judge(version@, build@, r),
            self.is_portable() ==> r == self.judgement(version@, build@),
    {
        match self {
            DependencySpec::Source => {
                assert(self.may_yield(build@, None));
                combine(false, Ok(false), None)
            },
            DependencySpec::Registry { version: constraint, build: pattern } => {
                let versions = version_verdict(constraint.as_str(), version);
                assert(versions == version_verdict_of(constraint@, version@));
                match pattern {
                    None => {
                        assert(self.may_yield(build@, None));
                        combine(true, versions, None)
                    },
                    Some(p) => {
                        let pattern_verdict = build_verdict(p.as_str(), build);
                        assert(self.may_yield(build@, pattern_verdict));
                        combine(true, versions, Some(pattern_verdict))
                    },
                }
            },
        }
    }
}

/// For a portable spec only one judgement may come out: the named one.
pub proof fn lemma_portable_judgement(
    spec: DependencySpec,
    version: Seq<char>,
    build: Seq<char>,
    judgement: Judgement,
)
    requires
        spec.is_portable(),
    ensures
        spec.may_judge(version, build, judgement) <==> judgement == spec.judgement(version, build),
{
    let named = match spec {
        DependencySpec::Registry { version: constraint, build: Some(pattern) } => build_verdict_of(
            pattern@,
            build,
        ),
        _ => None,
    };
    assert(spec.may_yield(build, named));
    assert(spec.judgement_given(version, named) == spec.judgement(version, build));
    if spec.may_judge(version, build, judgement) {
        let given = choose|given: Option<bool>| #[trigger]
            spec.may_yield(build, given) && judgement == spec.judgement_given(version, given);
        assert(spec.judgement_given(version, given) == spec.judgement(version, build));
    }
}

/// The judgement that follows from the separate verdicts on a record.
/// `registry` tells whether the spec names a channel package; `version` is
/// the verdict on the record's version; `build` is `None` where the spec has
/// no build pattern, `Some(None)` where its pattern cannot be used, and
/// otherwise the verdict on the record's build string.
pub open spec fn combined(
    registry: bool,
    version: Result<bool, Unparsed>,
    build: Option<Option<bool>>,
) -> Judgement {
    if !registry || version == Err::<bool, Unparsed>(Unparsed::Constraint) || build == Some(
        None::<bool>,
    ) {
        Judgement::Unmatchable
    } else if version == Ok::<bool, Unparsed>(true) && build != Some(Some(false)) {
        Judgement::Accepted
    } else {
        Judgement::Rejected
    }
}

/// Combines the separate verdicts on a record into one judgement.
pub fn combine(registry: bool, version: Result<bool, Unparsed>, build: Option<Option<bool>>) -> (r:
    Judgement)
    ensures
        r == combined(registry, version, build),
{
    if !registry {
        return Judgement::Unmatchable;
    }
    let version_ok = match version {
        Err(Unparsed::Constraint) => {
            return Judgement::Unmatchable;
        },
        Err(Unparsed::Version) => false,
        Ok(accepted) => accepted,
    };
    let build_ok = match build {
        None => true,
        Some(None) => {
            return Judgement::Unmatchable;
        },
        Some(Some(accepted)) => accepted,
    };
    if version_ok && build_ok {
        Judgement::Accepted
    } else {
        Judgement::Rejected
    }
}

} // verus!
