//! Semantic versions and version requirements, held as plain values.
//!
//! The `semver` crate parses and evaluates them; this module keeps the parts that the
//! manifest rules read, renders them as `semver` displays them, and asks `semver`
//! whether a requirement matches a version.

use vstd::prelude::*;
use semver::{BuildMetadata, Comparator, Op, Prerelease, Version, VersionReq};
use crate::unicode::decimal;

verus! {

/// The operator of one comparator of a version requirement.
#[derive(Clone, Copy, Debug, PartialEq, Eq, Structural)]
pub enum ComparatorOp {
    /// `=`
    Exact,
    /// `>`
    Greater,
    /// `>=`
    GreaterEq,
    /// `<`
    Less,
    /// `<=`
    LessEq,
    /// `~`
    Tilde,
    /// `^`, also what a bare version means
    Caret,
    /// `*` in place of the minor or patch number
    Wildcard,
}

/// A semantic version `major.minor.patch[-pre][+build]`.
#[derive(Clone, Debug)]
pub struct SemVersion {
    pub major: u64,
    pub minor: u64,
    pub patch: u64,
    /// The pre-release identifiers, empty when there are none.
    pub pre: String,
    /// The build metadata, empty when there is none.
    pub build: String,
}

/// The value of a [`SemVersion`].
pub struct SemVersionView {
    pub major: u64,
    pub minor: u64,
    pub patch: u64,
    pub pre: Seq<char>,
    pub build: Seq<char>,
}

impl View for SemVersion {
    type V = SemVersionView;

    open spec fn view(&self) -> SemVersionView {
        SemVersionView {
            major: self.major,
            minor: self.minor,
            patch: self.patch,
            pre: self.pre@,
            build: self.build@,
        }
    }
}

/// One comparator of a version requirement, such as `>=1.2` or `^1.0.0-beta`.
#[derive(Clone, Debug)]
pub struct VersionComparator {
    pub op: ComparatorOp,
    pub major: u64,
    pub minor: Option<u64>,
    pub patch: Option<u64>,
    /// The pre-release identifiers, empty when there are none.
    pub pre: String,
}

/// The value of a [`VersionComparator`].
pub struct ComparatorView {
    pub op: ComparatorOp,
    pub major: u64,
    pub minor: Option<u64>,
    pub patch: Option<u64>,
    pub pre: Seq<char>,
}

impl View for VersionComparator {
    type V = ComparatorView;

    open spec fn view(&self) -> ComparatorView {
        ComparatorView {
            op: self.op,
            major: self.major,
            minor: self.minor,
            patch: self.patch,
            pre: self.pre@,
        }
    }
}

/// A version requirement: comparators that a version must all satisfy. No comparator
/// at all is the requirement `*`.
#[derive(Clone, Debug)]
pub struct VersionRequirement {
    pub comparators: Vec<VersionComparator>,
}

impl View for VersionRequirement {
    type V = Seq<ComparatorView>;

    open spec fn view(&self) -> Seq<ComparatorView> {
        self.comparators@.map_values(|c: VersionComparator| c@)
    }
}

/// `major.minor.patch` in decimal.
pub open spec fn core_text(major: u64, minor: u64, patch: u64) -> Seq<char> {
    decimal(major as nat) + "."@ + decimal(minor as nat) + "."@ + decimal(patch as nat)
}

/// How `semver` displays a version: `major.minor.patch`, then `-pre` and `+build` when
/// they are not empty.
pub open spec fn version_text(v: SemVersionView) -> Seq<char> {
    core_text(v.major, v.minor, v.patch) + (if v.pre.len() > 0 { "-"@ + v.pre } else { Seq::empty() })
        + (if v.build.len() > 0 { "+"@ + v.build } else { Seq::empty() })
}

/// How `semver` displays an operator.
pub open spec fn op_text(op: ComparatorOp) -> Seq<char> {
    match op {
        ComparatorOp::Exact => "="@,
        ComparatorOp::Greater => ">"@,
        ComparatorOp::GreaterEq => ">="@,
        ComparatorOp::Less => "<"@,
        ComparatorOp::LessEq => "<="@,
        ComparatorOp::Tilde => "~"@,
        ComparatorOp::Caret => "^"@,
        ComparatorOp::Wildcard => ""@,
    }
}

/// The text after the major number when the comparator gives no minor, or no patch.
pub open spec fn wildcard_tail(op: ComparatorOp) -> Seq<char> {
    if op == ComparatorOp::Wildcard { ".*"@ } else { Seq::empty() }
}

/// How `semver` displays a comparator.
pub open spec fn comparator_text(c: ComparatorView) -> Seq<char> {
    op_text(c.op) + decimal(c.major as nat) + match c.minor {
        Some(minor) => "."@ + decimal(minor as nat) + match c.patch {
            Some(patch) => "."@ + decimal(patch as nat) + (if c.pre.len() > 0 { "-"@ + c.pre } else { Seq::empty() }),
            None => wildcard_tail(c.op),
        },
        None => wildcard_tail(c.op),
    }
}

/// The comparators of `cs` displayed and joined by `, `.
pub open spec fn comparators_text(cs: Seq<ComparatorView>) -> Seq<char>
    decreases cs.len(),
{
    if cs.len() <= 1 {
        if cs.len() == 1 { comparator_text(cs[0]) } else { Seq::empty() }
    } else {
        comparators_text(cs.drop_last()) + ", "@ + comparator_text(cs.last())
    }
}

/// How `semver` displays a requirement: `*` when it has no comparator, else its
/// comparators joined by `, `.
pub open spec fn requirement_text(cs: Seq<ComparatorView>) -> Seq<char> {
    if cs.len() == 0 { "*"@ } else { comparators_text(cs) }
}

/// A character that `semver` allows in pre-release and build identifiers.
pub open spec fn is_identifier_char(c: char) -> bool {
    ('A' <= c <= 'Z') || ('a' <= c <= 'z') || ('0' <= c <= '9') || c == '-'
}

/// A numeric identifier with a leading zero, such as `01`, begins at position `i`.
pub open spec fn leading_zero_at(s: Seq<char>, i: int) -> bool {
    &&& 0 <= i < s.len()
    &&& (i == 0 || s[i - 1] == '.')
    &&& s[i] == '0'
    &&& exists|e: int| i + 2 <= e <= s.len() && (e == s.len() || s[e] == '.')
        && forall|k: int| i <= k < e ==> '0' <= #[trigger] s[k] <= '9'
}

/// Text that `semver` accepts as pre-release identifiers (`numeric_rule`) or build
/// metadata: empty, or `.`-separated non-empty identifiers of ASCII letters, digits and
/// `-`; for pre-release, no numeric identifier of two or more digits starts with `0`.
pub open spec fn identifiers_ok(s: Seq<char>, numeric_rule: bool) -> bool {
    s.len() == 0 || {
        &&& forall|i: int| 0 <= i < s.len() ==> is_identifier_char(#[trigger] s[i]) || s[i] == '.'
        &&& s[0] != '.'
        &&& s[s.len() - 1] != '.'
        &&& forall|i: int| 0 <= i < s.len() - 1 ==> !(#[trigger] s[i] == '.' && s[i + 1] == '.')
        &&& numeric_rule ==> forall|i: int| !#[trigger] leading_zero_at(s, i)
    }
}

/// A version whose pre-release and build texts are ones `semver` accepts.
pub open spec fn version_well_formed(v: SemVersionView) -> bool {
    identifiers_ok(v.pre, true) && identifiers_ok(v.build, false)
}

/// A requirement whose pre-release texts are ones `semver` accepts.
pub open spec fn requirement_well_formed(req: Seq<ComparatorView>) -> bool {
    forall|i: int| 0 <= i < req.len() ==> identifiers_ok(#[trigger] req[i].pre, true)
}

/// The text that `semver` holds for an identifier text: the text itself when `semver`
/// accepts it, else nothing (a refused text is turned into an empty one).
pub open spec fn accepted_identifiers(s: Seq<char>, numeric_rule: bool) -> Seq<char> {
    if identifiers_ok(s, numeric_rule) { s } else { Seq::empty() }
}

/// What `semver` writes for a version: its display of the version with the texts it
/// accepts.
pub open spec fn displayed_version(v: SemVersionView) -> Seq<char> {
    version_text(SemVersionView {
        major: v.major,
        minor: v.minor,
        patch: v.patch,
        pre: accepted_identifiers(v.pre, true),
        build: accepted_identifiers(v.build, false),
    })
}

/// What `semver` writes for a requirement: its display of the requirement with the
/// pre-release texts it accepts.
pub open spec fn displayed_requirement(req: Seq<ComparatorView>) -> Seq<char> {
    requirement_text(req.map_values(|c: ComparatorView| ComparatorView {
        op: c.op,
        major: c.major,
        minor: c.minor,
        patch: c.patch,
        pre: accepted_identifiers(c.pre, true),
    }))
}

/// Whether `semver` finds that the requirement matches the version.
pub uninterp spec fn requirement_matches(req: Seq<ComparatorView>, version: SemVersionView) -> bool;

/// What `semver` parses from a text, when the text is a version.
pub uninterp spec fn parsed_version(text: Seq<char>) -> Option<SemVersionView>;

impl VersionRequirement {
    /// Whether the requirement matches `version`, as `semver` decides it.
    pub fn matches(&self, version: &SemVersion) -> (res: bool)
        ensures
            res == requirement_matches(self@, version@),
    {
        semver_matches(self, version)
    }
}

/// Trusted: `semver::VersionReq::matches`, on the requirement and version that these
/// values describe. Pre-release and build texts are turned back into `semver` values
/// with `Prerelease::new` and `BuildMetadata::new`; a text that `semver` would refuse,
/// which no parsed requirement or version holds, is taken as empty. The result is
/// named `requirement_matches`; what it is on given values is not stated.
#[verifier::external_body]
fn semver_matches(req: &VersionRequirement, version: &SemVersion) -> (res: bool)
    ensures
        res == requirement_matches(req@, version@),
{
    let ops = [Op::Exact, Op::Greater, Op::GreaterEq, Op::Less, Op::LessEq, Op::Tilde, Op::Caret, Op::Wildcard];
    let comparators = req.comparators.iter().map(|c| Comparator { op: ops[c.op as usize], major: c.major,
        minor: c.minor, patch: c.patch, pre: Prerelease::new(&c.pre).unwrap_or(Prerelease::EMPTY) }).collect();
    let pre = Prerelease::new(&version.pre).unwrap_or(Prerelease::EMPTY);
    let build = BuildMetadata::new(&version.build).unwrap_or(BuildMetadata::EMPTY);
    let v = Version { major: version.major, minor: version.minor, patch: version.patch, pre, build };
    VersionReq { comparators }.matches(&v)
}

impl SemVersion {
    /// The version as `semver` displays it.
    pub fn to_text(&self) -> (res: String)
        ensures
            res@ == displayed_version(self@),
            version_well_formed(self@) ==> res@ == version_text(self@),
    {
        semver_version_display(self)
    }
}

impl VersionRequirement {
    /// The requirement as `semver` displays it.
    pub fn to_text(&self) -> (res: String)
        ensures
            res@ == displayed_requirement(self@),
            requirement_well_formed(self@) ==> res@ == requirement_text(self@),
    {
        let res = semver_requirement_display(self);
        proof {
            if requirement_well_formed(self@) {
                let shown = self@.map_values(|c: ComparatorView| ComparatorView {
                    op: c.op,
                    major: c.major,
                    minor: c.minor,
                    patch: c.patch,
                    pre: accepted_identifiers(c.pre, true),
                });
                assert forall|i: int| 0 <= i < self@.len() implies shown[i] == self@[i] by {
                    assert(identifiers_ok(self@[i].pre, true));
                }
                assert(shown =~= self@);
            }
        }
        res
    }
}

/// Trusted: `<semver::Version as Display>`, on the version these values describe. The
/// texts are turned back with `Prerelease::new` and `BuildMetadata::new`, which accept
/// exactly the texts `identifiers_ok` describes; a refused text becomes empty. The
/// contract states what `semver`'s display code then writes: `major.minor.patch`, then
/// `-pre` and `+build` when they are not empty.
#[verifier::external_body]
fn semver_version_display(version: &SemVersion) -> (res: String)
    ensures
        res@ == displayed_version(version@),
{
    let pre = Prerelease::new(&version.pre).unwrap_or(Prerelease::EMPTY);
    let build = BuildMetadata::new(&version.build).unwrap_or(BuildMetadata::EMPTY);
    Version { major: version.major, minor: version.minor, patch: version.patch, pre, build }.to_string()
}

/// Trusted: `<semver::VersionReq as Display>`, on the requirement these values describe.
/// Pre-release texts are turned back with `Prerelease::new`, which accepts exactly the
/// texts `identifiers_ok` describes; a refused text becomes empty. The contract states
/// what `semver`'s display code then writes: `*` for no comparator, else each comparator
/// (operator, numbers, `-pre` after a patch, `.*` for a wildcard) joined by `, `.
#[verifier::external_body]
fn semver_requirement_display(req: &VersionRequirement) -> (res: String)
    ensures
        res@ == displayed_requirement(req@),
{
    let ops = [Op::Exact, Op::Greater, Op::GreaterEq, Op::Less, Op::LessEq, Op::Tilde, Op::Caret, Op::Wildcard];
    let comparators = req.comparators.iter().map(|c| Comparator { op: ops[c.op as usize], major: c.major,
        minor: c.minor, patch: c.patch, pre: Prerelease::new(&c.pre).unwrap_or(Prerelease::EMPTY) }).collect();
    VersionReq { comparators }.to_string()
}

/// Trusted: `semver::Version::parse`. The result is named `parsed_version`; the contract
/// also states what the parser's source shows for a plain `major.minor.patch` text of
/// canonical decimals: it parses to that version, with no pre-release or build.
#[verifier::external_body]
pub fn parse_version(text: &str) -> (res: Option<SemVersion>)
    ensures
        parsed_version(text@) == (match res {
            Some(v) => Some(v@),
            None => None::<SemVersionView>,
        }),
        forall|major: u64, minor: u64, patch: u64| #[trigger] core_text(major, minor, patch) == text@
            ==> res is Some && res->0@ == (SemVersionView { major, minor, patch, pre: Seq::empty(), build: Seq::empty() }),
{
    match Version::parse(text) {
        Ok(v) => Some(SemVersion { major: v.major, minor: v.minor, patch: v.patch,
            pre: v.pre.as_str().to_string(), build: v.build.as_str().to_string() }),
        Err(_) => None,
    }
}

} // verus!
