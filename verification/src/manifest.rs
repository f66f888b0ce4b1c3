//! The module manifest (`module.toml`) and the rules that a manifest must meet.

use vstd::prelude::*;
use vstd::utf8::encode_utf8;
use crate::error::{ManifestError, invalid, outcome_matches};
use crate::ident::{module_id_ok, module_id_error, provider_id_ok, provider_id_error, validate_module_id, validate_provider_id};
use crate::limits::SUPPORTED_API;
use crate::origin::{https_origin_ok, source_url_ok, is_https_origin, is_source_url};
use crate::outcome::{first_error, lemma_first_error_at, lemma_first_error_ok};
use crate::paths::{relative_path_ok, relative_path_error, validate_relative_path};
use crate::text::{text_ok, text_error, validate_text};
use crate::unicode::{ascii_lower, to_ascii_lower, chars_of, starts_with_text, debug_quoted, debug_text, has_white_space, contains_white_space};
use crate::version::{SemVersion, SemVersionView, VersionRequirement, requirement_matches, displayed_requirement, displayed_version, parse_version, core_text};

verus! {

/// What a module is made of. API v1 installs `Wasm` modules; `Declarative` is reserved.
#[derive(Clone, Copy, Debug, PartialEq, Eq, Structural)]
pub enum ModuleKind {
    Declarative,
    Wasm,
}

/// The name of a kind as a manifest writes it.
pub open spec fn kind_name(kind: ModuleKind) -> Seq<char> {
    match kind {
        ModuleKind::Declarative => "declarative"@,
        ModuleKind::Wasm => "wasm"@,
    }
}

impl ModuleKind {
    /// The name of the kind as a manifest writes it: `declarative` or `wasm`.
    pub fn name(&self) -> (res: &'static str)
        ensures
            res@ == kind_name(*self),
    {
        match self {
            ModuleKind::Declarative => "declarative",
            ModuleKind::Wasm => "wasm",
        }
    }
}

/// The host capabilities a module asks for.
#[derive(Clone, Debug, PartialEq, Eq)]
pub struct Permissions {
    /// The HTTPS origins the module may send requests to.
    pub network: Vec<String>,
    pub cache: bool,
    pub clipboard: bool,
    pub notifications: bool,
    pub commands: bool,
}

impl Default for Permissions {
    /// No capability at all.
    fn default() -> (res: Self)
        ensures
            res.network@.len() == 0,
            !res.cache,
            !res.clipboard,
            !res.notifications,
            !res.commands,
    {
        Permissions { network: Vec::new(), cache: false, clipboard: false, notifications: false, commands: false }
    }
}

/// One result provider of a module.
#[derive(Clone, Debug, PartialEq, Eq)]
pub struct ProviderManifest {
    pub id: String,
    pub name: String,
    pub description: String,
    /// Keywords that route a query to this provider.
    pub triggers: Vec<String>,
}

/// The content of a module's `module.toml`.
#[derive(Clone, Debug)]
pub struct ModuleManifest {
    pub id: String,
    pub name: String,
    pub description: String,
    pub author: String,
    pub version: SemVersion,
    /// The module API versions the module works with.
    pub api_version: VersionRequirement,
    pub license: String,
    pub source: String,
    pub homepage: Option<String>,
    /// The icon's path inside the package.
    pub icon: String,
    pub kind: ModuleKind,
    pub permissions: Permissions,
    pub providers: Vec<ProviderManifest>,
}

/// The module API version that this SDK supports, `SUPPORTED_API`.
pub open spec fn supported_api() -> SemVersionView {
    SemVersionView { major: 1, minor: 0, patch: 0, pre: Seq::empty(), build: Seq::empty() }
}

/// Whether `s` equals `t` when ASCII letters are compared without case.
pub open spec fn eq_ignore_ascii_case(s: Seq<char>, t: Seq<char>) -> bool {
    s.len() == t.len() && forall|i: int| 0 <= i < s.len() ==> ascii_lower(#[trigger] s[i]) == ascii_lower(t[i])
}

/// The identity that community modules may not claim: an id in the `rayslash.`
/// namespace, or the author `rayslash` in any case.
pub open spec fn reserved_identity(id: Seq<char>, author: Seq<char>) -> bool {
    ||| id.len() >= 9 && id.subrange(0, 9) == "rayslash."@
    ||| eq_ignore_ascii_case(author, "rayslash"@)
}

/// The refusal text for a reserved identity.
pub open spec fn reserved_error() -> Seq<char> {
    "the rayslash namespace and author are reserved"@
}

/// The refusal text for a source that is not a canonical repository URL.
pub open spec fn source_error() -> Seq<char> {
    "source must be a canonical HTTPS GitHub repository URL"@
}

/// The refusal text for an API requirement that excludes the supported API.
pub open spec fn api_version_error(req: Seq<char>) -> Seq<char> {
    "api_version "@ + req + " does not include supported API "@ + SUPPORTED_API@
}

/// The refusal text for a manifest without providers.
pub open spec fn no_provider_error() -> Seq<char> {
    "at least one provider is required"@
}

/// The refusal text for a trigger with whitespace.
pub open spec fn trigger_space_error(trigger: Seq<char>) -> Seq<char> {
    "trigger "@ + debug_text(trigger) + " must not contain whitespace"@
}

/// The refusal text for a network permission that is not an HTTPS origin.
pub open spec fn origin_error(origin: Seq<char>) -> Seq<char> {
    "network permission "@ + debug_text(origin) + " must be an HTTPS origin without path/query/fragment"@
}

/// The outcome of the rules for one trigger.
pub open spec fn trigger_check(t: Seq<char>) -> Result<(), Seq<char>> {
    if !text_ok(t, 1, 40) {
        Err(text_error("trigger"@, 1, 40))
    } else if has_white_space(t) {
        Err(trigger_space_error(t))
    } else {
        Ok(())
    }
}

/// The outcomes of the trigger rules, one per trigger.
pub open spec fn trigger_outcomes(ts: Seq<String>) -> Seq<Result<(), Seq<char>>> {
    ts.map_values(|t: String| trigger_check(t@))
}

/// The outcome of the rules for one provider: its id, name and description, then its
/// triggers in order.
pub open spec fn provider_check(p: ProviderManifest) -> Result<(), Seq<char>> {
    if !provider_id_ok(encode_utf8(p.id@)) {
        Err(provider_id_error(p.id@))
    } else if !text_ok(p.name@, 1, 80) {
        Err(text_error("provider name"@, 1, 80))
    } else if !text_ok(p.description@, 1, 200) {
        Err(text_error("provider description"@, 1, 200))
    } else {
        first_error(trigger_outcomes(p.triggers@))
    }
}

/// The outcomes of the provider rules, one per provider.
pub open spec fn provider_outcomes(ps: Seq<ProviderManifest>) -> Seq<Result<(), Seq<char>>> {
    ps.map_values(|p: ProviderManifest| provider_check(p))
}

/// The outcome of the rule for one network permission.
pub open spec fn origin_check(o: Seq<char>) -> Result<(), Seq<char>> {
    if https_origin_ok(o) { Ok(()) } else { Err(origin_error(o)) }
}

/// The outcomes of the network permission rule, one per origin.
pub open spec fn origin_outcomes(os: Seq<String>) -> Seq<Result<(), Seq<char>>> {
    os.map_values(|o: String| origin_check(o@))
}

/// The outcome of all manifest rules, checked in order, when `api_supported` tells
/// whether the manifest's `api_version` includes the supported API; the first broken rule
/// gives the refusal text. `allow_official` lets official modules claim the reserved
/// identity.
pub open spec fn manifest_check_with(m: ModuleManifest, allow_official: bool, api_supported: bool) -> Result<(), Seq<char>> {
    if !module_id_ok(encode_utf8(m.id@)) {
        Err(module_id_error(m.id@))
    } else if !allow_official && reserved_identity(m.id@, m.author@) {
        Err(reserved_error())
    } else if !text_ok(m.name@, 1, 80) {
        Err(text_error("name"@, 1, 80))
    } else if !text_ok(m.description@, 1, 200) {
        Err(text_error("description"@, 1, 200))
    } else if !text_ok(m.author@, 1, 80) {
        Err(text_error("author"@, 1, 80))
    } else if !text_ok(m.license@, 1, 80) {
        Err(text_error("license"@, 1, 80))
    } else if !source_url_ok(m.source@) {
        Err(source_error())
    } else if !relative_path_ok(m.icon@) {
        Err(relative_path_error("icon"@))
    } else if !api_supported {
        Err(api_version_error(displayed_requirement(m.api_version@)))
    } else if m.providers@.len() == 0 {
        Err(no_provider_error())
    } else if first_error(provider_outcomes(m.providers@)) is Err {
        first_error(provider_outcomes(m.providers@))
    } else {
        first_error(origin_outcomes(m.permissions.network@))
    }
}

/// The outcome of all manifest rules, checked in order, with `semver` deciding whether
/// the manifest's `api_version` includes the supported API.
pub open spec fn manifest_check(m: ModuleManifest, allow_official: bool) -> Result<(), Seq<char>> {
    manifest_check_with(m, allow_official, api_includes_supported(m))
}

/// Whether the manifest's `api_version` includes the supported API, as `semver` decides.
pub open spec fn api_includes_supported(m: ModuleManifest) -> bool {
    requirement_matches(m.api_version@, supported_api())
}

/// Every rule for a provider holds.
pub open spec fn provider_valid(p: ProviderManifest) -> bool {
    &&& provider_id_ok(encode_utf8(p.id@))
    &&& text_ok(p.name@, 1, 80)
    &&& text_ok(p.description@, 1, 200)
    &&& forall|j: int| 0 <= j < p.triggers@.len() ==> {
        &&& text_ok(#[trigger] p.triggers@[j]@, 1, 40)
        &&& !has_white_space(p.triggers@[j]@)
    }
}

/// Every manifest rule holds, whatever the order in which they are checked, when
/// `api_supported` tells whether the `api_version` includes the supported API.
pub open spec fn manifest_valid_with(m: ModuleManifest, allow_official: bool, api_supported: bool) -> bool {
    &&& module_id_ok(encode_utf8(m.id@))
    &&& (allow_official || !reserved_identity(m.id@, m.author@))
    &&& text_ok(m.name@, 1, 80)
    &&& text_ok(m.description@, 1, 200)
    &&& text_ok(m.author@, 1, 80)
    &&& text_ok(m.license@, 1, 80)
    &&& source_url_ok(m.source@)
    &&& relative_path_ok(m.icon@)
    &&& api_supported
    &&& m.providers@.len() > 0
    &&& forall|i: int| 0 <= i < m.providers@.len() ==> provider_valid(#[trigger] m.providers@[i])
    &&& forall|i: int| 0 <= i < m.permissions.network@.len() ==> https_origin_ok(#[trigger] m.permissions.network@[i]@)
}

/// Every manifest rule holds, with `semver` deciding the `api_version` rule.
pub open spec fn manifest_valid(m: ModuleManifest, allow_official: bool) -> bool {
    manifest_valid_with(m, allow_official, api_includes_supported(m))
}

fn is_reserved_author(author: &str) -> (res: bool)
    ensures
        res == eq_ignore_ascii_case(author@, "rayslash"@),
{
    let a = chars_of(author);
    let r = chars_of("rayslash");
    if a.len() != r.len() {
        return false;
    }
    let mut i: usize = 0;
    while i < a.len()
        invariant
            a@ == author@,
            r@ == "rayslash"@,
            a@.len() == r@.len(),
            i <= a@.len(),
            forall|k: int| 0 <= k < i ==> ascii_lower(#[trigger] a@[k]) == ascii_lower(r@[k]),
        decreases a@.len() - i,
    {
        let x = a[i];
        let y = r[i];
        if to_ascii_lower(x) != to_ascii_lower(y) {
            return false;
        }
        i += 1;
    }
    true
}

fn is_reserved_identity(id: &str, author: &str) -> (res: bool)
    ensures
        res == reserved_identity(id@, author@),
{
    let chars = chars_of(id);
    proof {
        reveal_strlit("rayslash.");
    }
    starts_with_text(&chars, "rayslash.") || is_reserved_author(author)
}

fn check_trigger(trigger: &str) -> (res: Result<(), ManifestError>)
    ensures
        outcome_matches(res, trigger_check(trigger@)),
{
    let r = validate_text("trigger", trigger, 1, 40);
    if r.is_err() {
        return r;
    }
    if contains_white_space(trigger) {
        let mut msg = String::from_str("trigger ");
        let quoted = debug_quoted(trigger);
        msg.append(quoted.as_str());
        msg.append(" must not contain whitespace");
        return invalid(msg);
    }
    Ok(())
}

fn check_provider(p: &ProviderManifest) -> (res: Result<(), ManifestError>)
    ensures
        outcome_matches(res, provider_check(*p)),
{
    let r = validate_provider_id(p.id.as_str());
    if r.is_err() {
        return r;
    }
    let r = validate_text("provider name", p.name.as_str(), 1, 80);
    if r.is_err() {
        return r;
    }
    let r = validate_text("provider description", p.description.as_str(), 1, 200);
    if r.is_err() {
        return r;
    }
    let ghost outcomes = trigger_outcomes(p.triggers@);
    assert(provider_check(*p) == first_error(outcomes));
    let mut i: usize = 0;
    while i < p.triggers.len()
        invariant
            provider_check(*p) == first_error(outcomes),
            i <= p.triggers@.len(),
            outcomes == trigger_outcomes(p.triggers@),
            forall|k: int| 0 <= k < i ==> #[trigger] outcomes[k] is Ok,
        decreases p.triggers@.len() - i,
    {
        let r = check_trigger(p.triggers[i].as_str());
        assert(outcomes[i as int] == trigger_check(p.triggers@[i as int]@));
        if r.is_err() {
            proof {
                lemma_first_error_at(outcomes, i as int);
            }
            return r;
        }
        i += 1;
    }
    proof {
        lemma_first_error_ok(outcomes);
    }
    Ok(())
}

/// The rules of one provider pass, checked in order, exactly when they all hold.
pub proof fn lemma_provider_check_ok_iff_valid(p: ProviderManifest)
    ensures
        provider_check(p) is Ok <==> provider_valid(p),
{
    let ts = trigger_outcomes(p.triggers@);
    lemma_first_error_ok(ts);
    assert forall|j: int| 0 <= j < p.triggers@.len() implies (#[trigger] ts[j] is Ok <==> (text_ok(p.triggers@[j]@, 1, 40) && !has_white_space(p.triggers@[j]@))) by {
        assert(ts[j] == trigger_check(p.triggers@[j]@));
    }
    if provider_valid(p) {
        assert forall|j: int| 0 <= j < ts.len() implies #[trigger] ts[j] is Ok by {
            assert(text_ok(p.triggers@[j]@, 1, 40));
        }
    }
    if provider_check(p) is Ok {
        assert forall|j: int| 0 <= j < p.triggers@.len() implies {
            &&& text_ok(#[trigger] p.triggers@[j]@, 1, 40)
            &&& !has_white_space(p.triggers@[j]@)
        } by {
            assert(ts[j] is Ok);
        }
    }
}

/// A manifest passes its rules checked in order exactly when every rule holds: the
/// order of the checks decides only which refusal is reported.
pub proof fn lemma_check_ok_iff_valid(m: ModuleManifest, allow_official: bool, api_supported: bool)
    ensures
        manifest_check_with(m, allow_official, api_supported) is Ok <==> manifest_valid_with(m, allow_official, api_supported),
{
    let ps = provider_outcomes(m.providers@);
    let os = origin_outcomes(m.permissions.network@);
    lemma_first_error_ok(ps);
    lemma_first_error_ok(os);
    assert forall|i: int| 0 <= i < m.providers@.len() implies (#[trigger] ps[i] is Ok <==> provider_valid(m.providers@[i])) by {
        assert(ps[i] == provider_check(m.providers@[i]));
        lemma_provider_check_ok_iff_valid(m.providers@[i]);
    }
    assert forall|i: int| 0 <= i < m.permissions.network@.len() implies (#[trigger] os[i] is Ok <==> https_origin_ok(m.permissions.network@[i]@)) by {
        assert(os[i] == origin_check(m.permissions.network@[i]@));
    }
    if manifest_valid_with(m, allow_official, api_supported) {
        assert forall|i: int| 0 <= i < ps.len() implies #[trigger] ps[i] is Ok by {
            assert(provider_valid(m.providers@[i]));
        }
        assert forall|i: int| 0 <= i < os.len() implies #[trigger] os[i] is Ok by {
            assert(https_origin_ok(m.permissions.network@[i]@));
        }
    }
    if manifest_check_with(m, allow_official, api_supported) is Ok {
        assert forall|i: int| 0 <= i < m.providers@.len() implies provider_valid(#[trigger] m.providers@[i]) by {
            assert(ps[i] is Ok);
        }
        assert forall|i: int| 0 <= i < m.permissions.network@.len() implies https_origin_ok(#[trigger] m.permissions.network@[i]@) by {
            assert(os[i] is Ok);
        }
    }
}

/// The official flag only lifts the reserved-identity rule: a manifest passes as a
/// community module exactly when it passes as an official one and does not claim the
/// `rayslash` namespace or author.
pub proof fn lemma_official_only_lifts_reservation(m: ModuleManifest)
    ensures
        manifest_check(m, false) is Ok <==> (manifest_check(m, true) is Ok && !reserved_identity(m.id@, m.author@)),
{
    lemma_check_ok_iff_valid(m, false, api_includes_supported(m));
    lemma_check_ok_iff_valid(m, true, api_includes_supported(m));
}

/// A community module that passes the rules neither uses an id in the `rayslash.`
/// namespace nor names `rayslash`, in any letter case, as its author; every network
/// permission it declares is an HTTPS origin; and its icon is a relative path without
/// `..`.
pub proof fn lemma_accepted_community_manifest(m: ModuleManifest)
    requires
        manifest_check(m, false) is Ok,
    ensures
        !(m.id@.len() >= 9 && m.id@.subrange(0, 9) == "rayslash."@),
        !eq_ignore_ascii_case(m.author@, "rayslash"@),
        forall|i: int| 0 <= i < m.permissions.network@.len() ==> https_origin_ok(#[trigger] m.permissions.network@[i]@),
        !crate::paths::is_absolute(m.icon@),
        !crate::paths::has_parent_dir(m.icon@),
{
    lemma_check_ok_iff_valid(m, false, api_includes_supported(m));
}

impl ModuleManifest {
    /// The line that reports an accepted module: `valid <id> <version> (<kind>)`.
    pub fn summary(&self) -> (res: String)
        ensures
            res@ == "valid "@ + self.id@ + " "@ + displayed_version(self.version@) + " ("@ + kind_name(self.kind) + ")"@,
    {
        let mut out = String::from_str("valid ");
        out.append(self.id.as_str());
        out.append(" ");
        let version = self.version.to_text();
        out.append(version.as_str());
        out.append(" (");
        out.append(self.kind.name());
        out.append(")");
        out
    }

    /// Checks the manifest against the module rules, in order, and reports the first
    /// rule it breaks. With `allow_official`, the reserved `rayslash` identity is allowed.
    pub fn validate(&self, allow_official: bool) -> (res: Result<(), ManifestError>)
        ensures
            outcome_matches(res, manifest_check(*self, allow_official)),
            res is Ok <==> manifest_valid(*self, allow_official),
    {
        let supported = parse_version(SUPPORTED_API);
        proof {
            reveal_strlit("1.0.0");
            reveal_strlit(".");
            assert(core_text(1, 0, 0) == SUPPORTED_API@);
        }
        let supported = supported.unwrap();
        let api_supported = self.api_version.matches(&supported);
        self.validate_with_api_support(allow_official, api_supported)
    }

    /// Checks the manifest against the module rules, in order, and reports the first
    /// rule it breaks, given whether its `api_version` includes the supported API.
    pub fn validate_with_api_support(&self, allow_official: bool, api_supported: bool) -> (res: Result<(), ManifestError>)
        ensures
            outcome_matches(res, manifest_check_with(*self, allow_official, api_supported)),
            res is Ok <==> manifest_valid_with(*self, allow_official, api_supported),
    {
        proof {
            lemma_check_ok_iff_valid(*self, allow_official, api_supported);
        }
        let r = validate_module_id(self.id.as_str());
        if r.is_err() {
            return r;
        }
        if !allow_official && is_reserved_identity(self.id.as_str(), self.author.as_str()) {
            return invalid(String::from_str("the rayslash namespace and author are reserved"));
        }
        let r = validate_text("name", self.name.as_str(), 1, 80);
        if r.is_err() {
            return r;
        }
        let r = validate_text("description", self.description.as_str(), 1, 200);
        if r.is_err() {
            return r;
        }
        let r = validate_text("author", self.author.as_str(), 1, 80);
        if r.is_err() {
            return r;
        }
        let r = validate_text("license", self.license.as_str(), 1, 80);
        if r.is_err() {
            return r;
        }
        if !is_source_url(self.source.as_str()) {
            return invalid(String::from_str("source must be a canonical HTTPS GitHub repository URL"));
        }
        let r = validate_relative_path("icon", self.icon.as_str());
        if r.is_err() {
            return r;
        }
        if !api_supported {
            let mut msg = String::from_str("api_version ");
            let req = self.api_version.to_text();
            msg.append(req.as_str());
            msg.append(" does not include supported API ");
            msg.append(SUPPORTED_API);
            return invalid(msg);
        }
        if self.providers.len() == 0 {
            return invalid(String::from_str("at least one provider is required"));
        }
        let ghost providers = provider_outcomes(self.providers@);
        let ghost origins = origin_outcomes(self.permissions.network@);
        let ghost outcome = manifest_check_with(*self, allow_official, api_supported);
        assert(outcome == if first_error(providers) is Err { first_error(providers) } else { first_error(origins) });
        let mut i: usize = 0;
        while i < self.providers.len()
            invariant
                outcome == manifest_check_with(*self, allow_official, api_supported),
                outcome is Ok <==> manifest_valid_with(*self, allow_official, api_supported),
                origins == origin_outcomes(self.permissions.network@),
                outcome == if first_error(providers) is Err { first_error(providers) } else { first_error(origins) },
                i <= self.providers@.len(),
                providers == provider_outcomes(self.providers@),
                forall|k: int| 0 <= k < i ==> #[trigger] providers[k] is Ok,
            decreases self.providers@.len() - i,
        {
            let r = check_provider(&self.providers[i]);
            assert(providers[i as int] == provider_check(self.providers@[i as int]));
            if r.is_err() {
                proof {
                    lemma_first_error_at(providers, i as int);
                }
                return r;
            }
            i += 1;
        }
        proof {
            lemma_first_error_ok(providers);
        }
        let mut j: usize = 0;
        while j < self.permissions.network.len()
            invariant
                outcome == manifest_check_with(*self, allow_official, api_supported),
                outcome is Ok <==> manifest_valid_with(*self, allow_official, api_supported),
                outcome == first_error(origins),
                j <= self.permissions.network@.len(),
                origins == origin_outcomes(self.permissions.network@),
                forall|k: int| 0 <= k < j ==> #[trigger] origins[k] is Ok,
            decreases self.permissions.network@.len() - j,
        {
            let origin = self.permissions.network[j].as_str();
            assert(origins[j as int] == origin_check(self.permissions.network@[j as int]@));
            if !is_https_origin(origin) {
                proof {
                    lemma_first_error_at(origins, j as int);
                }
                let mut msg = String::from_str("network permission ");
                let quoted = debug_quoted(origin);
                msg.append(quoted.as_str());
                msg.append(" must be an HTTPS origin without path/query/fragment");
                return invalid(msg);
            }
            j += 1;
        }
        proof {
            lemma_first_error_ok(origins);
        }
        Ok(())
    }
}

} // verus!
