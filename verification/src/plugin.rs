//! Domain packs: sealed rules that a project has to keep.
use crate::composer::decl::opt_text;
use crate::composer::integrity::{hex, sha256_hex};
use crate::graph::{code_unit_node_id, unit_id};
use crate::json::{canon, copy_json, list_push, list_views, Fields, Json, JsonView};
use crate::lists::{lemma_both_have, lemma_flat_next, lemma_kept_next};
use crate::llm::prompts::{design_dir, hi_dir};
use crate::outside::{
    canonical_document, canonical_json, from_utf8, json_parsed_bytes, parse_json_bytes,
    sha256_digest, utf8_fault,
};
use crate::paths::{join_path, joined};
use crate::text::{
    copy_texts, distinct, distinct_texts, has_text, law_distinct, same_text, texts, texts_push,
};
use vstd::prelude::*;
use vstd::string::StringSliceAdditionalSpecFns;
use vstd::utf8::{decode_utf8, encode_utf8, valid_utf8};

verus! {

/// What is put before a manifest when its digest is taken.
pub const PACK_ID_DOMAIN_SEPARATOR: &'static str = "nir-plugin/v1\0";

pub open spec fn not_json(error: Seq<char>) -> Seq<char> {
    "pack manifest is not valid JSON: "@ + error
}

fn say_not_json(error: &str) -> (out: String)
    ensures
        out@ == not_json(error@),
{
    let mut out: String = "pack manifest is not valid JSON: ".to_owned();
    out.append(error);
    out
}

pub open spec fn not_canonical(error: Seq<char>) -> Seq<char> {
    "canonicalizing pack manifest: "@ + error
}

fn say_not_canonical(error: &str) -> (out: String)
    ensures
        out@ == not_canonical(error@),
{
    let mut out: String = "canonicalizing pack manifest: ".to_owned();
    out.append(error);
    out
}

/// The identity of a manifest whose canonical form is given: a digest that is
/// taken of nothing else.
pub open spec fn content_id(canonical: Seq<u8>) -> Seq<char> {
    "sha256:"@ + hex(sha256_digest(encode_utf8(PACK_ID_DOMAIN_SEPARATOR@) + canonical))
}

/// The identity of a manifest: that of its canonical form.
pub open spec fn pack_id_of(manifest: Seq<u8>) -> Result<Seq<char>, Seq<char>> {
    match json_parsed_bytes(manifest) {
        Err(e) => Err(not_json(e)),
        Ok(v) => match canonical_document(canon(v)) {
            Err(e) => Err(not_canonical(e)),
            Ok(bytes) => Ok(content_id(bytes)),
        },
    }
}

/// The identity of a manifest whose canonical form is given.
pub fn canonical_content_id(canonical: &Vec<u8>) -> (out: String)
    ensures
        out@ == content_id(canonical@),
{
    let mut payload: Vec<u8> = PACK_ID_DOMAIN_SEPARATOR.as_bytes_vec();
    let ghost head = payload@;
    let mut i: usize = 0;
    assert(payload@ =~= head + canonical@.take(0));
    while i < canonical.len()
        invariant
            i <= canonical@.len(),
            payload@ == head + canonical@.take(i as int),
        decreases canonical@.len() - i,
    {
        payload.push(canonical[i]);
        i += 1;
        assert(payload@ =~= head + canonical@.take(i as int));
    }
    assert(canonical@.take(i as int) =~= canonical@);
    let mut out: String = "sha256:".to_owned();
    out.append(sha256_hex(payload.as_slice()).as_str());
    out
}

/// The identity of a manifest.
pub fn pack_content_id(manifest_bytes: &[u8]) -> (out: Result<String, String>)
    ensures
        match out {
            Ok(id) => pack_id_of(manifest_bytes@) == Ok::<Seq<char>, Seq<char>>(id@),
            Err(e) => pack_id_of(manifest_bytes@) == Err::<Seq<char>, Seq<char>>(e@),
        },
{
    match parse_json_bytes(manifest_bytes) {
        Err(e) => Err(say_not_json(e.as_str())),
        Ok(v) => match canonical_json(&v) {
            Err(e) => Err(say_not_canonical(e.as_str())),
            Ok(bytes) => Ok(canonical_content_id(&bytes)),
        },
    }
}

/// Two encodings of one manifest share one identity: white space and the order
/// of keys do not count.
pub proof fn law_equal_manifests_share_an_id(a: Seq<u8>, b: Seq<u8>)
    requires
        json_parsed_bytes(a) is Ok,
        json_parsed_bytes(b) is Ok,
        canon(json_parsed_bytes(a)->Ok_0) == canon(json_parsed_bytes(b)->Ok_0),
    ensures
        pack_id_of(a) == pack_id_of(b),
{
}

/// How far a pack has to be trusted before it is installed.
#[derive(Clone, Copy, Debug, PartialEq, Eq, Structural)]
pub enum DomainClass {
    LongTail,
    Regulated,
}

impl Default for DomainClass {
    /// A pack that says nothing asks for no more trust than any other.
    fn default() -> (out: DomainClass)
        ensures
            out is LongTail,
    {
        DomainClass::LongTail
    }
}

pub struct StaticRule {
    pub kind: String,
}

pub struct WiringRequirement {
    pub kind: String,
    pub params: Json,
}

pub struct ExternalConformanceRequirement {
    pub kind: String,
    pub description: String,
}

/// A set of rules that a pack names.
pub struct ComplianceProfile {
    pub name: String,
    pub version: String,
    pub static_rules: Vec<StaticRule>,
    pub wiring_requirements: Vec<WiringRequirement>,
    pub external_conformance: Vec<ExternalConformanceRequirement>,
}

#[verifier::ext_equal]
pub struct ProfileView {
    pub name: Seq<char>,
    pub version: Seq<char>,
    pub static_rules: Seq<Seq<char>>,
    pub wiring: Seq<(Seq<char>, JsonView)>,
    pub conformance: Seq<(Seq<char>, Seq<char>)>,
}

pub open spec fn rule_views(rules: Seq<StaticRule>) -> Seq<Seq<char>> {
    rules.map_values(|r: StaticRule| r.kind@)
}

pub open spec fn wiring_views(list: Seq<WiringRequirement>) -> Seq<(Seq<char>, JsonView)> {
    list.map_values(|w: WiringRequirement| (w.kind@, w.params@))
}

pub open spec fn conformance_views(list: Seq<ExternalConformanceRequirement>) -> Seq<
    (Seq<char>, Seq<char>),
> {
    list.map_values(|e: ExternalConformanceRequirement| (e.kind@, e.description@))
}

impl View for ComplianceProfile {
    type V = ProfileView;

    open spec fn view(&self) -> ProfileView {
        ProfileView {
            name: self.name@,
            version: self.version@,
            static_rules: rule_views(self.static_rules@),
            wiring: wiring_views(self.wiring_requirements@),
            conformance: conformance_views(self.external_conformance@),
        }
    }
}

pub open spec fn profile_views(list: Seq<ComplianceProfile>) -> Seq<ProfileView> {
    list.map_values(|p: ComplianceProfile| p@)
}

pub struct PackSignature {
    pub params: Vec<(String, String)>,
    pub ret: String,
}

pub struct ValidateTemplate {
    pub fn_name: String,
    pub pre: Option<String>,
    pub post: Vec<String>,
}

/// The parameters, with their types, and the result of a demanded function.
#[verifier::ext_equal]
pub struct SignatureView {
    pub params: Seq<(Seq<char>, Seq<char>)>,
    pub ret: Seq<char>,
}

impl View for PackSignature {
    type V = SignatureView;

    open spec fn view(&self) -> SignatureView {
        SignatureView { params: crate::composer::decl::pairs(self.params@), ret: self.ret@ }
    }
}

/// What is to hold before and after a function.
#[verifier::ext_equal]
pub struct ValidateView {
    pub fn_name: Seq<char>,
    pub pre: Option<Seq<char>>,
    pub post: Seq<Seq<char>>,
}

impl View for ValidateTemplate {
    type V = ValidateView;

    open spec fn view(&self) -> ValidateView {
        ValidateView { fn_name: self.fn_name@, pre: opt_text(self.pre), post: texts(self.post@) }
    }
}

/// A unit of code that a pack demands.
pub struct PackInvariant {
    pub kind: String,
    pub name: String,
    pub attributes: Vec<String>,
    pub signature: PackSignature,
    pub validates: Vec<ValidateTemplate>,
}

#[verifier::ext_equal]
pub struct InvariantView {
    pub kind: Seq<char>,
    pub name: Seq<char>,
    pub attributes: Seq<Seq<char>>,
    pub signature: SignatureView,
    pub validates: Seq<ValidateView>,
}

impl View for PackInvariant {
    type V = InvariantView;

    open spec fn view(&self) -> InvariantView {
        InvariantView {
            kind: self.kind@,
            name: self.name@,
            attributes: texts(self.attributes@),
            signature: self.signature@,
            validates: self.validates@.map_values(|v: ValidateTemplate| v@),
        }
    }
}

pub open spec fn invariant_views(list: Seq<PackInvariant>) -> Seq<InvariantView> {
    list.map_values(|i: PackInvariant| i@)
}

/// What a pack declares.
pub struct PackManifest {
    pub id: String,
    pub name: String,
    pub domain_class: DomainClass,
    pub jurisdictions: Vec<String>,
    pub invariants: Vec<PackInvariant>,
    pub relations: Vec<(String, String)>,
    pub mandatory_fns: Vec<String>,
    pub primitives_nir: Option<String>,
    pub compliance_profiles: Vec<ComplianceProfile>,
    pub protected_structs: Vec<String>,
}

#[verifier::ext_equal]
pub struct ManifestView {
    pub id: Seq<char>,
    pub name: Seq<char>,
    pub domain_class: DomainClass,
    pub jurisdictions: Seq<Seq<char>>,
    pub invariants: Seq<InvariantView>,
    pub relations: Seq<(Seq<char>, Seq<char>)>,
    pub mandatory_fns: Seq<Seq<char>>,
    pub primitives_nir: Option<Seq<char>>,
    pub profiles: Seq<ProfileView>,
    pub protected_structs: Seq<Seq<char>>,
}

impl View for PackManifest {
    type V = ManifestView;

    open spec fn view(&self) -> ManifestView {
        ManifestView {
            id: self.id@,
            name: self.name@,
            domain_class: self.domain_class,
            jurisdictions: texts(self.jurisdictions@),
            invariants: invariant_views(self.invariants@),
            relations: crate::composer::decl::pairs(self.relations@),
            mandatory_fns: texts(self.mandatory_fns@),
            primitives_nir: opt_text(self.primitives_nir),
            profiles: profile_views(self.compliance_profiles@),
            protected_structs: texts(self.protected_structs@),
        }
    }
}

pub open spec fn manifest_views(list: Seq<PackManifest>) -> Seq<ManifestView> {
    list.map_values(|m: PackManifest| m@)
}

/// The wiring requirements that something is done about.
pub open spec fn supported_wiring(kind: Seq<char>) -> bool {
    ||| kind == "sender_constrained_tokens"@
    ||| kind == "par"@
    ||| kind == "pkce_s256"@
    ||| kind == "iss_check"@
    ||| kind == "par_request_uri_lifetime"@
}

fn is_supported_wiring(kind: &str) -> (r: bool)
    ensures
        r == supported_wiring(kind@),
{
    same_text(kind, "sender_constrained_tokens") || same_text(kind, "par") || same_text(
        kind,
        "pkce_s256",
    ) || same_text(kind, "iss_check") || same_text(kind, "par_request_uri_lifetime")
}

/// The static rules that are checked.
pub open spec fn supported_rule(kind: Seq<char>) -> bool {
    ||| kind == "exposed_mutating_requires_role"@
    ||| kind == "deny_by_default_exposure"@
    ||| kind == "no_plaintext_secret_params"@
}

fn is_supported_rule(kind: &str) -> (r: bool)
    ensures
        r == supported_rule(kind@),
{
    same_text(kind, "exposed_mutating_requires_role") || same_text(
        kind,
        "deny_by_default_exposure",
    ) || same_text(kind, "no_plaintext_secret_params")
}

pub open spec fn unsupported_wiring(pack: Seq<char>, profile: Seq<char>, kind: Seq<char>) -> Seq<char> {
    "pack `"@
        + pack
        + "` profile `"@
        + profile
        + "` declares wiring_requirement kind `"@
        + kind
        + "`, which this toolchain has no emitter for -- refusing to load rather than silently \
    ignoring it (supported kinds: sender_constrained_tokens, par, pkce_s256, iss_check, \
    par_request_uri_lifetime)"@
}

fn say_unsupported_wiring(pack: &str, profile: &str, kind: &str) -> (out: String)
    ensures
        out@ == unsupported_wiring(pack@, profile@, kind@),
{
    let mut out: String = "pack `".to_owned();
    out.append(pack);
    out.append("` profile `");
    out.append(profile);
    out.append("` declares wiring_requirement kind `");
    out.append(kind);
    out.append("`, which this toolchain has no emitter for -- refusing to load rather than silently \
        ignoring it (supported kinds: sender_constrained_tokens, par, pkce_s256, iss_check, \
        par_request_uri_lifetime)");
    out
}

pub open spec fn unsupported_rule(pack: Seq<char>, profile: Seq<char>, kind: Seq<char>) -> Seq<char> {
    "pack `"@
        + pack
        + "` profile `"@
        + profile
        + "` declares static_rule kind `"@
        + kind
        + "`, which this toolchain does not check -- refusing to load rather than silently \
    ignoring it (supported kinds: exposed_mutating_requires_role, deny_by_default_exposure, \
    no_plaintext_secret_params)"@
}

fn say_unsupported_rule(pack: &str, profile: &str, kind: &str) -> (out: String)
    ensures
        out@ == unsupported_rule(pack@, profile@, kind@),
{
    let mut out: String = "pack `".to_owned();
    out.append(pack);
    out.append("` profile `");
    out.append(profile);
    out.append("` declares static_rule kind `");
    out.append(kind);
    out.append("`, which this toolchain does not check -- refusing to load rather than silently \
        ignoring it (supported kinds: exposed_mutating_requires_role, \
        deny_by_default_exposure, no_plaintext_secret_params)");
    out
}

pub open spec fn has_primitives(pack: Seq<char>) -> Seq<char> {
    "pack `"@ + pack + "` declares `primitives_nir`, but this toolchain no longer has a native `.nir` compiler \
    to parse/typecheck/prove it against (hi was split out of the native compiler crate \
    2026-09-16) -- ship a pack with no `primitives_nir` (mandatory_fns/protected_structs \
    alone still work), or install it against the native `nirdosha` compiler's own pack \
    tooling if one still exists for it"@
}

fn say_has_primitives(pack: &str) -> (out: String)
    ensures
        out@ == has_primitives(pack@),
{
    let mut out: String = "pack `".to_owned();
    out.append(pack);
    out.append("` declares `primitives_nir`, but this toolchain no longer has a native `.nir` \
        compiler to parse/typecheck/prove it against (hi was split out of the native \
        compiler crate 2026-09-16) -- ship a pack with no `primitives_nir` \
        (mandatory_fns/protected_structs alone still work), or install it against the \
        native `nirdosha` compiler's own pack tooling if one still exists for it");
    out
}

/// The first wiring requirement, from one on, that nothing is done about.
pub open spec fn bad_wiring(list: Seq<(Seq<char>, JsonView)>, from: nat) -> Option<Seq<char>>
    decreases list.len() - from,
{
    if from >= list.len() {
        None
    } else if !supported_wiring(list[from as int].0) {
        Some(list[from as int].0)
    } else {
        bad_wiring(list, from + 1)
    }
}

/// The first static rule, from one on, that is not checked.
pub open spec fn bad_rule(list: Seq<Seq<char>>, from: nat) -> Option<Seq<char>>
    decreases list.len() - from,
{
    if from >= list.len() {
        None
    } else if !supported_rule(list[from as int]) {
        Some(list[from as int])
    } else {
        bad_rule(list, from + 1)
    }
}

/// What is wrong with a profile; its wiring comes first.
pub open spec fn profile_fault(pack: Seq<char>, p: ProfileView) -> Option<Seq<char>> {
    match bad_wiring(p.wiring, 0) {
        Some(kind) => Some(unsupported_wiring(pack, p.name, kind)),
        None => match bad_rule(p.static_rules, 0) {
            Some(kind) => Some(unsupported_rule(pack, p.name, kind)),
            None => None,
        },
    }
}

/// What is wrong with the first profile, from one on, that something is wrong
/// with.
pub open spec fn profiles_fault(
    pack: Seq<char>,
    profiles: Seq<ProfileView>,
    from: nat,
) -> Option<Seq<char>>
    decreases profiles.len() - from,
{
    if from >= profiles.len() {
        None
    } else if profile_fault(pack, profiles[from as int]) is Some {
        profile_fault(pack, profiles[from as int])
    } else {
        profiles_fault(pack, profiles, from + 1)
    }
}

fn check_profile(pack: &str, p: &ComplianceProfile) -> (out: Option<String>)
    ensures
        opt_text(out) == profile_fault(pack@, p@),
{
    let ghost wiring = p@.wiring;
    let ghost rules = p@.static_rules;
    assert(wiring.len() == p.wiring_requirements@.len());
    assert(rules.len() == p.static_rules@.len());
    let mut i: usize = 0;
    while i < p.wiring_requirements.len()
        invariant
            i <= p.wiring_requirements@.len(),
            wiring == p@.wiring,
            wiring.len() == p.wiring_requirements@.len(),
            bad_wiring(wiring, 0) == bad_wiring(wiring, i as nat),
        decreases p.wiring_requirements@.len() - i,
    {
        let kind: &str = p.wiring_requirements[i].kind.as_str();
        assert(wiring[i as int].0 == kind@);
        if !is_supported_wiring(kind) {
            return Some(say_unsupported_wiring(pack, p.name.as_str(), kind));
        }
        i += 1;
    }
    let mut k: usize = 0;
    while k < p.static_rules.len()
        invariant
            k <= p.static_rules@.len(),
            rules == p@.static_rules,
            rules.len() == p.static_rules@.len(),
            bad_wiring(p@.wiring, 0) is None,
            bad_rule(rules, 0) == bad_rule(rules, k as nat),
        decreases p.static_rules@.len() - k,
    {
        let kind: &str = p.static_rules[k].kind.as_str();
        assert(rules[k as int] == kind@);
        if !is_supported_rule(kind) {
            return Some(say_unsupported_rule(pack, p.name.as_str(), kind));
        }
        k += 1;
    }
    None
}

/// Whether everything that the profiles of a pack demand is dealt with.
pub fn validate_compliance_profiles(manifest: &PackManifest) -> (out: Result<(), String>)
    ensures
        match out {
            Ok(_) => profiles_fault(manifest@.id, manifest@.profiles, 0) is None,
            Err(e) => profiles_fault(manifest@.id, manifest@.profiles, 0) == Some(e@),
        },
{
    let ghost views = manifest@.profiles;
    let mut i: usize = 0;
    assert(views.len() == manifest.compliance_profiles@.len());
    while i < manifest.compliance_profiles.len()
        invariant
            i <= manifest.compliance_profiles@.len(),
            views == manifest@.profiles,
            views.len() == manifest.compliance_profiles@.len(),
            profiles_fault(manifest@.id, views, 0) == profiles_fault(
                manifest@.id,
                views,
                i as nat,
            ),
        decreases manifest.compliance_profiles@.len() - i,
    {
        assert(views[i as int] == manifest.compliance_profiles@[i as int]@);
        if let Some(e) = check_profile(manifest.id.as_str(), &manifest.compliance_profiles[i]) {
            return Err(e);
        }
        i += 1;
    }
    Ok(())
}

/// Whether a pack ships no code of its own, which could not be proved here.
pub fn validate_primitives_nir(manifest: &PackManifest) -> (out: Result<(), String>)
    ensures
        match out {
            Ok(_) => manifest@.primitives_nir is None,
            Err(e) => manifest@.primitives_nir is Some && e@ == has_primitives(manifest@.id),
        },
{
    match &manifest.primitives_nir {
        Some(_) => Err(say_has_primitives(manifest.id.as_str())),
        None => Ok(()),
    }
}

/// What keeps a pack from being installed.
pub open spec fn manifest_fault(m: ManifestView) -> Option<Seq<char>> {
    match profiles_fault(m.id, m.profiles, 0) {
        Some(e) => Some(e),
        None => if m.primitives_nir is Some {
            Some(has_primitives(m.id))
        } else {
            None
        },
    }
}

/// Whether a pack may be installed, and what keeps it from being.
pub fn check_manifest(manifest: &PackManifest) -> (out: Result<(), String>)
    ensures
        match out {
            Ok(_) => manifest_fault(manifest@) is None,
            Err(e) => manifest_fault(manifest@) == Some(e@),
        },
{
    match validate_compliance_profiles(manifest) {
        Err(e) => Err(e),
        Ok(_) => validate_primitives_nir(manifest),
    }
}

proof fn lemma_wiring_supported(list: Seq<(Seq<char>, JsonView)>, from: nat, i: int)
    requires
        from <= i < list.len(),
        bad_wiring(list, from) is None,
    ensures
        supported_wiring(list[i].0),
    decreases list.len() - from,
{
    if from < i {
        lemma_wiring_supported(list, from + 1, i);
    }
}

proof fn lemma_profile_clean(pack: Seq<char>, profiles: Seq<ProfileView>, from: nat, i: int)
    requires
        from <= i < profiles.len(),
        profiles_fault(pack, profiles, from) is None,
    ensures
        profile_fault(pack, profiles[i]) is None,
    decreases profiles.len() - from,
{
    if from < i {
        lemma_profile_clean(pack, profiles, from + 1, i);
    }
}

/// No installed pack demands wiring that nothing is done about: such a pack is
/// refused when it is loaded.
pub proof fn law_installed_wiring_is_supported(m: ManifestView, i: int, j: int)
    requires
        manifest_fault(m) is None,
        0 <= i < m.profiles.len(),
        0 <= j < m.profiles[i].wiring.len(),
    ensures
        supported_wiring(m.profiles[i].wiring[j].0),
{
    lemma_profile_clean(m.id, m.profiles, 0, i);
    lemma_wiring_supported(m.profiles[i].wiring, 0, j);
}

/// The functions that the first `n` packs demand to be called.
pub open spec fn mandatory_of(packs: Seq<ManifestView>, n: nat) -> Seq<Seq<char>>
    decreases n,
{
    if n == 0 {
        Seq::empty()
    } else {
        mandatory_of(packs, (n - 1) as nat) + packs[n - 1].mandatory_fns
    }
}

/// The structs that the first `n` packs protect.
pub open spec fn protected_of(packs: Seq<ManifestView>, n: nat) -> Seq<Seq<char>>
    decreases n,
{
    if n == 0 {
        Seq::empty()
    } else {
        protected_of(packs, (n - 1) as nat) + packs[n - 1].protected_structs
    }
}

/// The functions that the active packs demand to be called, each once.
pub fn active_mandatory_primitive_names(packs: &Vec<PackManifest>) -> (out: Vec<String>)
    ensures
        texts(out@) == distinct(mandatory_of(manifest_views(packs@), packs@.len())),
{
    let ghost views = manifest_views(packs@);
    let mut all: Vec<String> = Vec::new();
    let mut i: usize = 0;
    assert(texts(all@) =~= Seq::<Seq<char>>::empty());
    while i < packs.len()
        invariant
            i <= packs@.len(),
            views == manifest_views(packs@),
            texts(all@) == mandatory_of(views, i as nat),
        decreases packs@.len() - i,
    {
        assert(views[i as int] == packs@[i as int]@);
        let mut more: Vec<String> = copy_texts(&packs[i].mandatory_fns);
        let ghost before = all@;
        let ghost added = more@;
        all.append(&mut more);
        assert(texts(all@) =~= texts(before) + texts(added));
        i += 1;
    }
    distinct_texts(&all)
}

/// The structs that the active packs protect, each once.
pub fn active_protected_struct_names(packs: &Vec<PackManifest>) -> (out: Vec<String>)
    ensures
        texts(out@) == distinct(protected_of(manifest_views(packs@), packs@.len())),
{
    let ghost views = manifest_views(packs@);
    let mut all: Vec<String> = Vec::new();
    let mut i: usize = 0;
    assert(texts(all@) =~= Seq::<Seq<char>>::empty());
    while i < packs.len()
        invariant
            i <= packs@.len(),
            views == manifest_views(packs@),
            texts(all@) == protected_of(views, i as nat),
        decreases packs@.len() - i,
    {
        assert(views[i as int] == packs@[i as int]@);
        let mut more: Vec<String> = copy_texts(&packs[i].protected_structs);
        let ghost before = all@;
        let ghost added = more@;
        all.append(&mut more);
        assert(texts(all@) =~= texts(before) + texts(added));
        i += 1;
    }
    distinct_texts(&all)
}

/// The packs among the first `n` that are active.
pub open spec fn active(packs: Seq<PackManifest>, ids: Seq<Seq<char>>, n: nat) -> Seq<ManifestView>
    decreases n,
{
    if n == 0 {
        Seq::empty()
    } else {
        let before = active(packs, ids, (n - 1) as nat);
        if ids.contains(packs[n - 1].id@) {
            before.push(packs[n - 1]@)
        } else {
            before
        }
    }
}

/// Drops the packs that are not active. `active_ids` are those that are.
pub fn active_pack_manifests(packs: Vec<PackManifest>, active_ids: &Vec<String>) -> (out: Vec<
    PackManifest,
>)
    ensures
        manifest_views(out@) == active(packs@, texts(active_ids@), packs@.len()),
{
    let ghost all = packs@;
    let ghost ids = texts(active_ids@);
    let mut rest: Vec<PackManifest> = packs;
    let mut kept: Vec<PackManifest> = Vec::new();
    let mut out: Vec<PackManifest> = Vec::new();
    // The packs are taken from the end, and turned round once more.
    while rest.len() > 0
        invariant
            rest@ == all.take(rest@.len() as int),
            ids == texts(active_ids@),
            rest@.len() <= all.len(),
            active(all, ids, rest@.len()) + manifest_views(kept@).reverse() == active(
                all,
                ids,
                all.len(),
            ),
        decreases rest@.len(),
    {
        let ghost n = rest@.len();
        let ghost later = manifest_views(kept@).reverse();
        if let Some(pack) = rest.pop() {
            assert(pack == all[n - 1]);
            if has_text(active_ids, pack.id.as_str()) {
                let ghost before = active(all, ids, (n - 1) as nat);
                assert(manifest_views(kept@.push(pack)).reverse() =~= seq![pack@] + later);
                assert(before.push(pack@) + later =~= before + (seq![pack@] + later));
                kept.push(pack);
            }
            assert(rest@ =~= all.take(n - 1));
        }
    }
    let ghost turned = manifest_views(kept@).reverse();
    assert(active(all, ids, 0) + turned =~= turned);
    while kept.len() > 0
        invariant
            manifest_views(out@) + manifest_views(kept@).reverse() == turned,
        decreases kept@.len(),
    {
        let ghost n = kept@.len();
        let ghost before = manifest_views(out@);
        let ghost left = manifest_views(kept@).reverse();
        if let Some(pack) = kept.pop() {
            assert(left =~= seq![pack@] + manifest_views(kept@).reverse());
            assert(manifest_views(out@.push(pack)) =~= before.push(pack@));
            assert(before.push(pack@) + manifest_views(kept@).reverse() =~= before + left);
            out.push(pack);
        }
    }
    assert(manifest_views(out@) + manifest_views(kept@).reverse() =~= manifest_views(out@));
    out
}

/// A profile demands tokens that only their sender can use.
pub open spec fn constrains_tokens(p: ProfileView) -> bool {
    exists|i: int| 0 <= i < p.wiring.len() && (#[trigger] p.wiring[i]).0 == "sender_constrained_tokens"@
}

pub open spec fn pack_constrains_tokens(m: ManifestView) -> bool {
    exists|i: int| 0 <= i < m.profiles.len() && constrains_tokens(#[trigger] m.profiles[i])
}

/// Some active pack demands tokens that only their sender can use.
pub open spec fn tokens_constrained(packs: Seq<ManifestView>) -> bool {
    exists|i: int| 0 <= i < packs.len() && pack_constrains_tokens(#[trigger] packs[i])
}

fn profile_constrains(p: &ComplianceProfile) -> (r: bool)
    ensures
        r == constrains_tokens(p@),
{
    let ghost wiring = p@.wiring;
    let mut i: usize = 0;
    assert(wiring.len() == p.wiring_requirements@.len());
    while i < p.wiring_requirements.len()
        invariant
            i <= p.wiring_requirements@.len(),
            wiring == p@.wiring,
            wiring.len() == p.wiring_requirements@.len(),
            forall|j: int| 0 <= j < i ==> (#[trigger] wiring[j]).0 != "sender_constrained_tokens"@,
        decreases p.wiring_requirements@.len() - i,
    {
        assert(wiring[i as int].0 == p.wiring_requirements@[i as int].kind@);
        if same_text(p.wiring_requirements[i].kind.as_str(), "sender_constrained_tokens") {
            return true;
        }
        i += 1;
    }
    false
}

fn pack_constrains(m: &PackManifest) -> (r: bool)
    ensures
        r == pack_constrains_tokens(m@),
{
    let ghost views = m@.profiles;
    let mut i: usize = 0;
    assert(views.len() == m.compliance_profiles@.len());
    while i < m.compliance_profiles.len()
        invariant
            i <= m.compliance_profiles@.len(),
            views == m@.profiles,
            views.len() == m.compliance_profiles@.len(),
            forall|j: int| 0 <= j < i ==> !constrains_tokens(#[trigger] views[j]),
        decreases m.compliance_profiles@.len() - i,
    {
        assert(views[i as int] == m.compliance_profiles@[i as int]@);
        if profile_constrains(&m.compliance_profiles[i]) {
            return true;
        }
        i += 1;
    }
    false
}

/// Whether some active pack demands tokens that only their sender can use.
pub fn wiring_requires_sender_constrained_tokens(packs: &Vec<PackManifest>) -> (r: bool)
    ensures
        r == tokens_constrained(manifest_views(packs@)),
{
    let ghost views = manifest_views(packs@);
    let mut i: usize = 0;
    assert(views.len() == packs@.len());
    while i < packs.len()
        invariant
            i <= packs@.len(),
            views == manifest_views(packs@),
            views.len() == packs@.len(),
            forall|j: int| 0 <= j < i ==> !pack_constrains_tokens(#[trigger] views[j]),
        decreases packs@.len() - i,
    {
        assert(views[i as int] == packs@[i as int]@);
        if pack_constrains(&packs[i]) {
            return true;
        }
        i += 1;
    }
    false
}

pub open spec fn requirement_json(kind: Seq<char>, params: JsonView) -> JsonView {
    JsonView::Object(seq![("kind"@, JsonView::Text(kind)), ("params"@, params)])
}

pub open spec fn conformance_json(kind: Seq<char>, description: Seq<char>) -> JsonView {
    JsonView::Object(
        seq![("kind"@, JsonView::Text(kind)), ("description"@, JsonView::Text(description))],
    )
}

/// The requirements among the first `n` that only a configuration can meet.
pub open spec fn config_only(list: Seq<(Seq<char>, JsonView)>, n: nat) -> Seq<JsonView>
    decreases n,
{
    if n == 0 {
        Seq::empty()
    } else {
        let before = config_only(list, (n - 1) as nat);
        if list[n - 1].0 == "sender_constrained_tokens"@ {
            before
        } else {
            before.push(requirement_json(list[n - 1].0, list[n - 1].1))
        }
    }
}

pub open spec fn conformances(list: Seq<(Seq<char>, Seq<char>)>, n: nat) -> Seq<JsonView>
    decreases n,
{
    if n == 0 {
        Seq::empty()
    } else {
        conformances(list, (n - 1) as nat).push(conformance_json(list[n - 1].0, list[n - 1].1))
    }
}

pub const WIRING_NOTE: &'static str = "these requirements bind the client<->authorization-server protocol, which nirdosha's \
    compiled serve (a resource server) does not run -- the deployer's real AS/gateway must \
    enforce them; this file is a declared requirement, not proof that anything enforces it \
    yet.";

/// What a profile asks of the configuration around a program.
pub open spec fn profile_json(pack: Seq<char>, p: ProfileView) -> JsonView {
    JsonView::Object(
        seq![
            ("pack_id"@, JsonView::Text(pack)),
            ("profile"@, JsonView::Text(p.name)),
            ("version"@, JsonView::Text(p.version)),
            ("wiring_requirements"@, JsonView::List(config_only(p.wiring, p.wiring.len()))),
            (
                "external_conformance"@,
                JsonView::List(conformances(p.conformance, p.conformance.len())),
            ),
            ("note"@, JsonView::Text(WIRING_NOTE@)),
        ],
    )
}

/// What the first `n` profiles of a pack ask of the configuration.
pub open spec fn profiles_json(pack: Seq<char>, profiles: Seq<ProfileView>, n: nat) -> Seq<JsonView>
    decreases n,
{
    if n == 0 {
        Seq::empty()
    } else {
        let before = profiles_json(pack, profiles, (n - 1) as nat);
        let p = profiles[n - 1];
        if config_only(p.wiring, p.wiring.len()).len() == 0 {
            before
        } else {
            before.push(profile_json(pack, p))
        }
    }
}

/// What the first `n` packs ask of the configuration.
pub open spec fn wiring_of(packs: Seq<ManifestView>, n: nat) -> Seq<JsonView>
    decreases n,
{
    if n == 0 {
        Seq::empty()
    } else {
        let m = packs[n - 1];
        wiring_of(packs, (n - 1) as nat) + profiles_json(m.id, m.profiles, m.profiles.len())
    }
}

pub open spec fn wiring_json(list: Seq<JsonView>) -> JsonView {
    JsonView::Object(seq![("compliance_wiring"@, JsonView::List(list))])
}

fn write_wiring(list: &Vec<WiringRequirement>) -> (out: Vec<Json>)
    ensures
        list_views(out@) == config_only(wiring_views(list@), list@.len()),
        list_views(out@).len() == out@.len(),
{
    broadcast use list_push;

    let ghost views = wiring_views(list@);
    let mut out: Vec<Json> = Vec::new();
    let mut i: usize = 0;
    assert(list_views(out@) =~= Seq::<JsonView>::empty());
    while i < list.len()
        invariant
            i <= list@.len(),
            views == wiring_views(list@),
            list_views(out@) == config_only(views, i as nat),
        decreases list@.len() - i,
    {
        let w: &WiringRequirement = &list[i];
        assert(views[i as int] == (w.kind@, w.params@));
        if !same_text(w.kind.as_str(), "sender_constrained_tokens") {
            let mut fields: Fields = Fields::new();
            fields.put_text("kind", w.kind.as_str());
            fields.put("params", copy_json(&w.params));
            assert(fields@ =~= requirement_json(w.kind@, w.params@)->Object_0);
            let ghost before = out@;
            out.push(fields.object());
            assert(out@.drop_last() =~= before);
        }
        i += 1;
    }
    proof {
        crate::json::lemma_list_len(out@);
    }
    out
}

fn write_conformances(list: &Vec<ExternalConformanceRequirement>) -> (out: Vec<Json>)
    ensures
        list_views(out@) == conformances(conformance_views(list@), list@.len()),
{
    broadcast use list_push;

    let ghost views = conformance_views(list@);
    let mut out: Vec<Json> = Vec::new();
    let mut i: usize = 0;
    assert(list_views(out@) =~= Seq::<JsonView>::empty());
    while i < list.len()
        invariant
            i <= list@.len(),
            views == conformance_views(list@),
            list_views(out@) == conformances(views, i as nat),
        decreases list@.len() - i,
    {
        let e: &ExternalConformanceRequirement = &list[i];
        assert(views[i as int] == (e.kind@, e.description@));
        let mut fields: Fields = Fields::new();
        fields.put_text("kind", e.kind.as_str());
        fields.put_text("description", e.description.as_str());
        assert(fields@ =~= conformance_json(e.kind@, e.description@)->Object_0);
        let ghost before = out@;
        out.push(fields.object());
        assert(out@.drop_last() =~= before);
        i += 1;
    }
    out
}

fn write_profiles(pack: &str, profiles: &Vec<ComplianceProfile>, out: &mut Vec<Json>)
    ensures
        list_views(final(out)@) == list_views(old(out)@) + profiles_json(
            pack@,
            profile_views(profiles@),
            profiles@.len(),
        ),
{
    broadcast use list_push;

    let ghost views = profile_views(profiles@);
    let ghost start = list_views(out@);
    let mut i: usize = 0;
    assert(start + profiles_json(pack@, views, 0) =~= start);
    while i < profiles.len()
        invariant
            i <= profiles@.len(),
            views == profile_views(profiles@),
            list_views(out@) == start + profiles_json(pack@, views, i as nat),
        decreases profiles@.len() - i,
    {
        let p: &ComplianceProfile = &profiles[i];
        assert(views[i as int] == p@);
        assert(p@.wiring.len() == p.wiring_requirements@.len());
        assert(p@.conformance.len() == p.external_conformance@.len());
        let wiring: Vec<Json> = write_wiring(&p.wiring_requirements);
        if wiring.len() > 0 {
            let mut fields: Fields = Fields::new();
            fields.put_text("pack_id", pack);
            fields.put_text("profile", p.name.as_str());
            fields.put_text("version", p.version.as_str());
            fields.put("wiring_requirements", Json::List(wiring));
            fields.put(
                "external_conformance",
                Json::List(write_conformances(&p.external_conformance)),
            );
            fields.put_text("note", WIRING_NOTE);
            assert(fields@ =~= profile_json(pack@, p@)->Object_0);
            let made: Json = fields.object();
            let ghost earlier = profiles_json(pack@, views, i as nat);
            let ghost before = out@;
            assert((start + earlier).push(made@) =~= start + earlier.push(made@));
            out.push(made);
            assert(out@.drop_last() =~= before);
        }
        i += 1;
    }
}

/// What the active packs ask of the configuration around a program, or nothing
/// where they ask for none.
pub fn render_wiring_config(packs: &Vec<PackManifest>) -> (out: Option<Json>)
    ensures
        ({
            let list = wiring_of(manifest_views(packs@), packs@.len());
            match out {
                Some(v) => list.len() > 0 && v@ == wiring_json(list),
                None => list.len() == 0,
            }
        }),
{
    let ghost views = manifest_views(packs@);
    let mut list: Vec<Json> = Vec::new();
    let mut i: usize = 0;
    assert(list_views(list@) =~= Seq::<JsonView>::empty());
    while i < packs.len()
        invariant
            i <= packs@.len(),
            views == manifest_views(packs@),
            list_views(list@) == wiring_of(views, i as nat),
        decreases packs@.len() - i,
    {
        let m: &PackManifest = &packs[i];
        assert(views[i as int] == m@);
        assert(m@.profiles.len() == m.compliance_profiles@.len());
        write_profiles(m.id.as_str(), &m.compliance_profiles, &mut list);
        i += 1;
    }
    proof {
        crate::json::lemma_list_len(list@);
    }
    if list.len() == 0 {
        return None;
    }
    let ghost said = list_views(list@);
    let mut fields: Fields = Fields::new();
    fields.put("compliance_wiring", Json::List(list));
    assert(fields@ =~= wiring_json(said)->Object_0);
    Some(fields.object())
}

pub const BANKING_PACK: &'static str = "Whole-cents money math: conservation, non-negative balances.";

pub const FAPI_PACK: &'static str = "FAPI 2.0 Security Profile: sender-constrained tokens, PAR, PKCE, role-gated mutations.";

/// The packs that can be installed by name, each with what it is.
pub open spec fn installable() -> Seq<(Seq<char>, Seq<char>)> {
    seq![("banking-v0"@, BANKING_PACK@), ("fapi-2.0"@, FAPI_PACK@)]
}

pub open spec fn static_pairs(list: Seq<(&'static str, &'static str)>) -> Seq<
    (Seq<char>, Seq<char>),
> {
    list.map_values(|p: (&'static str, &'static str)| (p.0@, p.1@))
}

/// The packs that can be installed by name, each with what it is.
pub fn known_installable_packs() -> (out: Vec<(&'static str, &'static str)>)
    ensures
        static_pairs(out@) == installable(),
{
    let mut out: Vec<(&'static str, &'static str)> = Vec::new();
    out.push(("banking-v0", BANKING_PACK));
    out.push(("fapi-2.0", FAPI_PACK));
    assert(static_pairs(out@) =~= installable());
    out
}

/// Where the packs of a project are kept.
pub open spec fn packs_at(root: Seq<char>) -> Seq<char> {
    joined(design_dir(root), "plugins"@)
}

/// Where the packs of a project are kept.
pub fn plugins_dir(root: &str) -> (out: String)
    ensures
        out@ == packs_at(root@),
{
    join_path(hi_dir(root).as_str(), "plugins")
}

/// Where the manifest of a pack is kept.
pub open spec fn manifest_at(root: Seq<char>, pack: Seq<char>) -> Seq<char> {
    joined(joined(packs_at(root), pack), "pack.json"@)
}

/// Where the manifest of a pack is kept.
pub fn pack_manifest_path(root: &str, pack_id: &str) -> (out: String)
    ensures
        out@ == manifest_at(root@, pack_id@),
{
    join_path(join_path(plugins_dir(root).as_str(), pack_id).as_str(), "pack.json")
}

pub open spec fn modified_pack(id: Seq<char>, recorded: Seq<char>, actual: Seq<char>) -> Seq<char> {
    "pack "@
        + id
        + " has been modified since install (expected sha256 "@
        + recorded
        + ", got "@
        + actual
        + ") -- revoke and reinstall if the change is intentional"@
}

fn say_modified_pack(id: &str, recorded: &str, actual: &str) -> (out: String)
    ensures
        out@ == modified_pack(id@, recorded@, actual@),
{
    let mut out: String = "pack ".to_owned();
    out.append(id);
    out.append(" has been modified since install (expected sha256 ");
    out.append(recorded);
    out.append(", got ");
    out.append(actual);
    out.append(") -- revoke and reinstall if the change is intentional");
    out
}

/// Whether the manifest of an installed pack is still the one that was
/// installed.
pub fn check_pinned(id: &str, recorded: &str, actual: &str) -> (out: Result<(), String>)
    ensures
        match out {
            Ok(_) => recorded@ == actual@,
            Err(e) => recorded@ != actual@ && e@ == modified_pack(id@, recorded@, actual@),
        },
{
    if same_text(actual, recorded) {
        Ok(())
    } else {
        Err(say_modified_pack(id, recorded, actual))
    }
}

pub open spec fn unsupported_invariant(pack: Seq<char>, name: Seq<char>, kind: Seq<char>) -> Seq<char> {
    "pack "@
        + pack
        + " invariant `"@
        + name
        + "` has unsupported kind `"@
        + kind
        + "` -- only `fn` invariants are supported in 5a"@
}

fn say_unsupported_invariant(pack: &str, name: &str, kind: &str) -> (out: String)
    ensures
        out@ == unsupported_invariant(pack@, name@, kind@),
{
    let mut out: String = "pack ".to_owned();
    out.append(pack);
    out.append(" invariant `");
    out.append(name);
    out.append("` has unsupported kind `");
    out.append(kind);
    out.append("` -- only `fn` invariants are supported in 5a");
    out
}

pub open spec fn law_driving_text(pack: Seq<char>, name: Seq<char>) -> Seq<char> {
    "Domain-law fn from pack "@
        + pack
        + ": "@
        + name
}

fn say_law_driving_text(pack: &str, name: &str) -> (out: String)
    ensures
        out@ == law_driving_text(pack@, name@),
{
    let mut out: String = "Domain-law fn from pack ".to_owned();
    out.append(pack);
    out.append(": ");
    out.append(name);
    out
}

pub open spec fn created_by(pack: Seq<char>, sha256: Seq<char>) -> Seq<char> {
    "plugin:"@
        + pack
        + ":"@
        + sha256
}

fn say_created_by(pack: &str, sha256: &str) -> (out: String)
    ensures
        out@ == created_by(pack@, sha256@),
{
    let mut out: String = "plugin:".to_owned();
    out.append(pack);
    out.append(":");
    out.append(sha256);
    out
}

/// A unit that a pack puts into the design of a project.
pub struct PackNode {
    pub name: String,
    pub driving_text: String,
    pub created_by: String,
    pub attributes: Vec<String>,
}

#[verifier::ext_equal]
pub struct NodeView {
    pub name: Seq<char>,
    pub driving_text: Seq<char>,
    pub created_by: Seq<char>,
    pub attributes: Seq<Seq<char>>,
}

impl View for PackNode {
    type V = NodeView;

    open spec fn view(&self) -> NodeView {
        NodeView {
            name: self.name@,
            driving_text: self.driving_text@,
            created_by: self.created_by@,
            attributes: texts(self.attributes@),
        }
    }
}

pub open spec fn node_views(list: Seq<PackNode>) -> Seq<NodeView> {
    list.map_values(|n: PackNode| n@)
}

/// What loading a pack does: which units it puts into the design, in order,
/// which relations between them, and what it fails with at the end. A pack that
/// fails has loaded the units before the fault, and no relation.
pub struct PackLoad {
    pub nodes: Vec<PackNode>,
    pub relations: Vec<(String, String)>,
    pub error: Option<String>,
}

/// How many invariants, from one on, are functions without a gap.
pub open spec fn loadable(list: Seq<InvariantView>, from: nat) -> nat
    decreases list.len() - from,
{
    if from >= list.len() || list[from as int].kind != "fn"@ {
        from
    } else {
        loadable(list, from + 1)
    }
}

pub open spec fn pack_node(m: ManifestView, sha256: Seq<char>, i: int) -> NodeView {
    NodeView {
        name: m.invariants[i].name,
        driving_text: law_driving_text(m.id, m.name),
        created_by: created_by(m.id, sha256),
        attributes: m.invariants[i].attributes,
    }
}

pub open spec fn relation_ids(list: Seq<(Seq<char>, Seq<char>)>) -> Seq<(Seq<char>, Seq<char>)> {
    list.map_values(|r: (Seq<char>, Seq<char>)| (unit_id("fn"@, r.0), unit_id("fn"@, r.1)))
}

fn write_relations(relations: &Vec<(String, String)>) -> (out: Vec<(String, String)>)
    ensures
        crate::composer::decl::pairs(out@) == relation_ids(
            crate::composer::decl::pairs(relations@),
        ),
{
    let ghost all = relation_ids(crate::composer::decl::pairs(relations@));
    let mut out: Vec<(String, String)> = Vec::new();
    let mut i: usize = 0;
    assert(crate::composer::decl::pairs(out@) =~= all.take(0));
    while i < relations.len()
        invariant
            i <= relations@.len(),
            all == relation_ids(crate::composer::decl::pairs(relations@)),
            crate::composer::decl::pairs(out@) == all.take(i as int),
        decreases relations@.len() - i,
    {
        let src: String = code_unit_node_id("fn", relations[i].0.as_str());
        let dst: String = code_unit_node_id("fn", relations[i].1.as_str());
        assert(all[i as int] == (src@, dst@));
        assert(crate::composer::decl::pairs(out@.push((src, dst)))
            =~= crate::composer::decl::pairs(out@).push((src@, dst@)));
        out.push((src, dst));
        i += 1;
        assert(all.take(i as int) =~= all.take(i as int - 1).push(all[i as int - 1]));
    }
    assert(all.take(i as int) =~= all);
    out
}

/// What is said of a manifest that cannot be read.
pub open spec fn unparsed_manifest(source: Seq<char>, cause: Seq<char>) -> Seq<char> {
    "parsing pack manifest from "@ + source + ": "@ + cause
}

/// What is said of a manifest that cannot be read.
pub fn say_unparsed_manifest(source_desc: &str, cause: &str) -> (out: String)
    ensures
        out@ == unparsed_manifest(source_desc@, cause@),
{
    let mut out: String = "parsing pack manifest from ".to_owned();
    out.append(source_desc);
    out.append(": ");
    out.append(cause);
    out
}

/// What an installation of a pack would fail with, first of all: its bytes are
/// no document, no manifest, its manifest may not be installed, or one of its
/// units cannot be loaded.
pub open spec fn install_fault(
    bytes: Seq<u8>,
    manifest: Result<ManifestView, Seq<char>>,
    source: Seq<char>,
) -> Option<Seq<char>> {
    match pack_id_of(bytes) {
        Err(e) => Some(e),
        Ok(_) => match manifest {
            Err(cause) => Some(unparsed_manifest(source, cause)),
            Ok(m) => match manifest_fault(m) {
                Some(e) => Some(e),
                None => {
                    let n = loadable(m.invariants, 0);
                    if n < m.invariants.len() {
                        let inv = m.invariants[n as int];
                        Some(unsupported_invariant(m.id, inv.name, inv.kind))
                    } else {
                        None
                    }
                },
            },
        },
    }
}

pub open spec fn read_manifest(manifest: Result<PackManifest, String>) -> Result<
    ManifestView,
    Seq<char>,
> {
    match manifest {
        Ok(m) => Ok(m@),
        Err(e) => Err(e@),
    }
}

/// Goes through everything that an installation checks and leaves the project
/// as it is: the identifier of the pack, or what its installation would fail
/// with. `manifest` is what the bytes hold.
pub fn dry_run_install(
    bytes: &[u8],
    manifest: &Result<PackManifest, String>,
    source_desc: &str,
) -> (out: Result<String, String>)
    ensures
        match install_fault(bytes@, read_manifest(*manifest), source_desc@) {
            Some(e) => out matches Err(m) && m@ == e,
            None => out matches Ok(id) && *manifest matches Ok(m) && id@ == m.id@,
        },
{
    let sha256: String = match pack_content_id(bytes) {
        Ok(id) => id,
        Err(e) => {
            return Err(e);
        },
    };
    let m: &PackManifest = match manifest {
        Ok(m) => m,
        Err(cause) => {
            return Err(say_unparsed_manifest(source_desc, cause.as_str()));
        },
    };
    match check_manifest(m) {
        Ok(_) => {},
        Err(e) => {
            return Err(e);
        },
    }
    match load_domain_pack(m, sha256.as_str()).error {
        Some(e) => Err(e),
        None => Ok(m.id.clone()),
    }
}

/// What loading a pack does.
pub fn load_domain_pack(manifest: &PackManifest, sha256: &str) -> (out: PackLoad)
    ensures
        ({
            let m = manifest@;
            let n = loadable(m.invariants, 0);
            &&& node_views(out.nodes@) == Seq::new(n, |i: int| pack_node(m, sha256@, i))
            &&& if n < m.invariants.len() {
                let inv = m.invariants[n as int];
                &&& opt_text(out.error) == Some(unsupported_invariant(m.id, inv.name, inv.kind))
                &&& out.relations@.len() == 0
            } else {
                &&& out.error is None
                &&& crate::composer::decl::pairs(out.relations@) == relation_ids(m.relations)
            }
        }),
{
    let ghost m = manifest@;
    let mut nodes: Vec<PackNode> = Vec::new();
    let mut i: usize = 0;
    assert(m.invariants.len() == manifest.invariants@.len());
    while i < manifest.invariants.len()
        invariant
            i <= manifest.invariants@.len(),
            m == manifest@,
            m.invariants.len() == manifest.invariants@.len(),
            loadable(m.invariants, 0) == loadable(m.invariants, i as nat),
            node_views(nodes@) =~= Seq::new(i as nat, |i: int| pack_node(m, sha256@, i)),
        decreases manifest.invariants@.len() - i,
    {
        let inv: &PackInvariant = &manifest.invariants[i];
        assert(m.invariants[i as int] == inv@);
        if !same_text(inv.kind.as_str(), "fn") {
            return PackLoad {
                nodes,
                relations: Vec::new(),
                error: Some(
                    say_unsupported_invariant(
                        manifest.id.as_str(),
                        inv.name.as_str(),
                        inv.kind.as_str(),
                    ),
                ),
            };
        }
        let node: PackNode = PackNode {
            name: inv.name.clone(),
            driving_text: say_law_driving_text(manifest.id.as_str(), manifest.name.as_str()),
            created_by: say_created_by(manifest.id.as_str(), sha256),
            attributes: copy_texts(&inv.attributes),
        };
        assert(node_views(nodes@.push(node)) =~= node_views(nodes@).push(node@));
        nodes.push(node);
        i += 1;
    }
    PackLoad { nodes, relations: write_relations(&manifest.relations), error: None }
}

/// A pack with the signature of who made it.
pub struct SignedPackEnvelope {
    pub manifest_json: String,
    pub signature_algorithm: String,
    pub public_key: String,
    pub signature: String,
    pub signer_identity: String,
}

pub open spec fn not_utf8(error: Seq<char>) -> Seq<char> {
    "pack manifest is not valid UTF-8: "@ + error
}

fn say_not_utf8(error: &str) -> (out: String)
    ensures
        out@ == not_utf8(error@),
{
    let mut out: String = "pack manifest is not valid UTF-8: ".to_owned();
    out.append(error);
    out
}

pub open spec fn no_manifest(error: Seq<char>) -> Seq<char> {
    "not a valid pack manifest: "@ + error
}

fn say_no_manifest(error: &str) -> (out: String)
    ensures
        out@ == no_manifest(error@),
{
    let mut out: String = "not a valid pack manifest: ".to_owned();
    out.append(error);
    out
}

/// The text of a manifest that is to be signed and the identity that the
/// signature is over, or why it is not signed: what is no text, what is no
/// manifest, what has no identity.
pub open spec fn signing_of(bytes: Seq<u8>, fault: Option<Seq<char>>) -> Result<
    (Seq<char>, Seq<char>),
    Seq<char>,
> {
    if !valid_utf8(bytes) {
        Err(not_utf8(utf8_fault(bytes)))
    } else {
        match fault {
            Some(e) => Err(no_manifest(e)),
            None => match pack_id_of(bytes) {
                Ok(id) => Ok((decode_utf8(bytes), id)),
                Err(e) => Err(e),
            },
        }
    }
}

/// The text of a manifest that is to be signed and the identity that the
/// signature is over. `fault` tells why the bytes are no manifest, if they are
/// none.
pub fn plan_signing(bytes: &[u8], fault: &Option<String>) -> (out: Result<
    (String, String),
    String,
>)
    ensures
        match out {
            Ok((text, id)) => signing_of(bytes@, opt_text(*fault)) == Ok::<
                (Seq<char>, Seq<char>),
                Seq<char>,
            >((text@, id@)),
            Err(e) => signing_of(bytes@, opt_text(*fault)) == Err::<
                (Seq<char>, Seq<char>),
                Seq<char>,
            >(e@),
        },
{
    let text: String = match from_utf8(bytes) {
        Ok(text) => text,
        Err(e) => {
            return Err(say_not_utf8(e.as_str()));
        },
    };
    if let Some(e) = fault {
        return Err(say_no_manifest(e.as_str()));
    }
    match pack_content_id(bytes) {
        Ok(id) => Ok((text, id)),
        Err(e) => Err(e),
    }
}

/// Puts a manifest and its signature together.
pub fn signed_envelope(
    manifest_json: String,
    public_key: String,
    signature: String,
    signer_identity: String,
) -> (out: SignedPackEnvelope)
    ensures
        out.manifest_json == manifest_json,
        out.signature_algorithm@ == "ed25519"@,
        out.public_key == public_key,
        out.signature == signature,
        out.signer_identity == signer_identity,
{
    SignedPackEnvelope {
        manifest_json,
        signature_algorithm: "ed25519".to_owned(),
        public_key,
        signature,
        signer_identity,
    }
}

/// A key that an operator trusts, and whose it is.
pub struct TrustAnchor {
    pub public_key: String,
    pub identity: String,
}

pub open spec fn anchor_views(list: Seq<TrustAnchor>) -> Seq<(Seq<char>, Seq<char>)> {
    list.map_values(|a: TrustAnchor| (a.public_key@, a.identity@))
}

/// Whose a key is, by the first anchor, from one on, that has it.
pub open spec fn anchored(
    anchors: Seq<(Seq<char>, Seq<char>)>,
    key: Seq<char>,
    from: nat,
) -> Option<Seq<char>>
    decreases anchors.len() - from,
{
    if from >= anchors.len() {
        None
    } else if anchors[from as int].0 == key {
        Some(anchors[from as int].1)
    } else {
        anchored(anchors, key, from + 1)
    }
}

fn find_anchor<'a>(anchors: &'a Vec<TrustAnchor>, key: &str) -> (out: Option<&'a String>)
    ensures
        match out {
            Some(identity) => anchored(anchor_views(anchors@), key@, 0) == Some(identity@),
            None => anchored(anchor_views(anchors@), key@, 0) is None,
        },
{
    let ghost views = anchor_views(anchors@);
    let mut i: usize = 0;
    assert(views.len() == anchors@.len());
    while i < anchors.len()
        invariant
            i <= anchors@.len(),
            views == anchor_views(anchors@),
            views.len() == anchors@.len(),
            anchored(views, key@, 0) == anchored(views, key@, i as nat),
        decreases anchors@.len() - i,
    {
        assert(views[i as int] == (anchors@[i as int].public_key@, anchors@[i as int].identity@));
        if same_text(anchors[i].public_key.as_str(), key) {
            return Some(&anchors[i].identity);
        }
        i += 1;
    }
    None
}

pub open spec fn bad_signature(source: Seq<char>) -> Seq<char> {
    source + ": signature does not verify against the embedded public key -- refusing to install"@
}

fn say_bad_signature(source: &str) -> (out: String)
    ensures
        out@ == bad_signature(source@),
{
    let mut out: String = source.to_owned();
    out.append(": signature does not verify against the embedded public key -- refusing to install");
    out
}

pub open spec fn untrusted_regulated(source: Seq<char>, pack: Seq<char>, key: Seq<char>) -> Seq<char> {
    source
        + ": pack `"@
        + pack
        + "` declares domain_class \"regulated\" -- trust-on-first-use is not sufficient for a \
    regulated domain (RFC 0016); configure a trust anchor for public key "@
        + key
        + " (see NIRDOSHA_PACK_TRUST_ANCHORS) before installing"@
}

fn say_untrusted_regulated(source: &str, pack: &str, key: &str) -> (out: String)
    ensures
        out@ == untrusted_regulated(source@, pack@, key@),
{
    let mut out: String = source.to_owned();
    out.append(": pack `");
    out.append(pack);
    out.append("` declares domain_class \"regulated\" -- trust-on-first-use is not sufficient for a \
        regulated domain (RFC 0016); configure a trust anchor for public key ");
    out.append(key);
    out.append(" (see NIRDOSHA_PACK_TRUST_ANCHORS) before installing");
    out
}

/// Whether a signature is one.
pub fn check_signature(valid: bool, source_desc: &str) -> (out: Result<(), String>)
    ensures
        match out {
            Ok(_) => valid,
            Err(e) => !valid && e@ == bad_signature(source_desc@),
        },
{
    if valid {
        Ok(())
    } else {
        Err(say_bad_signature(source_desc))
    }
}

/// Whom a pack is from, and on what ground that is believed; an anchor's word
/// goes before the pack's own. A regulated pack is not taken on its own word.
pub open spec fn trusted(
    class: DomainClass,
    pack: Seq<char>,
    key: Seq<char>,
    claimed: Seq<char>,
    anchors: Seq<(Seq<char>, Seq<char>)>,
    source: Seq<char>,
) -> Result<(Seq<char>, Seq<char>), Seq<char>> {
    match anchored(anchors, key, 0) {
        Some(identity) => Ok((identity, "trust_anchor"@)),
        None => if class is Regulated {
            Err(untrusted_regulated(source, pack, key))
        } else {
            Ok((claimed, "tofu"@))
        },
    }
}

/// Whom a pack is from, and on what ground that is believed.
pub fn decide_trust(
    manifest: &PackManifest,
    envelope: &SignedPackEnvelope,
    anchors: &Vec<TrustAnchor>,
    source_desc: &str,
) -> (out: Result<(String, &'static str), String>)
    ensures
        ({
            let decided = trusted(
                manifest.domain_class,
                manifest.id@,
                envelope.public_key@,
                envelope.signer_identity@,
                anchor_views(anchors@),
                source_desc@,
            );
            match out {
                Ok((identity, basis)) => decided == Ok::<(Seq<char>, Seq<char>), Seq<char>>(
                    (identity@, basis@),
                ),
                Err(e) => decided == Err::<(Seq<char>, Seq<char>), Seq<char>>(e@),
            }
        }),
{
    match find_anchor(anchors, envelope.public_key.as_str()) {
        Some(identity) => Ok((identity.clone(), "trust_anchor")),
        None => match manifest.domain_class {
            DomainClass::Regulated => Err(
                say_untrusted_regulated(
                    source_desc,
                    manifest.id.as_str(),
                    envelope.public_key.as_str(),
                ),
            ),
            DomainClass::LongTail => Ok((envelope.signer_identity.clone(), "tofu")),
        },
    }
}

/// A regulated pack is only ever installed on an anchor's word, and then under
/// the identity that the anchor has on record.
pub proof fn law_regulated_packs_need_an_anchor(
    pack: Seq<char>,
    key: Seq<char>,
    claimed: Seq<char>,
    anchors: Seq<(Seq<char>, Seq<char>)>,
    source: Seq<char>,
)
    requires
        trusted(DomainClass::Regulated, pack, key, claimed, anchors, source) is Ok,
    ensures
        anchored(anchors, key, 0) is Some,
        trusted(DomainClass::Regulated, pack, key, claimed, anchors, source)->Ok_0.0 == anchored(
            anchors,
            key,
            0,
        )->Some_0,
{
}

/// Where the trusted keys are kept: where the setting says, else in the home
/// directory, else where temporary files go.
pub open spec fn anchors_at(
    setting: Option<Seq<char>>,
    home: Option<Seq<char>>,
    profile: Option<Seq<char>>,
    temp: Seq<char>,
) -> Seq<char> {
    match setting {
        Some(path) => path,
        None => {
            let base = match home {
                Some(h) => h,
                None => match profile {
                    Some(p) => p,
                    None => temp,
                },
            };
            joined(joined(base, ".nirdosha"@), "pack_trust_anchors.json"@)
        },
    }
}

/// Where the trusted keys are kept.
pub fn trust_anchors_path(
    setting: &Option<String>,
    home: &Option<String>,
    profile: &Option<String>,
    temp: &str,
) -> (out: String)
    ensures
        out@ == anchors_at(opt_text(*setting), opt_text(*home), opt_text(*profile), temp@),
{
    if let Some(path) = setting {
        return path.clone();
    }
    let base: String = match home {
        Some(h) => h.clone(),
        None => match profile {
            Some(p) => p.clone(),
            None => temp.to_owned(),
        },
    };
    join_path(join_path(base.as_str(), ".nirdosha").as_str(), "pack_trust_anchors.json")
}

/// The record of an accepted signature.
pub open spec fn signing_record(
    pack: Seq<char>,
    sha256: Seq<char>,
    identity: Seq<char>,
    basis: Seq<char>,
) -> JsonView {
    JsonView::Object(
        seq![
            ("pack_id"@, JsonView::Text(pack)),
            ("sha256"@, JsonView::Text(sha256)),
            ("signer_identity"@, JsonView::Text(identity)),
            ("trust_basis"@, JsonView::Text(basis)),
        ],
    )
}

/// The record of an accepted signature.
pub fn signing_log_entry(pack_id: &str, sha256: &str, signer_identity: &str, trust_basis: &str) -> (out:
    Json)
    ensures
        out@ == signing_record(pack_id@, sha256@, signer_identity@, trust_basis@),
{
    let mut fields: Fields = Fields::new();
    fields.put_text("pack_id", pack_id);
    fields.put_text("sha256", sha256);
    fields.put_text("signer_identity", signer_identity);
    fields.put_text("trust_basis", trust_basis);
    assert(fields@ =~= signing_record(
        pack_id@,
        sha256@,
        signer_identity@,
        trust_basis@,
    )->Object_0);
    fields.object()
}

/// An installed pack, as the registry has it.
pub struct PackRow {
    pub id: String,
    pub name: String,
    pub sha256: String,
    pub installed_at: String,
    pub revoked: bool,
}

pub open spec fn pack_line(id: Seq<char>, name: Seq<char>, status: Seq<char>) -> Seq<char> {
    id
        + "  "@
        + name
        + "  ["@
        + status
        + "]"@
}

fn say_pack_line(id: &str, name: &str, status: &str) -> (out: String)
    ensures
        out@ == pack_line(id@, name@, status@),
{
    let mut out: String = id.to_owned();
    out.append("  ");
    out.append(name);
    out.append("  [");
    out.append(status);
    out.append("]");
    out
}

pub open spec fn digest_line(sha256: Seq<char>) -> Seq<char> {
    "  sha256: "@ + sha256
}

fn say_digest_line(sha256: &str) -> (out: String)
    ensures
        out@ == digest_line(sha256@),
{
    let mut out: String = "  sha256: ".to_owned();
    out.append(sha256);
    out
}

pub open spec fn installed_line(at: Seq<char>) -> Seq<char> {
    "  installed: "@ + at
}

fn say_installed_line(at: &str) -> (out: String)
    ensures
        out@ == installed_line(at@),
{
    let mut out: String = "  installed: ".to_owned();
    out.append(at);
    out
}

/// The three lines of an installed pack in the listing.
pub open spec fn row_lines(row: PackRow) -> Seq<Seq<char>> {
    seq![
        pack_line(
            row.id@,
            row.name@,
            if row.revoked {
                "REVOKED"@
            } else {
                "active"@
            },
        ),
        digest_line(row.sha256@),
        installed_line(row.installed_at@),
    ]
}

pub open spec fn rows_lines(rows: Seq<PackRow>, n: nat) -> Seq<Seq<char>>
    decreases n,
{
    if n == 0 {
        Seq::empty()
    } else {
        rows_lines(rows, (n - 1) as nat) + row_lines(rows[n - 1])
    }
}

/// The listing of the installed packs.
pub fn list_packs(rows: &Vec<PackRow>) -> (out: Vec<String>)
    ensures
        texts(out@) == if rows@.len() == 0 {
            seq!["(no packs installed)"@]
        } else {
            rows_lines(rows@, rows@.len())
        },
{
    broadcast use texts_push;

    let mut out: Vec<String> = Vec::new();
    if rows.len() == 0 {
        out.push("(no packs installed)".to_owned());
        assert(texts(out@) =~= seq!["(no packs installed)"@]);
        return out;
    }
    let mut i: usize = 0;
    assert(texts(out@) =~= rows_lines(rows@, 0));
    while i < rows.len()
        invariant
            i <= rows@.len(),
            texts(out@) == rows_lines(rows@, i as nat),
        decreases rows@.len() - i,
    {
        let row: &PackRow = &rows[i];
        let status: &str = if row.revoked {
            "REVOKED"
        } else {
            "active"
        };
        let ghost before = texts(out@);
        out.push(say_pack_line(row.id.as_str(), row.name.as_str(), status));
        out.push(say_digest_line(row.sha256.as_str()));
        out.push(say_installed_line(row.installed_at.as_str()));
        assert(texts(out@) =~= before + row_lines(*row));
        i += 1;
    }
    out
}

proof fn lemma_mandatory_of(packs: Seq<ManifestView>, n: nat, name: Seq<char>)
    requires
        n <= packs.len(),
    ensures
        mandatory_of(packs, n).contains(name) <==> exists|i: int|
            0 <= i < n && (#[trigger] packs[i]).mandatory_fns.contains(name),
    decreases n,
{
    if n > 0 {
        let before = mandatory_of(packs, (n - 1) as nat);
        let own = packs[n - 1].mandatory_fns;
        lemma_mandatory_of(packs, (n - 1) as nat, name);
        lemma_both_have(before, own, name);
    }
}

proof fn lemma_protected_of(packs: Seq<ManifestView>, n: nat, name: Seq<char>)
    requires
        n <= packs.len(),
    ensures
        protected_of(packs, n).contains(name) <==> exists|i: int|
            0 <= i < n && (#[trigger] packs[i]).protected_structs.contains(name),
    decreases n,
{
    if n > 0 {
        let before = protected_of(packs, (n - 1) as nat);
        let own = packs[n - 1].protected_structs;
        lemma_protected_of(packs, (n - 1) as nat, name);
        lemma_both_have(before, own, name);
    }
}

/// What the active packs demand is what some one of them does: a function is to
/// be called exactly where a pack lists it among its mandatory ones, and it is
/// named once, however many packs do.
pub proof fn law_every_pack_is_heard(packs: Seq<ManifestView>, name: Seq<char>)
    ensures
        distinct(mandatory_of(packs, packs.len())).contains(name) <==> exists|i: int|
            0 <= i < packs.len() && (#[trigger] packs[i]).mandatory_fns.contains(name),
        distinct(mandatory_of(packs, packs.len())).no_duplicates(),
{
    lemma_mandatory_of(packs, packs.len(), name);
    law_distinct(mandatory_of(packs, packs.len()));
}

/// What the active packs protect is what some one of them does: a struct is
/// protected exactly where a pack lists it, and it is named once, however many
/// packs do.
pub proof fn law_every_pack_protects(packs: Seq<ManifestView>, name: Seq<char>)
    ensures
        distinct(protected_of(packs, packs.len())).contains(name) <==> exists|i: int|
            0 <= i < packs.len() && (#[trigger] packs[i]).protected_structs.contains(name),
        distinct(protected_of(packs, packs.len())).no_duplicates(),
{
    lemma_protected_of(packs, packs.len(), name);
    law_distinct(protected_of(packs, packs.len()));
}

/// The active packs are those whose identifier is among the active ones, in the
/// order in which they are installed.
pub proof fn law_the_active_packs(packs: Seq<PackManifest>, ids: Seq<Seq<char>>, n: nat)
    requires
        n <= packs.len(),
    ensures
        active(packs, ids, n) == packs.take(n as int).filter_map(
            |p: PackManifest|
                if ids.contains(p.id@) {
                    Some(p@)
                } else {
                    None
                },
        ),
    decreases n,
{
    let f = |p: PackManifest|
        if ids.contains(p.id@) {
            Some(p@)
        } else {
            None
        };
    if n > 0 {
        law_the_active_packs(packs, ids, (n - 1) as nat);
        lemma_kept_next(packs, f, n - 1);
    }
}

proof fn lemma_bad_wiring(list: Seq<(Seq<char>, JsonView)>, from: nat)
    ensures
        match bad_wiring(list, from) {
            Some(kind) => exists|i: int|
                {
                    &&& from <= i < list.len()
                    &&& (#[trigger] list[i]).0 == kind
                    &&& !supported_wiring(kind)
                    &&& forall|j: int| from <= j < i ==> supported_wiring((#[trigger] list[j]).0)
                },
            None => forall|i: int|
                from <= i < list.len() ==> supported_wiring((#[trigger] list[i]).0),
        },
    decreases list.len() - from,
{
    if from < list.len() {
        if supported_wiring(list[from as int].0) {
            lemma_bad_wiring(list, from + 1);
        } else {
            assert(list[from as int].0 == bad_wiring(list, from)->Some_0);
        }
    }
}

proof fn lemma_bad_rule(list: Seq<Seq<char>>, from: nat)
    ensures
        match bad_rule(list, from) {
            Some(kind) => exists|i: int|
                {
                    &&& from <= i < list.len()
                    &&& #[trigger] list[i] == kind
                    &&& !supported_rule(kind)
                    &&& forall|j: int| from <= j < i ==> supported_rule(#[trigger] list[j])
                },
            None => forall|i: int| from <= i < list.len() ==> supported_rule(#[trigger] list[i]),
        },
    decreases list.len() - from,
{
    if from < list.len() {
        if supported_rule(list[from as int]) {
            lemma_bad_rule(list, from + 1);
        } else {
            assert(list[from as int] == bad_rule(list, from)->Some_0);
        }
    }
}

#[verifier::rlimit(50)]
proof fn lemma_profiles_fault(pack: Seq<char>, profiles: Seq<ProfileView>, from: nat)
    ensures
        match profiles_fault(pack, profiles, from) {
            Some(e) => exists|i: int|
                {
                    &&& from <= i < profiles.len()
                    &&& profile_fault(pack, #[trigger] profiles[i]) == Some(e)
                    &&& forall|j: int|
                        from <= j < i ==> profile_fault(pack, #[trigger] profiles[j]) is None
                },
            None => forall|i: int|
                from <= i < profiles.len() ==> profile_fault(pack, #[trigger] profiles[i]) is None,
        },
    decreases profiles.len() - from,
{
    if from < profiles.len() {
        if profile_fault(pack, profiles[from as int]) is None {
            lemma_profiles_fault(pack, profiles, from + 1);
        } else {
            assert(profile_fault(pack, profiles[from as int]) == profiles_fault(
                pack,
                profiles,
                from,
            ));
        }
    }
}

/// The kinds of wiring that a profile may ask for: tokens bound to their sender,
/// pushed authorization requests and their lifetime, proof keys, and the check
/// of the issuer.
pub open spec fn known_wiring(kind: Seq<char>) -> bool {
    seq![
        "sender_constrained_tokens"@,
        "par"@,
        "pkce_s256"@,
        "iss_check"@,
        "par_request_uri_lifetime"@,
    ].contains(kind)
}

/// The kinds of static rules that a profile may ask for.
pub open spec fn known_rule(kind: Seq<char>) -> bool {
    seq![
        "exposed_mutating_requires_role"@,
        "deny_by_default_exposure"@,
        "no_plaintext_secret_params"@,
    ].contains(kind)
}

proof fn lemma_known(kind: Seq<char>)
    ensures
        supported_wiring(kind) == known_wiring(kind),
        supported_rule(kind) == known_rule(kind),
{
    let wirings = seq![
        "sender_constrained_tokens"@,
        "par"@,
        "pkce_s256"@,
        "iss_check"@,
        "par_request_uri_lifetime"@,
    ];
    let rules = seq![
        "exposed_mutating_requires_role"@,
        "deny_by_default_exposure"@,
        "no_plaintext_secret_params"@,
    ];
    assert(wirings[0] == "sender_constrained_tokens"@ && wirings[1] == "par"@ && wirings[2]
        == "pkce_s256"@ && wirings[3] == "iss_check"@ && wirings[4] == "par_request_uri_lifetime"@);
    assert(rules[0] == "exposed_mutating_requires_role"@ && rules[1] == "deny_by_default_exposure"@
        && rules[2] == "no_plaintext_secret_params"@);
}

/// A pack may be installed exactly where everything that its profiles demand is
/// dealt with, wiring and static rules both, and it ships no code of its own.
pub proof fn law_what_may_be_installed(m: ManifestView)
    ensures
        manifest_fault(m) is None <==> {
            &&& m.primitives_nir is None
            &&& forall|i: int, j: int|
                0 <= i < m.profiles.len() && 0 <= j < m.profiles[i].wiring.len() ==> known_wiring(
                    (#[trigger] m.profiles[i].wiring[j]).0,
                )
            &&& forall|i: int, j: int|
                0 <= i < m.profiles.len() && 0 <= j < m.profiles[i].static_rules.len()
                    ==> known_rule(#[trigger] m.profiles[i].static_rules[j])
        },
{
    lemma_profiles_fault(m.id, m.profiles, 0);
    assert forall|i: int| 0 <= i < m.profiles.len() implies {
        profile_fault(m.id, #[trigger] m.profiles[i]) is None <==> {
            &&& forall|j: int|
                0 <= j < m.profiles[i].wiring.len() ==> known_wiring(
                    (#[trigger] m.profiles[i].wiring[j]).0,
                )
            &&& forall|j: int|
                0 <= j < m.profiles[i].static_rules.len() ==> known_rule(
                    #[trigger] m.profiles[i].static_rules[j],
                )
        }
    } by {
        let p = m.profiles[i];
        lemma_bad_wiring(p.wiring, 0);
        lemma_bad_rule(p.static_rules, 0);
        assert forall|kind: Seq<char>| #[trigger] supported_wiring(kind) == known_wiring(kind) by {
            lemma_known(kind);
        }
        assert forall|kind: Seq<char>| #[trigger] supported_rule(kind) == known_rule(kind) by {
            lemma_known(kind);
        }
    }
    if manifest_fault(m) is None {
        assert forall|i: int, j: int|
            0 <= i < m.profiles.len() && 0 <= j < m.profiles[i].wiring.len() implies known_wiring(
            (#[trigger] m.profiles[i].wiring[j]).0,
        ) by {
            assert(profile_fault(m.id, m.profiles[i]) is None);
        }
        assert forall|i: int, j: int|
            0 <= i < m.profiles.len() && 0 <= j < m.profiles[i].static_rules.len()
                implies known_rule(#[trigger] m.profiles[i].static_rules[j]) by {
            assert(profile_fault(m.id, m.profiles[i]) is None);
        }
    }
}

/// Tokens are bound to their sender exactly where some profile of some active
/// pack asks for it.
pub proof fn law_who_binds_tokens(packs: Seq<ManifestView>)
    ensures
        tokens_constrained(packs) <==> exists|i: int, j: int, k: int|
            0 <= i < packs.len() && 0 <= j < packs[i].profiles.len() && 0 <= k
                < packs[i].profiles[j].wiring.len() && (
            #[trigger] packs[i].profiles[j].wiring[k]).0 == "sender_constrained_tokens"@,
{
    if tokens_constrained(packs) {
        let i = choose|i: int| 0 <= i < packs.len() && pack_constrains_tokens(#[trigger] packs[i]);
        let j = choose|j: int|
            0 <= j < packs[i].profiles.len() && constrains_tokens(#[trigger] packs[i].profiles[j]);
        let k = choose|k: int|
            0 <= k < packs[i].profiles[j].wiring.len() && (
            #[trigger] packs[i].profiles[j].wiring[k]).0 == "sender_constrained_tokens"@;
        assert(packs[i].profiles[j].wiring[k].0 == "sender_constrained_tokens"@);
    }
    if exists|i: int, j: int, k: int|
        0 <= i < packs.len() && 0 <= j < packs[i].profiles.len() && 0 <= k
            < packs[i].profiles[j].wiring.len() && (#[trigger] packs[i].profiles[j].wiring[k]).0
            == "sender_constrained_tokens"@ {
        let (i, j, k) = choose|i: int, j: int, k: int|
            0 <= i < packs.len() && 0 <= j < packs[i].profiles.len() && 0 <= k
                < packs[i].profiles[j].wiring.len() && (
            #[trigger] packs[i].profiles[j].wiring[k]).0 == "sender_constrained_tokens"@;
        assert(constrains_tokens(packs[i].profiles[j]));
        assert(pack_constrains_tokens(packs[i]));
    }
}

/// What only a configuration can meet is every requirement but the binding of
/// tokens, each with its kind and its parameters, in order.
pub proof fn law_what_a_configuration_meets(list: Seq<(Seq<char>, JsonView)>, n: nat)
    requires
        n <= list.len(),
    ensures
        config_only(list, n) == list.take(n as int).filter_map(
            |r: (Seq<char>, JsonView)|
                if r.0 == "sender_constrained_tokens"@ {
                    None
                } else {
                    Some(
                        JsonView::Object(
                            seq![("kind"@, JsonView::Text(r.0)), ("params"@, r.1)],
                        ),
                    )
                },
        ),
    decreases n,
{
    let f = |r: (Seq<char>, JsonView)|
        if r.0 == "sender_constrained_tokens"@ {
            None
        } else {
            Some(JsonView::Object(seq![("kind"@, JsonView::Text(r.0)), ("params"@, r.1)]))
        };
    if n > 0 {
        law_what_a_configuration_meets(list, (n - 1) as nat);
        lemma_kept_next(list, f, n - 1);
    }
}

/// Every outside demand of a profile is written down, in order.
pub proof fn law_every_conformance_is_written(list: Seq<(Seq<char>, Seq<char>)>, n: nat)
    requires
        n <= list.len(),
    ensures
        conformances(list, n).len() == n,
        forall|i: int|
            0 <= i < n ==> #[trigger] conformances(list, n)[i] == JsonView::Object(
                seq![
                    ("kind"@, JsonView::Text(list[i].0)),
                    ("description"@, JsonView::Text(list[i].1)),
                ],
            ),
    decreases n,
{
    if n > 0 {
        law_every_conformance_is_written(list, (n - 1) as nat);
    }
}

/// A profile has its place in the configuration exactly where it asks for
/// something besides the binding of tokens. What it says there is its pack, its
/// name and version, what it asks for and which outside demands it meets.
pub proof fn law_profiles_of_the_configuration(
    pack: Seq<char>,
    profiles: Seq<ProfileView>,
    n: nat,
)
    requires
        n <= profiles.len(),
    ensures
        profiles_json(pack, profiles, n) == profiles.take(n as int).filter_map(
            |p: ProfileView|
                if config_only(p.wiring, p.wiring.len()).len() == 0 {
                    None
                } else {
                    Some(
                        JsonView::Object(
                            seq![
                                ("pack_id"@, JsonView::Text(pack)),
                                ("profile"@, JsonView::Text(p.name)),
                                ("version"@, JsonView::Text(p.version)),
                                (
                                    "wiring_requirements"@,
                                    JsonView::List(config_only(p.wiring, p.wiring.len())),
                                ),
                                (
                                    "external_conformance"@,
                                    JsonView::List(
                                        conformances(p.conformance, p.conformance.len()),
                                    ),
                                ),
                                ("note"@, JsonView::Text(WIRING_NOTE@)),
                            ],
                        ),
                    )
                },
        ),
    decreases n,
{
    let f = |p: ProfileView|
        if config_only(p.wiring, p.wiring.len()).len() == 0 {
            None
        } else {
            Some(
                JsonView::Object(
                    seq![
                        ("pack_id"@, JsonView::Text(pack)),
                        ("profile"@, JsonView::Text(p.name)),
                        ("version"@, JsonView::Text(p.version)),
                        (
                            "wiring_requirements"@,
                            JsonView::List(config_only(p.wiring, p.wiring.len())),
                        ),
                        (
                            "external_conformance"@,
                            JsonView::List(conformances(p.conformance, p.conformance.len())),
                        ),
                        ("note"@, JsonView::Text(WIRING_NOTE@)),
                    ],
                ),
            )
        };
    if n > 0 {
        law_profiles_of_the_configuration(pack, profiles, (n - 1) as nat);
        lemma_kept_next(profiles, f, n - 1);
    }
}

/// The configuration holds what every active pack asks of it, pack by pack.
pub proof fn law_packs_of_the_configuration(packs: Seq<ManifestView>, n: nat)
    requires
        n <= packs.len(),
    ensures
        wiring_of(packs, n) == packs.map_values(
            |m: ManifestView| profiles_json(m.id, m.profiles, m.profiles.len()),
        ).take(n as int).flatten(),
    decreases n,
{
    let all = packs.map_values(
        |m: ManifestView| profiles_json(m.id, m.profiles, m.profiles.len()),
    );
    if n > 0 {
        law_packs_of_the_configuration(packs, (n - 1) as nat);
        lemma_flat_next(all, n - 1);
    } else {
        assert(all.take(0) =~= Seq::<Seq<JsonView>>::empty());
    }
}

/// Loading goes up to the first invariant that is no function: all before it
/// are, and it is none.
pub proof fn law_what_is_loaded(list: Seq<InvariantView>, from: nat)
    requires
        from <= list.len(),
    ensures
        from <= loadable(list, from) <= list.len(),
        forall|i: int| from <= i < loadable(list, from) ==> (#[trigger] list[i]).kind == "fn"@,
        loadable(list, from) < list.len() ==> list[loadable(list, from) as int].kind != "fn"@,
    decreases list.len() - from,
{
    if from < list.len() && list[from as int].kind == "fn"@ {
        law_what_is_loaded(list, from + 1);
    }
}

/// A key belongs to whom the first anchor with it says; to nobody where no
/// anchor has it.
pub proof fn law_whose_a_key_is(
    anchors: Seq<(Seq<char>, Seq<char>)>,
    key: Seq<char>,
    from: nat,
)
    ensures
        match anchored(anchors, key, from) {
            Some(who) => exists|i: int|
                {
                    &&& from <= i < anchors.len()
                    &&& #[trigger] anchors[i] == (key, who)
                    &&& forall|j: int| from <= j < i ==> (#[trigger] anchors[j]).0 != key
                },
            None => forall|i: int| from <= i < anchors.len() ==> (#[trigger] anchors[i]).0 != key,
        },
    decreases anchors.len() - from,
{
    if from < anchors.len() {
        if anchors[from as int].0 == key {
            assert(anchors[from as int] == (key, anchors[from as int].1));
        } else {
            law_whose_a_key_is(anchors, key, from + 1);
        }
    }
}

/// A pack is taken exactly where its key is anchored or it is not regulated. The
/// word of an anchor goes before the pack's own, and the ground of the trust
/// tells which of them was believed.
pub proof fn law_on_what_ground_a_pack_is_taken(
    class: DomainClass,
    pack: Seq<char>,
    key: Seq<char>,
    claimed: Seq<char>,
    anchors: Seq<(Seq<char>, Seq<char>)>,
    source: Seq<char>,
)
    ensures
        ({
            let known = exists|i: int| 0 <= i < anchors.len() && (#[trigger] anchors[i]).0 == key;
            match trusted(class, pack, key, claimed, anchors, source) {
                Ok((who, ground)) => {
                    &&& known || class !is Regulated
                    &&& known ==> ground == "trust_anchor"@ && anchors.contains((key, who))
                    &&& !known ==> ground == "tofu"@ && who == claimed
                },
                Err(_) => !known && class is Regulated,
            }
        }),
{
    law_whose_a_key_is(anchors, key, 0);
    match anchored(anchors, key, 0) {
        Some(who) => {
            let i = choose|i: int|
                {
                    &&& 0 <= i < anchors.len()
                    &&& #[trigger] anchors[i] == (key, who)
                    &&& forall|j: int| 0 <= j < i ==> (#[trigger] anchors[j]).0 != key
                };
            assert(anchors[i].0 == key);
        },
        None => {},
    }
}

/// The trusted keys are kept where the setting says; without one in the home
/// directory, else in the profile directory, else where temporary files go.
pub proof fn law_where_keys_are_kept(
    setting: Option<Seq<char>>,
    home: Option<Seq<char>>,
    profile: Option<Seq<char>>,
    temp: Seq<char>,
)
    ensures
        setting is Some ==> anchors_at(setting, home, profile, temp) == setting->Some_0,
        setting is None ==> exists|base: Seq<char>|
            {
                &&& anchors_at(setting, home, profile, temp) == #[trigger] joined(
                    joined(base, ".nirdosha"@),
                    "pack_trust_anchors.json"@,
                )
                &&& home is Some ==> base == home->Some_0
                &&& home is None && profile is Some ==> base == profile->Some_0
                &&& home is None && profile is None ==> base == temp
            },
{
    if setting is None {
        let base = if home is Some {
            home->Some_0
        } else if profile is Some {
            profile->Some_0
        } else {
            temp
        };
        assert(anchors_at(setting, home, profile, temp) == joined(
            joined(base, ".nirdosha"@),
            "pack_trust_anchors.json"@,
        ));
    }
}

/// Every installed pack has three lines in the listing, in order: its
/// identifier, name and state; its digest; and when it was installed.
pub proof fn law_every_pack_is_listed(rows: Seq<PackRow>, n: nat, i: int)
    requires
        n <= rows.len(),
        0 <= i < n,
    ensures
        rows_lines(rows, n).len() == 3 * n,
        rows_lines(rows, n)[3 * i] == rows[i].id@ + "  "@ + rows[i].name@ + "  ["@ + (
        if rows[i].revoked {
            "REVOKED"@
        } else {
            "active"@
        }) + "]"@,
        rows_lines(rows, n)[3 * i + 1] == "  sha256: "@ + rows[i].sha256@,
        rows_lines(rows, n)[3 * i + 2] == "  installed: "@ + rows[i].installed_at@,
    decreases n,
{
    if n > 1 {
        law_every_pack_is_listed(
            rows,
            (n - 1) as nat,
            if i < n - 1 {
                i
            } else {
                0
            },
        );
    } else {
        assert(rows_lines(rows, 0).len() == 0);
    }
}

/// An installation would succeed exactly where the bytes are a document, they
/// hold a manifest, the manifest may be installed, and all its invariants are
/// functions.
pub proof fn law_when_an_installation_succeeds(
    bytes: Seq<u8>,
    manifest: Result<ManifestView, Seq<char>>,
    source: Seq<char>,
)
    ensures
        install_fault(bytes, manifest, source) is None <==> {
            &&& json_parsed_bytes(bytes) is Ok
            &&& canonical_document(canon(json_parsed_bytes(bytes)->Ok_0)) is Ok
            &&& manifest is Ok
            &&& manifest_fault(manifest->Ok_0) is None
            &&& forall|i: int|
                0 <= i < manifest->Ok_0.invariants.len() ==> (
                #[trigger] manifest->Ok_0.invariants[i]).kind == "fn"@
        },
{
    if manifest is Ok {
        law_what_is_loaded(manifest->Ok_0.invariants, 0);
    }
}

/// What a loaded invariant is recorded as: under its own name and attributes,
/// with the pack that it is from and the digest of that pack.
pub proof fn law_where_an_invariant_is_from(m: ManifestView, sha256: Seq<char>, i: int)
    ensures
        pack_node(m, sha256, i).name == m.invariants[i].name,
        pack_node(m, sha256, i).attributes == m.invariants[i].attributes,
        pack_node(m, sha256, i).driving_text == "Domain-law fn from pack "@ + m.id + ": "@ + m.name,
        pack_node(m, sha256, i).created_by == "plugin:"@ + m.id + ":"@ + sha256,
{
}

/// The identity of a manifest is the digest of its canonical form behind a mark
/// that no other digest begins with.
pub proof fn law_what_an_identity_is(manifest: Seq<u8>)
    ensures
        match json_parsed_bytes(manifest) {
            Ok(v) => match canonical_document(canon(v)) {
                Ok(bytes) => pack_id_of(manifest) == Ok::<Seq<char>, Seq<char>>(
                    "sha256:"@ + hex(sha256_digest(encode_utf8("nir-plugin/v1\0"@) + bytes)),
                ),
                Err(_) => pack_id_of(manifest) is Err,
            },
            Err(_) => pack_id_of(manifest) is Err,
        },
{
}

/// The record of an accepted signature tells the pack, its digest, who signed it
/// and on what ground that was believed.
pub proof fn law_signing_record(
    pack: Seq<char>,
    sha256: Seq<char>,
    identity: Seq<char>,
    basis: Seq<char>,
)
    ensures
        signing_record(pack, sha256, identity, basis) is Object,
        signing_record(pack, sha256, identity, basis)->Object_0 == seq![
            ("pack_id"@, JsonView::Text(pack)),
            ("sha256"@, JsonView::Text(sha256)),
            ("signer_identity"@, JsonView::Text(identity)),
            ("trust_basis"@, JsonView::Text(basis)),
        ],
{
}

/// A manifest is signed exactly where it is a text, a manifest, and has an
/// identity; what is signed is that text and that identity.
pub proof fn law_what_is_signed(bytes: Seq<u8>, fault: Option<Seq<char>>)
    ensures
        match signing_of(bytes, fault) {
            Ok((text, id)) => {
                &&& valid_utf8(bytes)
                &&& fault is None
                &&& text == decode_utf8(bytes)
                &&& pack_id_of(bytes) == Ok::<Seq<char>, Seq<char>>(id)
            },
            Err(_) => !valid_utf8(bytes) || fault is Some || pack_id_of(bytes) is Err,
        },
{
}

/// Of the profiles of a pack the first at fault is told, by the first kind of
/// wiring that nothing is done about, else by the first rule that is not
/// checked; where no profile is at fault, nothing is told.
pub proof fn law_which_profile_is_at_fault(
    pack: Seq<char>,
    profiles: Seq<ProfileView>,
    i: int,
    j: int,
)
    requires
        0 <= i < profiles.len(),
        forall|k: int, w: int|
            0 <= k < i && 0 <= w < profiles[k].wiring.len() ==> known_wiring(
                (#[trigger] profiles[k].wiring[w]).0,
            ),
        forall|k: int, r: int|
            0 <= k < i && 0 <= r < profiles[k].static_rules.len() ==> known_rule(
                #[trigger] profiles[k].static_rules[r],
            ),
    ensures
        0 <= j < profiles[i].wiring.len() && !known_wiring(profiles[i].wiring[j].0) && (forall|w: int|
            0 <= w < j ==> known_wiring((#[trigger] profiles[i].wiring[w]).0)) ==> profiles_fault(
            pack,
            profiles,
            0,
        ) == Some(unsupported_wiring(pack, profiles[i].name, profiles[i].wiring[j].0)),
        0 <= j < profiles[i].static_rules.len() && !known_rule(profiles[i].static_rules[j]) && (
        forall|w: int|
            0 <= w < profiles[i].wiring.len() ==> known_wiring(
                (#[trigger] profiles[i].wiring[w]).0,
            )) && (forall|r: int|
            0 <= r < j ==> known_rule(#[trigger] profiles[i].static_rules[r])) ==> profiles_fault(
            pack,
            profiles,
            0,
        ) == Some(unsupported_rule(pack, profiles[i].name, profiles[i].static_rules[j])),
{
    assert forall|kind: Seq<char>| #[trigger] supported_wiring(kind) == known_wiring(kind) by {
        lemma_known(kind);
    }
    assert forall|kind: Seq<char>| #[trigger] supported_rule(kind) == known_rule(kind) by {
        lemma_known(kind);
    }
    lemma_profiles_fault(pack, profiles, 0);
    lemma_bad_wiring(profiles[i].wiring, 0);
    lemma_bad_rule(profiles[i].static_rules, 0);
    assert forall|k: int| 0 <= k < i implies profile_fault(pack, #[trigger] profiles[k]) is None by {
        lemma_bad_wiring(profiles[k].wiring, 0);
        lemma_bad_rule(profiles[k].static_rules, 0);
    }
    assert(profile_fault(pack, profiles[i]) == profile_fault(pack, profiles[i]));
}

/// The packs of a project are kept below its design, each in a directory of its
/// own.
pub proof fn law_where_packs_are_kept(root: Seq<char>, pack: Seq<char>)
    ensures
        packs_at(root) == joined(joined(root, ".nir"@), "plugins"@),
        manifest_at(root, pack) == joined(
            joined(joined(joined(root, ".nir"@), "plugins"@), pack),
            "pack.json"@,
        ),
{
}

/// The identity of a pack is a digest of its canonical form behind a text of its
/// own; what is told of a pack that is refused names it.
pub proof fn law_what_is_told_of_a_refused_pack(
    a: Seq<char>,
    b: Seq<char>,
    c: Seq<char>,
    canonical: Seq<u8>,
)
    ensures
        content_id(canonical) == "sha256:"@ + hex(
            sha256_digest(encode_utf8("nir-plugin/v1\0"@) + canonical),
        ),
        modified_pack(a, b, c) == "pack "@ + a
            + " has been modified since install (expected sha256 "@ + b + ", got "@ + c
            + ") -- revoke and reinstall if the change is intentional"@,
        unparsed_manifest(a, b) == "parsing pack manifest from "@ + a + ": "@ + b,
        bad_signature(a) == a
            + ": signature does not verify against the embedded public key -- refusing to install"@,
{
}

/// What is said of a manifest tells why it was refused, and a listed pack is told
/// by its name, its digest and when it was installed.
pub proof fn law_what_is_said(a: Seq<char>, b: Seq<char>, c: Seq<char>)
    ensures
        not_json(a) == "pack manifest is not valid JSON: "@ + a,
        not_canonical(a) == "canonicalizing pack manifest: "@ + a,
        unsupported_invariant(a, b, c) == "pack "@ + a + " invariant `"@ + b + "` has unsupported kind `"@ + c + "` -- only `fn` invariants are supported in 5a"@,
        not_utf8(a) == "pack manifest is not valid UTF-8: "@ + a,
        no_manifest(a) == "not a valid pack manifest: "@ + a,
        pack_line(a, b, c) == a + "  "@ + b + "  ["@ + c + "]"@,
        digest_line(a) == "  sha256: "@ + a,
        installed_line(a) == "  installed: "@ + a,
{
}

} // verus!
