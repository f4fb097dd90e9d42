use nirdosha_hi::cli::pack::{
    install_source, install_way, plan_plugin, report_install, report_revoke, report_sign,
    InstallWay, PluginCommand,
};
use nirdosha_hi::json::Json;
use nirdosha_hi::plugin::{
    active_mandatory_primitive_names, active_pack_manifests, active_protected_struct_names,
    check_manifest, check_pinned, check_signature, decide_trust, dry_run_install,
    known_installable_packs,
    list_packs, load_domain_pack, pack_content_id, pack_manifest_path, plan_signing, plugins_dir,
    render_wiring_config, signed_envelope, signing_log_entry, trust_anchors_path,
    wiring_requires_sender_constrained_tokens, ComplianceProfile, DomainClass, PackInvariant,
    PackManifest, PackRow, PackSignature, SignedPackEnvelope, StaticRule, TrustAnchor,
    ValidateTemplate, WiringRequirement,
};

fn s(text: &str) -> String {
    text.to_string()
}

fn strings(list: &[&str]) -> Vec<String> {
    list.iter().map(|t| t.to_string()).collect()
}

fn pack(id: &str) -> PackManifest {
    PackManifest {
        id: s(id),
        name: format!("test pack {id}"),
        domain_class: DomainClass::LongTail,
        jurisdictions: Vec::new(),
        invariants: Vec::new(),
        relations: Vec::new(),
        mandatory_fns: Vec::new(),
        primitives_nir: None,
        compliance_profiles: Vec::new(),
        protected_structs: Vec::new(),
    }
}

fn profile(rules: &[&str], wiring: &[&str]) -> ComplianceProfile {
    ComplianceProfile {
        name: s("bogus"),
        version: s("1"),
        static_rules: rules.iter().map(|k| StaticRule { kind: s(k) }).collect(),
        wiring_requirements: wiring
            .iter()
            .map(|k| WiringRequirement { kind: s(k), params: Json::Null })
            .collect(),
        external_conformance: Vec::new(),
    }
}

fn pack_invariant(kind: &str, name: &str) -> PackInvariant {
    PackInvariant {
        kind: s(kind),
        name: s(name),
        attributes: strings(&["whole cents only"]),
        signature: PackSignature {
            params: vec![(s("amount"), s("i64"))],
            ret: s("i64"),
        },
        validates: vec![ValidateTemplate {
            fn_name: s(name),
            pre: Some(s("amount >= 0")),
            post: strings(&["result >= 0"]),
        }],
    }
}

#[test]
fn a_pack_declaring_primitives_nir_refuses_to_install() {
    let mut manifest = pack("ledger-v0");
    manifest.mandatory_fns = strings(&["transfer"]);
    manifest.primitives_nir = Some(s("fn transfer(amount: i64) -> i64 { return amount }"));
    let err =
        check_manifest(&manifest).expect_err("a pack declaring primitives_nir must be refused");
    assert!(err.contains("primitives_nir"), "got: {err}");
}

#[test]
fn a_dry_run_says_what_an_installation_would_come_to() {
    let mut manifest = pack("ledger-v0");
    manifest.invariants = vec![pack_invariant("fn", "transfer")];
    let try_it = |bytes: &[u8], m: Result<PackManifest, String>| dry_run_install(bytes, &m, "dry-run p.json");
    assert_eq!(try_it(b"{}", Ok(manifest)).unwrap(), "ledger-v0");
    let e = try_it(b"{", Ok(pack("a"))).unwrap_err();
    assert!(e.starts_with("pack manifest is not valid JSON: "), "{e}");
    assert_eq!(
        try_it(b"{}", Err(s("missing field `id`"))).unwrap_err(),
        "parsing pack manifest from dry-run p.json: missing field `id`"
    );
    let mut refused = pack("a");
    refused.primitives_nir = Some(s("fn x() {}"));
    assert!(try_it(b"{}", Ok(refused)).unwrap_err().contains("primitives_nir"));
    let mut odd = pack("a");
    odd.invariants = vec![pack_invariant("fn", "transfer"), pack_invariant("struct", "Account")];
    let e = try_it(b"{}", Ok(odd)).unwrap_err();
    assert!(e.contains("Account"), "{e}");
}

#[test]
fn active_mandatory_primitive_names_reflects_only_active_packs() {
    assert!(active_mandatory_primitive_names(&Vec::new()).is_empty());
    let mut manifest = pack("ledger-v0-4");
    manifest.mandatory_fns = strings(&["transfer"]);
    let active = active_pack_manifests(vec![manifest], &strings(&["ledger-v0-4"]));
    let names = active_mandatory_primitive_names(&active);
    assert!(names.contains(&s("transfer")), "got: {names:?}");
    let revoked = active_pack_manifests(active, &Vec::new());
    assert!(
        active_mandatory_primitive_names(&revoked).is_empty(),
        "a revoked pack's mandatory_fns must no longer count"
    );
}

#[test]
fn active_protected_struct_names_reflects_only_active_packs() {
    assert!(active_protected_struct_names(&Vec::new()).is_empty());
    let mut manifest = pack("ledger-v0-protected");
    manifest.mandatory_fns = strings(&["transfer"]);
    manifest.protected_structs = strings(&["Account"]);
    let active = active_pack_manifests(vec![manifest], &strings(&["ledger-v0-protected"]));
    let names = active_protected_struct_names(&active);
    assert!(names.contains(&s("Account")), "got: {names:?}");
    let revoked = active_pack_manifests(active, &Vec::new());
    assert!(
        active_protected_struct_names(&revoked).is_empty(),
        "a revoked pack's protected_structs must no longer count"
    );
}

#[test]
fn a_pack_declaring_an_unsupported_wiring_requirement_fails_at_load_not_at_generate() {
    let mut manifest = pack("bogus-profile");
    manifest.compliance_profiles = vec![profile(&[], &["quantum_teleportation_binding"])];
    let err = check_manifest(&manifest)
        .expect_err("an unsupported wiring_requirement kind must refuse the load");
    assert!(err.contains("quantum_teleportation_binding"), "got:\n{err}");
}

#[test]
fn a_pack_declaring_an_unsupported_static_rule_fails_at_load_not_at_generate() {
    let mut manifest = pack("bogus-profile-2");
    manifest.compliance_profiles = vec![profile(&["no_time_travel"], &[])];
    let err =
        check_manifest(&manifest).expect_err("an unsupported static_rule kind must refuse the load");
    assert!(err.contains("no_time_travel"), "got:\n{err}");
}

fn fapi() -> PackManifest {
    let mut manifest = pack("fapi-2.0");
    manifest.compliance_profiles =
        vec![profile(&[], &["sender_constrained_tokens", "par", "pkce_s256", "iss_check"])];
    manifest
}

#[test]
fn wiring_requires_sender_constrained_tokens_is_false_until_fapi_is_installed_then_true() {
    let installed = vec![pack("banking-v0")];
    assert!(
        !wiring_requires_sender_constrained_tokens(&installed),
        "banking-v0 alone must not require DPoP"
    );
    let installed = vec![pack("banking-v0"), fapi()];
    assert!(
        wiring_requires_sender_constrained_tokens(&installed),
        "once fapi-2.0 is installed, sender-constrained tokens must be required"
    );
}

#[test]
fn render_wiring_config_declares_par_pkce_and_iss_check_but_not_sender_constrained_tokens() {
    let manifest = fapi();
    check_manifest(&manifest).expect("every kind it declares is supported");
    let config = render_wiring_config(&vec![manifest])
        .expect("fapi-2.0 has config-only requirements to declare");
    let text = format!("{config:?}");
    assert!(text.contains("\"par\""), "got:\n{text}");
    assert!(text.contains("\"pkce_s256\""), "got:\n{text}");
    assert!(text.contains("\"iss_check\""), "got:\n{text}");
    assert!(
        !text.contains("sender_constrained_tokens"),
        "sender_constrained_tokens is compiled_serve's own enforcement, not declared config:\n{text}"
    );
}

#[test]
fn render_wiring_config_is_none_when_no_installed_pack_declares_config_only_wiring() {
    assert!(render_wiring_config(&vec![pack("banking-v0")]).is_none());
}

fn envelope(key: &str, identity: &str) -> SignedPackEnvelope {
    signed_envelope(s("{}"), s(key), s("sig"), s(identity))
}

fn anchor(key: &str, identity: &str) -> TrustAnchor {
    TrustAnchor { public_key: s(key), identity: s(identity) }
}

#[test]
fn verify_and_install_signed_pack_accepts_an_unconfigured_key_via_tofu() {
    let mut manifest = pack("ledger-v0-tofu");
    manifest.mandatory_fns = strings(&["transfer"]);
    let (identity, basis) = decide_trust(
        &manifest,
        &envelope("key", "some-domain-experts@example.org"),
        &Vec::new(),
        "test",
    )
    .expect("TOFU install must succeed");
    assert_eq!(identity, "some-domain-experts@example.org");
    assert_eq!(basis, "tofu");
}

#[test]
fn regulated_pack_refuses_tofu_install_without_a_configured_trust_anchor() {
    let mut manifest = pack("banking-v0");
    manifest.domain_class = DomainClass::Regulated;
    let envelope = envelope("key", "banking-domain-experts@kannamma-labs");
    let err = decide_trust(&manifest, &envelope, &Vec::new(), "test")
        .expect_err("a regulated pack must never install via TOFU");
    assert!(err.contains("regulated"), "got: {err}");
    assert!(err.contains("trust-on-first-use"), "got: {err}");
    let anchors = vec![anchor("key", "Banking Domain Experts (configured)")];
    let (identity, basis) = decide_trust(&manifest, &envelope, &anchors, "test")
        .expect("install must succeed once the key is a configured trust anchor");
    assert_eq!(identity, "Banking Domain Experts (configured)");
    assert_eq!(basis, "trust_anchor");
}

#[test]
fn verify_and_install_signed_pack_prefers_the_configured_anchor_identity_over_the_envelopes_own_claim(
) {
    let mut manifest = pack("banking-v0");
    manifest.domain_class = DomainClass::Regulated;
    let anchors = vec![anchor("other", "Someone Else"), anchor("key", "Configured Anchor Identity")];
    let (identity, _) =
        decide_trust(&manifest, &envelope("key", "self-claimed-identity"), &anchors, "test")
            .expect("install under a configured anchor must succeed");
    assert_eq!(
        identity, "Configured Anchor Identity",
        "the anchor's own configured identity must win over the envelope's self-claim"
    );
}

#[test]
fn verify_and_install_signed_pack_refuses_a_tampered_manifest() {
    let err = check_signature(false, "test").expect_err("a tampered manifest must be refused");
    assert!(err.contains("does not verify"), "the refusal must name the real reason: {err}");
    assert!(check_signature(true, "test").is_ok());
    let signed = pack_content_id(b"{\"name\":\"Banking domain law v0\"}").unwrap();
    let tampered = pack_content_id(b"{\"name\":\"TAMPERED\"}").unwrap();
    assert_ne!(signed, tampered, "what is signed changes with the manifest");
}

#[test]
fn pack_content_id_is_stable_across_equivalent_json_encodings() {
    let compact = r#"{"id":"ledger-v0","name":"n","mandatory_fns":["transfer"]}"#;
    let pretty = "{\n  \"name\": \"n\",\n  \"id\": \"ledger-v0\",\n  \"mandatory_fns\": [\"transfer\"]\n}\n";
    let id_compact = pack_content_id(compact.as_bytes()).expect("canonicalizes");
    let id_pretty = pack_content_id(pretty.as_bytes()).expect("canonicalizes");
    assert_eq!(
        id_compact, id_pretty,
        "reformatting/reordering keys must not change the pack's identity"
    );
    assert!(id_compact.starts_with("sha256:"), "got: {id_compact}");
    let different = r#"{"id":"ledger-v0","name":"n","mandatory_fns":["transfer","refund"]}"#;
    assert_ne!(id_compact, pack_content_id(different.as_bytes()).unwrap());
}

#[test]
fn a_signature_survives_re_serialization_of_an_equivalent_manifest() {
    let compact = r#"{"id":"ledger-v0-reserialize","name":"n","mandatory_fns":["transfer"]}"#;
    let value: serde_json::Value = serde_json::from_str(compact).unwrap();
    let pretty = serde_json::to_string_pretty(&value).unwrap();
    assert_eq!(
        pack_content_id(compact.as_bytes()).unwrap(),
        pack_content_id(pretty.as_bytes()).unwrap(),
        "a pretty-printed re-serialization of the identical manifest must still verify"
    );
}

#[test]
fn a_pack_that_is_no_json_has_no_id() {
    assert!(pack_content_id(b"not json").is_err());
    let empty = pack_content_id(b"{}").unwrap();
    assert_eq!(empty.len(), "sha256:".len() + 64);
}

#[test]
fn a_pack_is_loaded_as_sealed_nodes() {
    let mut manifest = pack("banking-v0");
    manifest.invariants = vec![pack_invariant("fn", "charge_cents"), pack_invariant("fn", "refund_cents")];
    manifest.relations = vec![(s("charge_cents"), s("refund_cents"))];
    let load = load_domain_pack(&manifest, "abc");
    assert_eq!(load.error, None);
    assert_eq!(load.nodes.len(), 2);
    assert_eq!(load.nodes[0].name, "charge_cents");
    assert_eq!(load.relations, vec![(s("code:fn:charge_cents"), s("code:fn:refund_cents"))]);
    manifest.invariants[1].kind = s("struct");
    let load = load_domain_pack(&manifest, "abc");
    assert_eq!(load.nodes.len(), 1, "what came before the fault is loaded");
    assert!(load.error.unwrap().contains("struct"));
    assert!(load.relations.is_empty());
}

#[test]
fn an_installed_pack_must_not_change() {
    assert!(check_pinned("banking-v0", "aa", "aa").is_ok());
    let err = check_pinned("banking-v0", "aa", "bb").unwrap_err();
    assert!(err.contains("banking-v0") && err.contains("aa") && err.contains("bb"), "{err}");
}

#[test]
fn packs_are_kept_in_the_project() {
    assert_eq!(plugins_dir("/p"), "/p/.nir/plugins");
    assert_eq!(pack_manifest_path("/p", "banking-v0"), "/p/.nir/plugins/banking-v0/pack.json");
    let known = known_installable_packs();
    assert_eq!(known.len(), 2);
    assert_eq!(known[0].0, "banking-v0");
    assert_eq!(known[1].0, "fapi-2.0");
    assert_eq!(trust_anchors_path(&Some(s("/x.json")), &None, &None, "/tmp"), "/x.json");
}

#[test]
fn installations_are_recorded() {
    let Json::Object(entries) = signing_log_entry("banking-v0", "aa", "me", "tofu") else {
        panic!("a record is an object")
    };
    let keys: Vec<&str> = entries.iter().map(|e| e.0.as_str()).collect();
    assert_eq!(keys, ["pack_id", "sha256", "signer_identity", "trust_basis"]);
    assert_eq!(list_packs(&Vec::new()), strings(&["(no packs installed)"]));
    let rows = vec![PackRow {
        id: s("banking-v0"),
        name: s("Banking"),
        sha256: s("aa"),
        installed_at: s("today"),
        revoked: true,
    }];
    let lines = list_packs(&rows);
    assert_eq!(lines.len(), 3);
    assert!(lines[0].contains("banking-v0") && lines[0].contains("REVOKED"));
}

fn plan(args: &[&str]) -> PluginCommand {
    plan_plugin(&strings(args))
}

#[test]
fn plugin_arguments_are_read() {
    assert!(matches!(
        plan(&["install", "--dry-run", "p.json"]),
        PluginCommand::Install { dry_run: true, path } if path == "p.json"
    ));
    assert!(matches!(
        plan(&["install", "p.json"]),
        PluginCommand::Install { dry_run: false, .. }
    ));
    assert!(matches!(
        plan(&["sign", "p.json", "--key", "k", "--identity", "me"]),
        PluginCommand::Sign { manifest, key, identity, out }
            if manifest == "p.json" && key == "k" && identity == "me" && out == "p.json.signed.json"
    ));
    assert!(matches!(
        plan(&["sign", "-o", "x", "p.json", "--key", "k", "--identity", "me"]),
        PluginCommand::Sign { out, .. } if out == "x"
    ));
    assert!(matches!(plan(&["list"]), PluginCommand::List));
    assert!(matches!(plan(&["revoke", "a"]), PluginCommand::Revoke(id) if id == "a"));
}

#[test]
fn plugin_arguments_that_do_not_do_are_refused() {
    let usage = |args: &[&str]| match plan(args) {
        PluginCommand::Refused(text) => text,
        _ => panic!("{args:?} should be refused"),
    };
    assert!(usage(&[]).starts_with("usage: nirdosha-hi plugin install [--dry-run] <pack.json> | sign"));
    assert_eq!(
        usage(&["install", "a", "b"]),
        "usage: nirdosha-hi plugin install [--dry-run] <pack.json>"
    );
    assert_eq!(usage(&["install", "--dry-run"]), usage(&["install"]));
    assert!(usage(&["sign", "a", "b"]).starts_with("unknown argument `b` -- usage"));
    assert!(usage(&["sign", "a", "--identity", "me", "--key"]).starts_with("usage: nirdosha-hi plugin sign"));
    assert_eq!(usage(&["revoke"]), "usage: nirdosha-hi plugin revoke <pack-id>");
    assert_eq!(
        usage(&["burn"]),
        "unknown plugin subcommand `burn` -- use install, sign, list, or revoke"
    );
}

#[test]
fn plugin_outcomes_are_reported() {
    assert_eq!(install_way(true, true), InstallWay::DryRun);
    assert_eq!(install_way(false, true), InstallWay::Signed);
    assert_eq!(install_way(false, false), InstallWay::Plain);
    assert_eq!(install_source(InstallWay::DryRun, "p"), "dry-run p");
    assert_eq!(install_source(InstallWay::Plain, "p"), "p");
    let ok = Ok(s("a"));
    let no = Err(s("why"));
    assert_eq!(
        report_install(InstallWay::DryRun, "p", &ok).unwrap(),
        "dry-run ok: pack a from p (load + own contracts proved against a stub program)"
    );
    assert_eq!(report_install(InstallWay::DryRun, "p", &no).unwrap_err(), "dry-run failed: why");
    assert_eq!(
        report_install(InstallWay::Signed, "p", &ok).unwrap(),
        "installed signed pack a from p"
    );
    assert_eq!(report_install(InstallWay::Plain, "p", &ok).unwrap(), "installed pack a from p");
    assert_eq!(report_install(InstallWay::Plain, "p", &no).unwrap_err(), "install failed: why");
    assert_eq!(
        report_sign("o", &Ok(())).unwrap(),
        "wrote o -- install it with `nirdosha-hi plugin install o`"
    );
    assert_eq!(report_sign("o", &Err(s("why"))).unwrap_err(), "signing failed: why");
    assert_eq!(report_revoke("a", &Ok(())).unwrap(), "revoked pack a");
    assert_eq!(report_revoke("a", &Err(s("why"))).unwrap_err(), "why");
}

#[test]
fn only_a_manifest_is_signed() {
    let bytes = b"{\"id\": \"p\", \"name\": \"P\"}";
    let (text, id) = plan_signing(bytes, &None).unwrap();
    assert_eq!(text.as_bytes(), bytes);
    assert_eq!(id, pack_content_id(bytes).unwrap());
    assert_eq!(
        plan_signing(b"a\xff", &Some(s("x"))).unwrap_err(),
        "pack manifest is not valid UTF-8: invalid utf-8 sequence of 1 bytes from index 1"
    );
    assert_eq!(
        plan_signing(bytes, &Some(s("missing field `id`"))).unwrap_err(),
        "not a valid pack manifest: missing field `id`"
    );
    assert_eq!(plan_signing(b"{", &None).unwrap_err(), pack_content_id(b"{").unwrap_err());
}
