use nirdosha_hi::text_table::TextTable;
use nirdosha_hi::composer::chains::merge_chains;
use nirdosha_hi::composer::decl::{
    ApprovalChainDecl, CodegenDecl, CountryConfig, DataBinding, FieldDecl, FileIntegrity,
    IntegrityManifest, LoggingConfig, MenuEntry, MenuGroup, MenuGuard, ModuleData, ModuleDecl,
    ModuleMenus, ModuleRegister, RegisterMetadata, ScreenDecl, SharedEntity, TemplateEntry, TemplateInfo,
    TemplateIntegrity, TemplateManifest,
};
use nirdosha_hi::composer::entities::{check_claims, entity_claims};
use nirdosha_hi::composer::integrity::{
    hex_bytes, load_template_manifest, pin_file, sha256_hex, verify_template_integrity,
};
use nirdosha_hi::composer::labels::resolve_label;
use nirdosha_hi::composer::project::{
    cargo_project_stub, compose_project, composed_project, describe_templates, effective_modules,
    repo_relative_path,
};
use nirdosha_hi::composer::render::{serialize_menus, serialize_register};
use nirdosha_hi::composer::roles::{check_markers, role_marker_name};
use nirdosha_hi::composer::screens::compose_screen;
use nirdosha_hi::composer::tooling::{
    command_outcome, generate_screens, verify_project, CommandRun,
};
use nirdosha_hi::toml_value::TomlValue;

fn s(text: &str) -> String {
    text.to_string()
}

fn strings(list: &[&str]) -> Vec<String> {
    list.iter().map(|t| t.to_string()).collect()
}

fn module(required: bool, default: bool) -> ModuleDecl {
    ModuleDecl { required, default, integration: None, vendors: Vec::new(), description: None }
}

fn table<V>(entries: Vec<(&str, V)>) -> TextTable<V> {
    let mut out = TextTable::new();
    for (key, value) in entries {
        out.insert(s(key), value);
    }
    out
}

fn banking() -> TemplateManifest {
    TemplateManifest {
        template: TemplateInfo {
            schema: s("1"),
            app_title: s("Acme Bank"),
            app_name: s("acme-bank"),
            org_name: s("Acme"),
            environment_name: s("dev"),
            default_country: s("IN"),
        },
        modules: table(vec![
            ("core", module(true, true)),
            ("accounts", module(false, true)),
            ("transfers", module(false, true)),
            ("loans", module(false, true)),
            ("fx", module(false, false)),
        ]),
        shared_entities: table(vec![("Account", SharedEntity { owner: s("core"), pk: s("id") })]),
        country: table(vec![(
            "IN",
            CountryConfig {
                currency: s("INR"),
                decimal_places: 2,
                transfer_daily_limit_cents: s("1"),
                large_transfer_threshold_cents: s("2"),
                loan_max_principal_cents: s("3"),
            },
        )]),
        logging: Some(LoggingConfig { domain: s("bank"), country: s("IN"), event_class: s("x") }),
    }
}

fn screen(id: &str, route: Option<&str>, roles: &[&str]) -> ScreenDecl {
    ScreenDecl {
        id: s(id),
        name: format!("Screen {id}"),
        module: s("M4"),
        archetype: s("crud_screens!"),
        combo: Vec::new(),
        roles: strings(roles),
        datasets: Vec::new(),
        blocked_by: Vec::new(),
        stage: s("built"),
        codegen: route.map(|r| CodegenDecl {
            template: s("crud"),
            mount_symbol: None,
            route_path: Some(s(r)),
            generated_files: strings(&["src/a.nir"]),
        }),
        data_binding: None,
        policy: None,
        parameters: TomlValue::Table(Vec::new()),
        notes: s(""),
        file: s("src/a.nir"),
    }
}

fn bound(id: &str, entity: &str, pk: &str, fields: &[&str]) -> ScreenDecl {
    let mut out = screen(id, None, &[]);
    out.data_binding = Some(DataBinding {
        entities: strings(&[entity]),
        primary_key: Some(s(pk)),
        guard: None,
        fields: fields
            .iter()
            .map(|f| FieldDecl {
                name: s(f),
                ty: s("String"),
                masked: false,
                sensitive: false,
                required: true,
            })
            .collect(),
    });
    out
}

fn data(name: &str, screens: Vec<ScreenDecl>) -> ModuleData {
    ModuleData {
        name: s(name),
        register: ModuleRegister {
            metadata: RegisterMetadata {
                register_id: s("r"),
                module: s(name),
                total_screens: screens.len(),
            },
            screen: screens,
            approval_chain: Vec::new(),
        },
        menus: ModuleMenus {
            meta: Vec::new(),
            landing: Vec::new(),
            group: Vec::new(),
            menu: Vec::new(),
        },
    }
}

fn entry(id: &str, route: &str, order: i64) -> MenuEntry {
    MenuEntry {
        id: s(id),
        label_key: s("nav.accounts"),
        label: None,
        screen_id: s("1"),
        route: s(route),
        group: s("g"),
        roles: Vec::new(),
        order,
        guard: None,
    }
}

fn chain(name: &str) -> ApprovalChainDecl {
    ApprovalChainDecl { name: s(name), quorum: 2, approvers: strings(&["Checker"]) }
}

fn template(id: &str) -> TemplateEntry {
    TemplateEntry {
        id: s(id),
        name: s(id),
        description: s(""),
        domain: s("bank"),
        default_country: s("IN"),
        root_manifest: format!("{id}/{id}.toml"),
    }
}

#[test]
fn effective_modules_defaults_include_optional_enabled() {
    let modules = effective_modules(&banking(), None).unwrap();
    assert!(modules.contains(&"core".to_string()));
    assert!(modules.contains(&"accounts".to_string()));
    assert!(modules.contains(&"loans".to_string()));
    assert!(!modules.contains(&"fx".to_string()));
}

#[test]
fn effective_modules_user_can_toggle_fx() {
    let selected = strings(&["core", "accounts", "transfers", "fx"]);
    let modules = effective_modules(&banking(), Some(&selected)).unwrap();
    assert!(modules.contains(&"fx".to_string()));
    assert!(!modules.contains(&"loans".to_string()));
}

#[test]
fn tables_are_kept_in_the_order_of_their_keys() {
    let mut t = table(vec![("b", 1), ("a", 2), ("c", 3), ("b", 4)]);
    assert_eq!(t.len(), 3);
    assert_eq!(*t.entry(0), (s("a"), 2));
    assert_eq!(*t.entry(1), (s("b"), 4), "a later value replaces an earlier one");
    t.insert(s("aa"), 5);
    assert_eq!(*t.entry(1), (s("aa"), 5));
    assert_eq!(
        effective_modules(&banking(), None).unwrap(),
        strings(&["accounts", "core", "loans", "transfers"])
    );
}

#[test]
fn required_modules_always_take_part() {
    assert_eq!(effective_modules(&banking(), Some(&[])).unwrap(), strings(&["core"]));
    assert_eq!(
        effective_modules(&banking(), Some(&strings(&["fx", "crypto"]))).unwrap_err(),
        "unknown module `crypto`"
    );
}

#[test]
fn describe_templates_loads_all_manifests() {
    let mut kyc = banking();
    kyc.modules = table(vec![
        (
            "document_verification",
            ModuleDecl {
                required: false,
                default: false,
                integration: Some(s("Buy")),
                vendors: strings(&["Onfido"]),
                description: None,
            },
        ),
        ("core", module(true, true)),
    ]);
    let templates = describe_templates(vec![(template("banking"), banking()), (template("kyc"), kyc)]);
    let kyc = templates.iter().find(|t| t.entry.id == "kyc").expect("kyc template");
    let ids: Vec<&str> = kyc.modules.iter().map(|m| m.id.as_str()).collect();
    assert_eq!(ids, ["core", "document_verification"]);
    let core = kyc.modules.iter().find(|m| m.id == "core").expect("core module");
    assert!(core.required, "core should be required");
    let doc = kyc
        .modules
        .iter()
        .find(|m| m.id == "document_verification")
        .expect("document_verification module");
    assert!(!doc.required);
    assert_eq!(doc.integration.as_deref(), Some("Buy"));
    assert!(doc.vendors.iter().any(|v| v.contains("Onfido")));
}

#[test]
fn compose_project_emits_register_and_menus() {
    let mut accounts = data("accounts", vec![screen("1", Some("/accounts"), &["Teller:R"])]);
    accounts.register.screen[0].parameters =
        TomlValue::Table(vec![(s("limit"), TomlValue::Integer(5))]);
    accounts.menus.menu = vec![entry("list", "/accounts", 1)];
    accounts.menus.group =
        vec![MenuGroup { id: s("g"), label_key: s("nav.group.accounts"), label: None, order: 1 }];
    accounts.menus.landing = vec![(s("Teller"), s("/accounts")), (s("Nobody"), s("/x"))];
    let modules = vec![data("core", vec![screen("1", Some("/home"), &["Admin:R/W"])]), accounts];
    let selected = strings(&["core", "accounts"]);
    let composition = match compose_project(&banking(), "banking", &selected, &modules) {
        Ok(c) => c,
        Err(e) => panic!("compose should succeed: {e}"),
    };
    let screens_text = serialize_register(&composition.register);
    assert!(
        screens_text.contains("[screen.parameters]"),
        "screen parameters should be namespaced under [screen.parameters]: {screens_text}"
    );
    assert!(screens_text.contains("id = \"accounts.4.1\""), "{screens_text}");
    assert!(screens_text.contains("src/accounts/a.nir"), "{screens_text}");
    let menus_text = serialize_menus(&composition.menus);
    assert!(menus_text.contains("accounts_list"), "{menus_text}");
    assert!(menus_text.contains("composed_from = \"banking: core, accounts\""), "{menus_text}");
    assert_eq!(composition.menus.landing, vec![(s("Teller"), s("/accounts"))]);
    let result = composed_project("/p", &banking(), &selected, &composition);
    assert_eq!(result.total_screens, 2);
    assert_eq!(result.blocked_screens, 0);
    assert_eq!(result.path, "/p/.nir/composed/acme-bank");
}

#[test]
fn compose_kyc_core_emits_register_and_menus() {
    let modules = vec![data("core", vec![screen("1", Some("/home"), &["Admin:R/W"])])];
    let composition = match compose_project(&banking(), "kyc", &strings(&["core"]), &modules) {
        Ok(c) => c,
        Err(e) => panic!("kyc compose should succeed: {e}"),
    };
    assert!(serialize_register(&composition.register).contains("[[screen]]"));
    assert!(serialize_menus(&composition.menus).contains("[meta]"));
    assert!(composition.register.metadata.total_screens > 0);
}

fn fault(modules: &Vec<ModuleData>) -> String {
    let names: Vec<String> = modules.iter().map(|m| m.name.clone()).collect();
    match compose_project(&banking(), "banking", &names, modules) {
        Err(e) => e,
        Ok(_) => panic!("the composition should be refused"),
    }
}

#[test]
fn a_product_module_takes_a_route_over_from_core() {
    let modules = vec![
        data("core", vec![screen("1", Some("/audit"), &[])]),
        data("compliance", vec![screen("9", Some("/audit"), &[])]),
    ];
    let names = strings(&["core", "compliance"]);
    let c = match compose_project(&banking(), "banking", &names, &modules) {
        Ok(c) => c,
        Err(e) => panic!("{e}"),
    };
    let ids: Vec<&str> = c.register.screen.iter().map(|s| s.id.as_str()).collect();
    assert_eq!(ids, ["compliance.4.9"]);
    assert_eq!(c.register.metadata.total_screens, 1);
    let modules = vec![
        data("com.pliance", vec![screen("9", Some("/audit"), &[]), screen("8", None, &[])]),
        data("core", vec![screen("1", Some("/audit"), &[]), screen("2", Some("/home"), &[])]),
    ];
    let names = strings(&["com.pliance", "core"]);
    let c = match compose_project(&banking(), "banking", &names, &modules) {
        Ok(c) => c,
        Err(e) => panic!("{e}"),
    };
    let ids: Vec<&str> = c.register.screen.iter().map(|s| s.id.as_str()).collect();
    assert_eq!(ids, ["com.pliance.4.9", "com.pliance.4.8", "core.4.2"]);
}

#[test]
fn two_product_modules_may_not_share_a_route() {
    let e = fault(&vec![
        data("loans", vec![screen("1", Some("/x"), &[])]),
        data("cards", vec![screen("1", Some("/x"), &[])]),
    ]);
    assert_eq!(e, "route `/x` is declared by both module `loans` and module `cards`");
}

#[test]
fn chains_have_one_name_each() {
    let mut a = data("loans", Vec::new());
    a.register.approval_chain = vec![chain("six-eyes")];
    let mut b = data("cards", Vec::new());
    b.register.approval_chain = vec![chain("six-eyes")];
    let e = fault(&vec![a, b]);
    assert_eq!(
        e,
        "approval chain name `six-eyes` is declared in more than one module -- rename or merge"
    );
    let mut c = data("loans", Vec::new());
    c.register.approval_chain = vec![chain("a"), chain("b")];
    assert_eq!(merge_chains(&vec![c]).unwrap().len(), 2);
}

#[test]
fn shared_entities_have_one_shape() {
    let e = fault(&vec![
        data("loans", vec![bound("1", "Account", "id", &["a"])]),
        data("cards", vec![bound("1", "Account", "no", &["a"])]),
    ]);
    assert_eq!(e, "shared entity `Account` has conflicting primary keys: module `loans` says `id`, but module `cards` says `no`");
    let e = fault(&vec![
        data("loans", vec![bound("1", "Account", "id", &["a"])]),
        data("cards", vec![bound("1", "Account", "id", &["b"])]),
    ]);
    assert_eq!(e, "shared entity `Account` has conflicting field lists between module `loans` and module `cards`");
    let e = fault(&vec![
        data("core", vec![bound("1", "Account", "id", &["a"])]),
        data("loans", vec![bound("1", "Account", "no", &["a"])]),
    ]);
    assert_eq!(e, "shared entity `Account` has conflicting primary keys: module `core` says `id`, but module `loans` says `no`");
    let e = fault(&vec![
        data("loans", vec![bound("1", "Account", "no", &["a"])]),
        data("core", vec![bound("1", "Account", "id", &["a"])]),
    ]);
    assert_eq!(e, "shared entity `Account` has conflicting primary keys: module `loans` says `no`, but module `core` says `id`");
    let owner = vec![data(
        "core",
        vec![bound("1", "Account", "no", &["z"]), bound("2", "Account", "no", &["y"])],
    )];
    let claims = entity_claims(&banking().shared_entities, &owner);
    assert_eq!(claims.len(), 2);
    assert!(check_claims(&claims).is_ok(), "the owner may show other fields on each screen");
    let private = vec![data("loans", vec![bound("1", "Loan", "no", &["z"])])];
    assert!(entity_claims(&banking().shared_entities, &private).is_empty());
}

#[test]
fn roles_have_one_spelling() {
    assert_eq!(role_marker_name("ops_analyst"), "OpsAnalyst");
    assert_eq!(role_marker_name("ops-analyst 2"), "OpsAnalyst2");
    assert!(check_markers(&strings(&["ops_analyst", "teller", "ops_analyst"])).is_ok());
    let e = check_markers(&strings(&["ops_analyst", "ops-analyst"])).unwrap_err();
    assert_eq!(e, "role spellings `ops_analyst` and `ops-analyst` from selected modules both resolve to marker type `OpsAnalyst`; normalize the module registers to one wire spelling");
}

#[test]
fn blocked_screens_keep_their_place_but_get_no_menu() {
    let mut m = data("loans", vec![screen("1", Some("/loans"), &[])]);
    m.register.screen[0].stage = s("blocked");
    m.menus.menu = vec![entry("list", "/loans", 1)];
    let c = match compose_project(&banking(), "banking", &strings(&["loans"]), &vec![m]) {
        Ok(c) => c,
        Err(e) => panic!("{e}"),
    };
    assert_eq!(c.blocked_screens, 1);
    assert_eq!(c.register.screen.len(), 1);
    assert!(c.menus.menu.is_empty());
}

#[test]
fn screens_are_renamed_for_their_module() {
    let out = compose_screen("loans", &screen("7", Some("/x"), &[]));
    assert_eq!(out.id, "loans.4.7");
    assert_eq!(out.file, "src/loans/a.nir");
    let plain = compose_screen("loans", &screen("7", None, &[]));
    assert_eq!(plain.file, "src/a.nir", "only a generated screen moves");
}

#[test]
fn a_written_register_reads_back() {
    let mut loans = data("loans", vec![screen("1", Some("/loans"), &["Teller:R"]), bound("2", "Loan", "id", &["a", "b"])]);
    for s0 in loans.register.screen.iter_mut() {
        s0.notes = s("see the manual");
        s0.parameters = TomlValue::Table(vec![(s("limit"), TomlValue::Integer(5))]);
    }
    loans.register.approval_chain = vec![chain("six-eyes")];
    let c = match compose_project(&banking(), "banking", &strings(&["loans"]), &vec![loans]) {
        Ok(c) => c,
        Err(e) => panic!("{e}"),
    };
    let read: toml::Value = serialize_register(&c.register).parse().expect("the register is TOML");
    let screens = read["screen"].as_array().unwrap();
    assert_eq!(screens.len(), 2);
    for one in screens {
        assert_eq!(one["notes"].as_str(), Some("see the manual"));
        assert_eq!(one["parameters"].as_table().unwrap().len(), 1);
        assert_eq!(one["parameters"]["limit"].as_integer(), Some(5));
    }
    assert_eq!(screens[0]["codegen"]["route_path"].as_str(), Some("/loans"));
    assert_eq!(screens[1]["data_binding"]["fields"].as_array().unwrap().len(), 2);
    assert_eq!(read["metadata"]["total_screens"].as_integer(), Some(2));
    assert_eq!(read["approval_chain"][0]["quorum"].as_integer(), Some(2));
}

#[test]
fn a_written_menu_reads_back() {
    let mut loans = data("loans", vec![screen("1", Some("/loans"), &["Teller:R", "Admin:R"])]);
    loans.menus.landing = vec![(s("Teller"), s("/loans")), (s("Admin"), s("/loans"))];
    loans.menus.group =
        vec![MenuGroup { id: s("g"), label_key: s("nav.group.loans"), label: None, order: 3 }];
    loans.menus.menu = vec![entry("b", "/loans", 2), entry("a", "/loans", 1)];
    loans.menus.menu[0].roles = strings(&["Teller"]);
    let c = match compose_project(&banking(), "banking", &strings(&["loans"]), &vec![loans]) {
        Ok(c) => c,
        Err(e) => panic!("{e}"),
    };
    let text = serialize_menus(&c.menus);
    assert!(text.find("Admin = ").unwrap() < text.find("Teller = ").unwrap(), "{text}");
    let read: toml::Value = text.parse().expect("the menu is TOML");
    assert_eq!(read["meta"]["app_name"].as_str(), Some("acme-bank"));
    assert_eq!(read["landing"]["Teller"].as_str(), Some("/loans"));
    assert_eq!(read["landing"].as_table().unwrap().len(), 2);
    assert_eq!(read["group"][0]["id"].as_str(), Some("loans_g"));
    assert_eq!(read["group"][0]["order"].as_integer(), Some(3));
    let menu = read["menu"].as_array().unwrap();
    assert_eq!(menu.len(), 2);
    assert_eq!(menu[0]["id"].as_str(), Some("loans_a"));
    assert_eq!(menu[1]["roles"][0].as_str(), Some("Teller"));
    assert_eq!(menu[1]["screen_id"].as_str(), Some("loans.4.1"));
    assert_eq!(menu[1]["order"].as_integer(), Some(2));
}

#[test]
fn core_says_first_where_a_role_lands() {
    let land = |name: &str, route: &str| {
        let mut m = data(name, vec![screen("1", Some(route), &["Teller:R", "Admin:R"])]);
        m.menus.landing = vec![(s("Teller"), s(route))];
        m
    };
    let mut accounts = land("accounts", "/accounts");
    accounts.menus.landing.push((s("Admin"), s("/accounts")));
    let modules = vec![accounts, land("core", "/home")];
    let c = match compose_project(&banking(), "banking", &strings(&["accounts", "core"]), &modules) {
        Ok(c) => c,
        Err(e) => panic!("{e}"),
    };
    assert_eq!(c.menus.landing, vec![(s("Teller"), s("/home")), (s("Admin"), s("/accounts"))]);
}

#[test]
fn labels_are_resolved() {
    assert_eq!(resolve_label("nav.accounts"), "Accounts");
    assert_eq!(resolve_label("nav.group.ai_ml"), "AI / ML");
    assert_eq!(resolve_label("nav.unknown"), "nav.unknown");
}

fn pinned(id: &str, sha: &str) -> IntegrityManifest {
    IntegrityManifest {
        templates: vec![TemplateIntegrity {
            id: s(id),
            files: vec![FileIntegrity { path: s("a.toml"), sha256: s(sha) }],
        }],
    }
}

const ABC: &str = "ba7816bf8f01cfea414140de5dae2223b00361a396177a9cb410ff61f20015ad";

#[test]
fn digests_are_hexadecimal() {
    assert_eq!(hex_bytes(&[0, 10, 255]), "000aff");
    assert_eq!(sha256_hex(b"abc"), ABC);
}

#[test]
fn pinned_files_are_checked() {
    let contents = vec![b"abc".to_vec()];
    let report = match verify_template_integrity(&pinned("kyc", ABC), "kyc", None, &contents) {
        Ok(r) => r,
        Err(e) => panic!("{e}"),
    };
    assert_eq!(report.checked, strings(&["a.toml"]));
    assert!(report.warnings.is_empty());
    let entries = vec![template("banking"), template("kyc")];
    assert_eq!(load_template_manifest(&entries, "kyc", &report).unwrap().root_manifest, "kyc/kyc.toml");
    assert_eq!(
        load_template_manifest(&entries, "crm", &report).err().unwrap(),
        "unknown template `crm`"
    );
}

#[test]
fn a_changed_file_refuses_the_template() {
    let contents = vec![b"abd".to_vec()];
    let report = match verify_template_integrity(&pinned("kyc", ABC), "kyc", Some(Ok(true)), &contents) {
        Ok(r) => r,
        Err(e) => panic!("{e}"),
    };
    assert_eq!(report.warnings.len(), 1);
    assert!(report.warnings[0].starts_with("template `kyc` file `a.toml` hash mismatch: expected ba78"));
    let e = load_template_manifest(&vec![template("kyc")], "kyc", &report).err().unwrap();
    assert_eq!(e, report.warnings[0]);
}

#[test]
fn a_template_must_be_listed_and_its_signature_must_verify() {
    let none = Vec::new();
    let manifest = pinned("kyc", ABC);
    let fault = |id: &str, sig: Option<Result<bool, String>>, contents: &Vec<Vec<u8>>| {
        match verify_template_integrity(&manifest, id, sig, contents) {
            Err(e) => e,
            Ok(_) => panic!("refused"),
        }
    };
    assert_eq!(fault("crm", None, &none), "template `crm` not listed in integrity manifest");
    let contents = vec![b"abc".to_vec()];
    assert_eq!(
        fault("kyc", Some(Ok(false)), &contents),
        "template `kyc` integrity manifest signature does not verify -- refusing to load"
    );
    assert_eq!(
        fault("kyc", Some(Err(s("bad key"))), &contents),
        "signature verification failed for template `kyc`: bad key"
    );
}

#[test]
fn a_composed_project_is_a_project_of_its_own() {
    assert_eq!(repo_relative_path("/r", "crates/nirdosha-rt"), "/r/crates/nirdosha-rt");
    let stub = cargo_project_stub("/r", "acme-bank");
    assert!(stub.contains("name = \"acme-bank\""), "{stub}");
    assert!(stub.contains("nirdosha-rt = { path = \"/r/crates/nirdosha-rt\" }"), "{stub}");
    assert!(stub.contains("[workspace]"), "{stub}");
}

#[test]
fn tools_are_run_from_where_they_are() {
    let line = generate_screens("/p", Some("/r/target/debug/cargo-nirdosha"));
    assert_eq!(line.program, "/r/target/debug/cargo-nirdosha");
    assert_eq!(line.args, strings(&["generate-screens", "/p"]));
    let line = verify_project("/p", None);
    assert_eq!(line.program, "cargo");
    assert_eq!(line.args[..5], strings(&["run", "-q", "-p", "cargo-nirdosha", "--"])[..]);
    let run = CommandRun { success: false, stdout: Vec::new(), stderr: b"boom".to_vec() };
    assert_eq!(
        command_outcome("cargo-nirdosha verify", &run).unwrap_err(),
        "`cargo-nirdosha verify` failed:\nboom"
    );
    let run = CommandRun { success: true, stdout: vec![0x68, 0x69, 0xff], stderr: Vec::new() };
    assert_eq!(command_outcome("x", &run).unwrap(), "hi\u{fffd}");
}

#[test]
fn a_guarded_menu_entry_reads_back() {
    let mut loans = data("loans", vec![screen("1", Some("/loans"), &["Teller:R"])]);
    loans.menus.menu = vec![entry("a", "/loans", 4), entry("b", "/loans", 5)];
    loans.menus.menu[0].roles = strings(&["Teller"]);
    loans.menus.menu[0].guard = Some(MenuGuard { action: s("read"), resource: s("loan") });
    let c = match compose_project(&banking(), "banking", &strings(&["loans"]), &vec![loans]) {
        Ok(c) => c,
        Err(e) => panic!("{e}"),
    };
    let read: toml::Value = serialize_menus(&c.menus).parse().expect("the menu is TOML");
    let first = &read["menu"][0];
    assert_eq!(first["roles"][0].as_str(), Some("Teller"));
    assert_eq!(first["order"].as_integer(), Some(4));
    assert_eq!(first["guard"]["action"].as_str(), Some("read"));
    assert_eq!(first["guard"].as_table().unwrap().len(), 2, "the guard holds nothing else");
    assert_eq!(read["menu"][1]["order"].as_integer(), Some(5));
}

#[test]
fn a_file_is_pinned_to_its_digest() {
    let pinned = pin_file("banking\\modules\\core.toml", b"abc");
    assert_eq!(pinned.path, "banking/modules/core.toml");
    assert_eq!(pinned.sha256, "ba7816bf8f01cfea414140de5dae2223b00361a396177a9cb410ff61f20015ad");
}
