//! The tools that an agent may call.
use crate::json::{
    copy_json, list_push, list_views, member, opt_json, text_list, text_member, text_or_null,
    texts_json, Fields, Json, JsonView,
};
use crate::outside::{json_document, json_to_string};
use crate::text::{decimal, decimal_text, same_text, texts, texts_push};
use crate::v2::capabilities::{result_views, ResultView, V2CapabilityResult};
use crate::v2::source::{describe_v2_source, described};
use crate::v2::verdict::{certificate, certificate_json, verdict_word, V2Verdict, VerdictView};
use vstd::prelude::*;

verus! {

pub const VERIFY_DESCRIPTION: &'static str = "Checks inline v2 Nirdosha source (real Rust + nirdosha_rt macros, plus the nirdosha:* \
    doc-comment layer) against the two readers it's actually held to: `cargo build` and \
    `cargo-nirdosha`'s in-process nirdosha:contract scanner. Returns a V2Verdict (builds, \
    build_diagnostic, contracts_found, violations, \
    verdict of clean/violations_found/build_failed) -- there is no Z3/SMT proof pipeline for v2 yet, \
    so unlike the retired native verdict this never reports PROVED/DISPROVED, only whether \
    it builds and its contract claims are well-formed.";

pub const GRAMMAR_DESCRIPTION: &'static str = "v2 has no GBNF: a v2 .nir file is valid, ordinary Rust, a grammar every model already \
    knows. Returns the one part of v2 syntax a model hasn't seen -- the nirdosha:* \
    declarative doc-comment layer's real encoding -- plus how requires(role: ...) desugars \
    to a #[nirdosha_rt::contract(...)]-gated RoleProof parameter.";

pub const FIX_DESCRIPTION: &'static str = "Runs the same check as verify_code. There is no v2 auto-patcher yet (the native \
    byte-offset FixPatch machinery only ever understood this crate's own retired native \
    AST, which a v2 candidate -- real Rust, syn-parsed -- never produces): `applied` is \
    always empty. Re-read the diagnostics in `before` and edit the source yourself, then \
    call verify_code again.";

pub const APPLY_DESCRIPTION: &'static str = "Accepted and echoed back as apply_requested for compatibility; nothing is ever applied \
    yet.";

pub const DESCRIBE_DESCRIPTION: &'static str = "Parses the given source as Rust (via syn; does not require it to build) and returns a \
    curated structural summary: every fn's name/param count, every struct's fields, every \
    enum's variants, and every nirdosha:* doc-comment declaration attached to an item.";

pub const CERTIFY_DESCRIPTION: &'static str = "Runs the same check as verify_code and wraps the result in a minimal, honestly-scoped \
    certificate (certificate_version: nirdosha.certificate/v2-source-scan) -- source hash, \
    toolchain version, builds/violations, nothing stronger. Deliberately not the native \
    Certificate shape: that shape's proof_obligations/verdict_summary encode Z3/SMT-proved \
    facts about a native ast::Program, and no such proof pipeline exists for v2 yet. \
    Unsigned by design.";

pub const CONSTRUCTS_DESCRIPTION: &'static str = "Returns a live, compiler-verified inventory of v2's major constructs (fn, struct, \
    enum/match, validate/Hoare contracts via the nirdosha:validate doc comment, ...) -- \
    each one a small program actually run through verify_code's own two-reader pipeline \
    (cargo build + cargo-nirdosha) against this build. Every entry carries a worked source \
    example and whether it currently builds; a failing one also carries the real \
    diagnostic. Call this to discover what v2 actually supports right now, instead of \
    relying on documentation that can drift stale.";

pub const UI_DESCRIPTION: &'static str = "Returns a structured reference for generating a program that actually gets a web UI in \
    v2: (1) the declarative nirdosha_rt::*! archetype macros (crud_screens!, dashboard!, \
    kanban_board!, wizard!, settings_screen!, communication_feed!, categorical_actions!) -- \
    what each expands to and its real invocation shape, quoted from \
    crates/nirdosha-macros's own doc comments; (2) how access/create/read/update/delete \
    fields desugar to #[nirdosha_rt::contract(requires(role = \"...\"))]-gated fns, checked \
    by rustc at compile time, never a runtime string comparison; (3) the separate, \
    currently-inert nirdosha:screen/dashboard/workspace/layout/nav/visual doc-comment kinds \
    that describe the same archetypes in JSON form but aren't cross-referenced against real \
    code yet. Call this before writing a v2 program that's meant to render a UI.";

pub const BASE_SYNTAX: &'static str = "A v2 .nir file is valid, ordinary Rust -- compiled unmodified by plain `cargo`, \
    extension intact. Write normal Rust: `fn`/`struct`/`enum`/`match`, `String`/`&str`, \
    `println!`, semicolons, no bare top-level `return` needed on a trailing expression. \
    Every declarative construct native `.nir` used a keyword for (`workflow`, `screen`, \
    `dashboard`, `transact`, `validate`) is NOT special syntax in v2 -- it rides a `/// \
    nirdosha:<kind> {json}` doc comment on the Rust item it describes instead.";

pub const COMMENT_GRAMMAR: &'static str = "\
    Every declarative construct rides one or more `/// nirdosha:<kind> {json}` doc-comment \
    lines directly above the Rust item they describe (a struct, a fn). Consecutive `///` \
    lines are joined before parsing, so a multi-line JSON payload is fine. The payload is \
    always exactly one JSON object; unknown keys are a hard error (deny_unknown_fields), \
    the same rule the shipped `nirdosha:contract` encoding already enforces. A single item \
    may carry more than one kind (e.g. `nirdosha:contract` + `nirdosha:transact` on the \
    same fn).\n\n\
    Known kinds, and the shape their JSON object takes (every example below is real, taken \
    from a file in examples/nirdosha-v2-corpus/src that plain cargo builds and runs \
    today):\n\n\
    - nirdosha:contract {\"effects\":[\"pure\"|\"io\"|...], \
    \"requires\":{\"role\":\"...\"}, \"nfr\":{\"latency_ms\":N,\"concurrency_max\":N}, \
    \"crud\":{...}, \
    \"logging\":{\"domain\":\"...\",\"country\":\"...\",\"entity\":\"...\",\"event_class\":\"...\"}} \
    -- the shipped form; also expressible as the `#[nirdosha_rt::contract(effects(pure), \
    requires(role = \"...\"), nfr(latency_ms = 50, concurrency_max = 1000), logging(domain \
    = \"...\", country = \"...\", entity = \"...\"))]` attribute macro, which additionally \
    injects the unforgeable RoleProof parameter (see get_grammar's `role_gating` field). \
    `logging` resolves the default or `NIRDOSHA_LOGGING_POLICY_PATH` policy register at \
    macro time and injects a runtime guard that scrubs emitted events against that \
    jurisdiction's rules. The ONLY kinds any checker in this codebase (`cargo-nirdosha`) \
    actually validates today are `effects`, `requires`, `nfr`, `crud`, and the syntax of \
    `logging`; the policy field dictionary and dataset field maps are enforced at runtime.\n\n\
    - nirdosha:dataset -- not a doc-comment kind; use the `#[nirdosha_rt::dataset(entity = \
    \"transaction\", store = \"pg_transactions\", maps = { cvv = [\"_CCV\", \
    \"card_verification_value\"], pin = [\"PIN_HASH\"] })]` attribute macro on a \
    type/fn/const, or the inline `fields = [\"_CCV as cvv\", \"card_verification_value as \
    cvv\"]` spelling. Registers `(entity, concept, physical_path)` tuples into \
    `LOGGING_FIELD_MAPS` so a `#[contract(logging(...))]` guard can resolve policy concepts \
    like `cvv` to real store columns.\n\n\
    - nirdosha:validate {\"fn\":\"name\",\"pre\":[\"expr\", ...],\"post\":[\"expr\", ...]} \
    -- Hoare pre/post clauses over the decorated fn's own parameter names and `result`. One \
    JSON array entry per clause; every `pre` is a conjunctive hypothesis, every `post` is \
    checked independently.\n\n\
    - nirdosha:workflow {\"name\":\"...\", \
    \"data\":{\"struct\":\"StructName\",\"fields\":{...}}, \
    \"states\":{\"StateName\":{\"transitions\":{\"EventName\":\"NextState\"}, \
    \"terminal\":true, \"on_entry\":\"fn_name\"}, ...}} -- decorates the state-carrying \
    struct; the state-transition functions themselves (e.g. `start_x`/`advance_x`) are \
    ordinary Rust fns nearby, referenced by name, not enumerated in the JSON.\n\n\
    - nirdosha:screen {\"for\":\"StructName\", \"title\":\"...\", \
    \"fields\":{\"field_name\":{\"label\":\"...\"}}} -- decorates the struct a generated UI \
    screen is about. Composes with the plain naming-convention inference \
    (`list_/create_/update_/delete_<struct>` fns) -- this comment is additive, never a \
    replacement for it.\n\n\
    - nirdosha:dashboard {\"tiles\":[...], \"charts\":[...]} -- each tile/chart names an \
    existing `stat_*`/`chart_*` fn.\n\n\
    - nirdosha:transact {\"verify\":\"fn_name\", \"compensate\":\"fn_name\"} (+ optional \
    \"retry\"/\"timeout\") -- decorates a fn whose real Rust body performs the saga (calls \
    its own verify/commit/compensate fns visibly); the comment is a claim about what that \
    body does, checked declared-vs-actual, never a replacement for the body.\n\n\
    - nirdosha:serve {\"routes\":[...]} -- serve-surface metadata for a fn exposing an HTTP \
    route.\n\n\
    - nirdosha:field \
    {\"struct\":\"StructName\",\"field\":\"field_name\",\"requires\":{\"role\":\"...\"}} -- \
    field-level masking: the named field must be independently gated in the fn body via a \
    hand-written `Option<&RoleProof<R>>` parameter checked by a `mask_unless`-shaped helper \
    (per-field gating is not a macro feature the way fn-level `requires` is).\n\n\
    - nirdosha:schema / nirdosha:role_mapping -- db-table/column and \
    role-to-table-permission convention declarations \
    (46_db_schema_and_role_mapping_conventions.nir).\n\n\
    - nirdosha:visual / nirdosha:workspace / nirdosha:layout / nirdosha:nav -- additional \
    declarative-UI kinds (graph/heatmap/timeline visuals, workspace panels, page layout, \
    module nav grouping) with the same \"one JSON object, deny_unknown_fields\" shape as \
    the rest.\n\n\
    - nirdosha:audited -- the one `//`-form (not `///`) kind: doc comments cannot attach to \
    a statement inside a fn body, so an audited block is marked `// nirdosha:audited` \
    immediately above it with an `'audited: <label>` loop/block label, not a doc comment on \
    an item.\n\n\
    The registry is extensible: a signed plugin may declare `nirdosha:plugin:<name>:...` \
    kinds later (not shipped yet).";

pub const ROLE_GATING: &'static str = "requires(role: \"...\") becomes #[nirdosha_rt::contract(requires(role = \"...\"))] on \
    the fn, after `nirdosha_rt::roles! { Name = \"...\"; }` declares the role once at the \
    crate root. The macro injects an unforgeable `&nirdosha_rt::RoleProof<Name>` as the \
    function's actual (hidden) leading parameter -- callers obtain one via \
    `nirdosha_rt::Auth::login(subject, &roles).prove::<nirdosha_roles::Name>()` and pass it \
    as the first argument.";

pub const CRUD_SCREENS_INVOCATION: &'static str = "nirdosha_rt::crud_screens! {\n    mount: mount_product_screens,\n    entity: \
    Product,\n    store: product_store,\n    path: \"/products\",\n    fields: [ name: \
    String, price_cents: i64, cost_cents: i64 ],\n    create: requires role \"admin\",\n    \
    read: public,\n    update: requires role \"admin\",\n    delete: requires role \
    \"admin\",\n}";

pub const CRUD_SCREENS_REQUIREMENTS: &'static str = "entity must derive Clone, Default, and serde::Serialize; every field type must \
    implement ParseField (a missing impl is an ordinary rustc trait-bound error).";

pub const DASHBOARD_INVOCATION: &'static str = "nirdosha_rt::dashboard! {\n    mount: mount_sales_dashboard,\n    path: \
    \"/dashboard\",\n    title: \"Sales Overview\",\n    refresh_seconds: 300,\n    widgets \
    {\n        Metric { label: \"Revenue MTD\", fn: stat_revenue_mtd, target: 1000000, \
    alert_below: true },\n        Chart  { label: \"By Region\", fn: \
    chart_revenue_by_region, mark: bar },\n    }\n}";

pub const DASHBOARD_REQUIREMENTS: &'static str = "each widget's fn is called directly in generated code -- a wrong name or signature is \
    an ordinary rustc error, not a runtime surprise.";

pub const KANBAN_BOARD_INVOCATION: &'static str = "nirdosha_rt::kanban_board! {\n    mount: mount_status_board,\n    entity: Product,\n    \
    store: product_store,\n    path: \"/board\",\n    access: public,\n    title_field: \
    name,\n    column_field: status,\n    columns: [ \"backlog\", \"in_progress\", \"done\" \
    ],\n    move_path: \"/products/{id}/move/{to}\",\n}";

pub const KANBAN_BOARD_REQUIREMENTS: &'static str = "presentational only -- a card move POSTs to move_path, typically a route the app wires \
    by hand to a categorical_actions!-generated fn. The board itself carries no \
    authorization logic; the security boundary is that move endpoint.";

pub const WIZARD_INVOCATION: &'static str = "nirdosha_rt::wizard! {\n    mount: mount_onboarding_wizard,\n    entity: Employee,\n    \
    store: employee_store,\n    path: \"/onboarding\",\n    access: public,\n    steps: \
    [\n        { name: \"Basics\", fields: [ name: String, department: String ] },\n        \
    { name: \"Compensation\", fields: [ salary: f64 ] },\n    ],\n}";

pub const WIZARD_REQUIREMENTS: &'static str = "each step's fields are fixed at compile time (one literal route per step); the final \
    step assembles the full entity and inserts it via the same datasource crud_screens! \
    uses.";

pub const SETTINGS_SCREEN_INVOCATION: &'static str = "nirdosha_rt::settings_screen! {\n    mount: mount_app_settings,\n    entity: \
    AppSettings,\n    store: app_settings_store,\n    path: \"/settings\",\n    fields: [ \
    site_name: String, maintenance_mode: bool ],\n    access: requires role \"admin\",\n}";

pub const SETTINGS_SCREEN_REQUIREMENTS: &'static str = "the datasource is a bare `fn() -> &'static Mutex<Entity>` (exactly one row), not the \
    HashMap<i64, Entity> crud_screens!/wizard! use.";

pub const COMMUNICATION_FEED_INVOCATION: &'static str = "nirdosha_rt::communication_feed! {\n    mount: mount_team_feed,\n    entity: \
    Message,\n    store: message_store,\n    path: \"/feed\",\n    fields: [ author: \
    String, body: String ],\n    post_access: requires role \"member\",\n    read_access: \
    public,\n    refresh_seconds: 5,\n}";

pub const COMMUNICATION_FEED_REQUIREMENTS: &'static str = "honest client-side polling (a <meta http-equiv=\"refresh\"> tag, dashboard!'s exact \
    mechanism) -- not real server push; the generated routes never pretend otherwise.";

pub const CATEGORICAL_ACTIONS_INVOCATION: &'static str = "nirdosha_rt::categorical_actions! {\n    entity: Product,\n    store: \
    product_store,\n    field: is_approved: bool,\n    actions {\n        true  => \
    approve_product    requires role \"approver\",\n        false => disapprove_product \
    requires role \"compliance_officer\",\n    }\n}";

pub const CATEGORICAL_ACTIONS_REQUIREMENTS: &'static str = "generates real #[contract(requires(role = ..))]-gated functions (the only thing that \
    decides access) plus a derived, NON-authoritative role_for_<field> projection for audit \
    logs/UI hints -- never itself consulted for authorization. Leaving a field value \
    uncovered is rustc's own E0004 non-exhaustive-patterns error, not a scanner check.";

pub const UI_ROLE_GATING: &'static str = "Every archetype macro's \
    `access`/`create`/`read`/`update`/`delete`/`post_access`/`read_access` field takes \
    `public` or `requires role \"<name>\"`, expanding to the same \
    #[nirdosha_rt::contract(requires(role = \"...\"))] mechanism get_grammar's \
    `role_gating` field describes -- one unforgeable RoleProof-gated fn per protected \
    action, never a runtime string comparison.";

pub const UI_COMMENT_LAYER: &'static str = "A separate, currently-inert layer: \
    nirdosha:screen/dashboard/workspace/layout/nav/visual doc-comment kinds (see \
    get_grammar's comment_layer_grammar) describe the SAME archetypes in JSON form, but \
    nothing in this codebase cross-references them against real code yet \
    (docs/nirdosha-v2-comment-layer.md's own Phase 2, 'emit-ui reads the comment layer,' is \
    still open). Use them to document intent machine-readably; don't rely on them to make \
    anything render -- use the archetype macros above for that.";

pub const UI_SOURCE_MACROS: &'static str = "crates/nirdosha-macros/src/{crud_screens,dashboard,kanban_board,wizard,settings_screen,communication_feed,categorical}.rs \
    (every invocation above is quoted verbatim from that file's own module doc comment)";

pub const UI_SOURCE_CATALOG: &'static str = "rfcs/0009-ui-catalog-extensibility.md (Track C archetypes)";

pub const UI_SOURCE_LAYER: &'static str = "docs/nirdosha-v2-comment-layer.md §3/§4/§6 (the comment-layer kinds' design, and why \
    they're additive/inert today)";

/// One more value at the end of a list.
fn pushed(list: Vec<Json>, v: Json) -> (out: Vec<Json>)
    ensures
        list_views(out@) == list_views(list@).push(v@),
{
    broadcast use list_push;

    let mut list: Vec<Json> = list;
    let ghost before = list@;
    list.push(v);
    assert(list@.drop_last() =~= before);
    list
}

pub open spec fn string_schema(description: Seq<char>) -> JsonView {
    JsonView::Object(
        seq![
            ("type"@, JsonView::Text("string"@)),
            ("description"@, JsonView::Text(description)),
        ],
    )
}

pub open spec fn flag_schema(description: Seq<char>) -> JsonView {
    JsonView::Object(
        seq![
            ("type"@, JsonView::Text("boolean"@)),
            ("description"@, JsonView::Text(description)),
        ],
    )
}

/// The arguments of a tool that takes none.
pub open spec fn plain_schema() -> JsonView {
    JsonView::Object(
        seq![
            ("type"@, JsonView::Text("object"@)),
            ("properties"@, JsonView::Object(Seq::empty())),
        ],
    )
}

pub open spec fn object_schema(properties: Seq<(Seq<char>, JsonView)>) -> JsonView {
    JsonView::Object(
        seq![
            ("type"@, JsonView::Text("object"@)),
            ("properties"@, JsonView::Object(properties)),
            ("required"@, text_list(seq!["source"@])),
        ],
    )
}

/// The arguments of a tool that takes a source text.
pub open spec fn source_schema(description: Seq<char>) -> JsonView {
    object_schema(seq![("source"@, string_schema(description))])
}

/// The arguments of the tool that would repair a source text.
pub open spec fn fix_schema(description: Seq<char>) -> JsonView {
    object_schema(
        seq![
            ("source"@, string_schema(description)),
            ("apply"@, flag_schema(APPLY_DESCRIPTION@)),
        ],
    )
}

fn write_plain_schema() -> (out: Json)
    ensures
        out@ == plain_schema(),
{
    let none: Fields = Fields::new();
    let mut fields: Fields = Fields::new();
    fields.put_text("type", "object");
    fields.put("properties", none.object());
    assert(fields@ =~= plain_schema()->Object_0);
    fields.object()
}

fn write_property(kind: &str, description: &str) -> (out: Json)
    ensures
        out@ == JsonView::Object(
            seq![("type"@, JsonView::Text(kind@)), ("description"@, JsonView::Text(description@))],
        ),
{
    let mut fields: Fields = Fields::new();
    fields.put_text("type", kind);
    fields.put_text("description", description);
    assert(fields@ =~= seq![
        ("type"@, JsonView::Text(kind@)),
        ("description"@, JsonView::Text(description@)),
    ]);
    fields.object()
}

fn write_object_schema(properties: Fields) -> (out: Json)
    ensures
        out@ == object_schema(properties@),
{
    broadcast use texts_push;

    let ghost said = properties@;
    let mut required: Vec<String> = Vec::new();
    required.push("source".to_owned());
    assert(texts(required@) =~= seq!["source"@]);
    let mut fields: Fields = Fields::new();
    fields.put_text("type", "object");
    fields.put("properties", properties.object());
    fields.put("required", texts_json(&required));
    assert(fields@ =~= object_schema(said)->Object_0);
    fields.object()
}

fn write_source_schema(description: &str) -> (out: Json)
    ensures
        out@ == source_schema(description@),
{
    let mut properties: Fields = Fields::new();
    properties.put("source", write_property("string", description));
    assert(properties@ =~= seq![("source"@, string_schema(description@))]);
    write_object_schema(properties)
}

fn write_fix_schema(description: &str) -> (out: Json)
    ensures
        out@ == fix_schema(description@),
{
    let mut properties: Fields = Fields::new();
    properties.put("source", write_property("string", description));
    properties.put("apply", write_property("boolean", APPLY_DESCRIPTION));
    assert(properties@ =~= seq![
        ("source"@, string_schema(description@)),
        ("apply"@, flag_schema(APPLY_DESCRIPTION@)),
    ]);
    write_object_schema(properties)
}

/// A tool as it is listed.
pub open spec fn tool_json(
    name: Seq<char>,
    title: Seq<char>,
    description: Seq<char>,
    schema: JsonView,
) -> JsonView {
    JsonView::Object(
        seq![
            ("name"@, JsonView::Text(name)),
            ("title"@, JsonView::Text(title)),
            ("description"@, JsonView::Text(description)),
            ("inputSchema"@, schema),
        ],
    )
}

fn write_tool(name: &str, title: &str, description: &str, schema: Json) -> (out: Json)
    ensures
        out@ == tool_json(name@, title@, description@, schema@),
{
    let ghost said = schema@;
    let mut fields: Fields = Fields::new();
    fields.put_text("name", name);
    fields.put_text("title", title);
    fields.put_text("description", description);
    fields.put("inputSchema", schema);
    assert(fields@ =~= tool_json(name@, title@, description@, said)->Object_0);
    fields.object()
}

/// Every tool, as they are listed.
pub open spec fn tools() -> Seq<JsonView> {
    seq![
        tool_json(
            "verify_code"@,
            "Verify v2 Nirdosha source"@,
            VERIFY_DESCRIPTION@,
            source_schema("v2 Nirdosha (real Rust) source code to verify"@),
        ),
        tool_json(
            "get_grammar"@,
            "Get the v2 comment-layer grammar"@,
            GRAMMAR_DESCRIPTION@,
            plain_schema(),
        ),
        tool_json(
            "fix"@,
            "Check v2 source for issues (no auto-fixer yet)"@,
            FIX_DESCRIPTION@,
            fix_schema("v2 Nirdosha (real Rust) source code to check"@),
        ),
        tool_json(
            "describe"@,
            "Describe a v2 source file's structure"@,
            DESCRIBE_DESCRIPTION@,
            source_schema("v2 Nirdosha (real Rust) source code to describe"@),
        ),
        tool_json(
            "certify_code"@,
            "Issue a source-scan certificate for v2 source"@,
            CERTIFY_DESCRIPTION@,
            source_schema("v2 Nirdosha (real Rust) source code to certify"@),
        ),
        tool_json(
            "get_nirdosha_constructs"@,
            "Get Nirdosha's supported v2 language constructs"@,
            CONSTRUCTS_DESCRIPTION@,
            plain_schema(),
        ),
        tool_json(
            "get_ui_conventions"@,
            "Get Nirdosha v2's UI archetype macros and role gating"@,
            UI_DESCRIPTION@,
            plain_schema(),
        ),
    ]
}

pub open spec fn tools_json() -> JsonView {
    JsonView::Object(seq![("tools"@, JsonView::List(tools()))])
}

/// The listing of the tools.
pub fn tools_list() -> (out: Json)
    ensures
        out@ == tools_json(),
{
    let mut list: Vec<Json> = Vec::new();
    assert(list_views(list@) =~= Seq::<JsonView>::empty());
    list = pushed(
        list,
        write_tool(
            "verify_code",
            "Verify v2 Nirdosha source",
            VERIFY_DESCRIPTION,
            write_source_schema("v2 Nirdosha (real Rust) source code to verify"),
        ),
    );
    list = pushed(
        list,
        write_tool(
            "get_grammar",
            "Get the v2 comment-layer grammar",
            GRAMMAR_DESCRIPTION,
            write_plain_schema(),
        ),
    );
    list = pushed(
        list,
        write_tool(
            "fix",
            "Check v2 source for issues (no auto-fixer yet)",
            FIX_DESCRIPTION,
            write_fix_schema("v2 Nirdosha (real Rust) source code to check"),
        ),
    );
    list = pushed(
        list,
        write_tool(
            "describe",
            "Describe a v2 source file's structure",
            DESCRIBE_DESCRIPTION,
            write_source_schema("v2 Nirdosha (real Rust) source code to describe"),
        ),
    );
    list = pushed(
        list,
        write_tool(
            "certify_code",
            "Issue a source-scan certificate for v2 source",
            CERTIFY_DESCRIPTION,
            write_source_schema("v2 Nirdosha (real Rust) source code to certify"),
        ),
    );
    list = pushed(
        list,
        write_tool(
            "get_nirdosha_constructs",
            "Get Nirdosha's supported v2 language constructs",
            CONSTRUCTS_DESCRIPTION,
            write_plain_schema(),
        ),
    );
    list = pushed(
        list,
        write_tool(
            "get_ui_conventions",
            "Get Nirdosha v2's UI archetype macros and role gating",
            UI_DESCRIPTION,
            write_plain_schema(),
        ),
    );
    assert(list_views(list@) =~= tools());
    let mut fields: Fields = Fields::new();
    fields.put("tools", Json::List(list));
    assert(fields@ =~= tools_json()->Object_0);
    fields.object()
}

/// The grammar of the comment layer.
pub open spec fn grammar_json() -> JsonView {
    JsonView::Object(
        seq![
            ("format"@, JsonView::Text("v2-comment-layer"@)),
            ("base_syntax"@, JsonView::Text(BASE_SYNTAX@)),
            ("comment_layer_grammar"@, JsonView::Text(COMMENT_GRAMMAR@)),
            ("role_gating"@, JsonView::Text(ROLE_GATING@)),
        ],
    )
}

/// The grammar of the comment layer.
pub fn get_grammar() -> (out: Json)
    ensures
        out@ == grammar_json(),
{
    let mut fields: Fields = Fields::new();
    fields.put_text("format", "v2-comment-layer");
    fields.put_text("base_syntax", BASE_SYNTAX);
    fields.put_text("comment_layer_grammar", COMMENT_GRAMMAR);
    fields.put_text("role_gating", ROLE_GATING);
    assert(fields@ =~= grammar_json()->Object_0);
    fields.object()
}

/// A macro that makes screens of one archetype.
pub open spec fn archetype_json(
    name: Seq<char>,
    archetype: Seq<char>,
    invocation: Seq<char>,
    requirements: Seq<char>,
    checked_by: Seq<char>,
) -> JsonView {
    JsonView::Object(
        seq![
            ("macro"@, JsonView::Text(name)),
            ("archetype"@, JsonView::Text(archetype)),
            ("invocation"@, JsonView::Text(invocation)),
            ("requirements"@, JsonView::Text(requirements)),
            ("checked_by"@, JsonView::Text(checked_by)),
        ],
    )
}

fn write_archetype(
    name: &str,
    archetype: &str,
    invocation: &str,
    requirements: &str,
    checked_by: &str,
) -> (out: Json)
    ensures
        out@ == archetype_json(name@, archetype@, invocation@, requirements@, checked_by@),
{
    let mut fields: Fields = Fields::new();
    fields.put_text("macro", name);
    fields.put_text("archetype", archetype);
    fields.put_text("invocation", invocation);
    fields.put_text("requirements", requirements);
    fields.put_text("checked_by", checked_by);
    assert(fields@ =~= archetype_json(
        name@,
        archetype@,
        invocation@,
        requirements@,
        checked_by@,
    )->Object_0);
    fields.object()
}

/// Every macro that makes screens.
pub open spec fn archetypes() -> Seq<JsonView> {
    seq![
        archetype_json(
            "nirdosha_rt::crud_screens!"@,
            "List/Detail/Create-Form/Edit-Form/Delete-confirmation over one entity"@,
            CRUD_SCREENS_INVOCATION@,
            CRUD_SCREENS_REQUIREMENTS@,
            "rustc (compile-time); a typo'd field name is a real \"no such field\" error"@,
        ),
        archetype_json(
            "nirdosha_rt::dashboard!"@,
            "Dashboard -- stat tiles + bar charts"@,
            DASHBOARD_INVOCATION@,
            DASHBOARD_REQUIREMENTS@,
            "rustc (compile-time)"@,
        ),
        archetype_json(
            "nirdosha_rt::kanban_board!"@,
            "Board/Canvas -- drag-and-drop, grouped by one categorical field"@,
            KANBAN_BOARD_INVOCATION@,
            KANBAN_BOARD_REQUIREMENTS@,
            "rustc (compile-time) for the board itself; the move endpoint's own \
            #[contract(requires(role=..))] for authorization"@,
        ),
        archetype_json(
            "nirdosha_rt::wizard!"@,
            "Workflow/Wizard -- multi-step form, server-side progress"@,
            WIZARD_INVOCATION@,
            WIZARD_REQUIREMENTS@,
            "rustc (compile-time)"@,
        ),
        archetype_json(
            "nirdosha_rt::settings_screen!"@,
            "Settings/Configuration -- one always-present record, no list, no id, no delete"@,
            SETTINGS_SCREEN_INVOCATION@,
            SETTINGS_SCREEN_REQUIREMENTS@,
            "rustc (compile-time)"@,
        ),
        archetype_json(
            "nirdosha_rt::communication_feed!"@,
            "Communication -- append-only, newest-first message feed"@,
            COMMUNICATION_FEED_INVOCATION@,
            COMMUNICATION_FEED_REQUIREMENTS@,
            "rustc (compile-time)"@,
        ),
        archetype_json(
            "nirdosha_rt::categorical_actions!"@,
            "One role-gated transition function per value of a categorical field"@,
            CATEGORICAL_ACTIONS_INVOCATION@,
            CATEGORICAL_ACTIONS_REQUIREMENTS@,
            "rustc (compile-time) for both the actions and their exhaustiveness"@,
        ),
    ]
}

/// How a program gets screens.
pub open spec fn conventions_json() -> JsonView {
    JsonView::Object(
        seq![
            ("archetype_macros"@, JsonView::List(archetypes())),
            ("role_gating"@, JsonView::Text(UI_ROLE_GATING@)),
            ("declarative_comment_layer"@, JsonView::Text(UI_COMMENT_LAYER@)),
            (
                "sources"@,
                text_list(seq![UI_SOURCE_MACROS@, UI_SOURCE_CATALOG@, UI_SOURCE_LAYER@]),
            ),
        ],
    )
}

fn write_archetypes() -> (out: Vec<Json>)
    ensures
        list_views(out@) == archetypes(),
{
    let mut list: Vec<Json> = Vec::new();
    assert(list_views(list@) =~= Seq::<JsonView>::empty());
    list = pushed(
        list,
        write_archetype(
            "nirdosha_rt::crud_screens!",
            "List/Detail/Create-Form/Edit-Form/Delete-confirmation over one entity",
            CRUD_SCREENS_INVOCATION,
            CRUD_SCREENS_REQUIREMENTS,
            "rustc (compile-time); a typo'd field name is a real \"no such field\" error",
        ),
    );
    list = pushed(
        list,
        write_archetype(
            "nirdosha_rt::dashboard!",
            "Dashboard -- stat tiles + bar charts",
            DASHBOARD_INVOCATION,
            DASHBOARD_REQUIREMENTS,
            "rustc (compile-time)",
        ),
    );
    list = pushed(
        list,
        write_archetype(
            "nirdosha_rt::kanban_board!",
            "Board/Canvas -- drag-and-drop, grouped by one categorical field",
            KANBAN_BOARD_INVOCATION,
            KANBAN_BOARD_REQUIREMENTS,
            "rustc (compile-time) for the board itself; the move endpoint's own \
            #[contract(requires(role=..))] for authorization",
        ),
    );
    list = pushed(
        list,
        write_archetype(
            "nirdosha_rt::wizard!",
            "Workflow/Wizard -- multi-step form, server-side progress",
            WIZARD_INVOCATION,
            WIZARD_REQUIREMENTS,
            "rustc (compile-time)",
        ),
    );
    list = pushed(
        list,
        write_archetype(
            "nirdosha_rt::settings_screen!",
            "Settings/Configuration -- one always-present record, no list, no id, no delete",
            SETTINGS_SCREEN_INVOCATION,
            SETTINGS_SCREEN_REQUIREMENTS,
            "rustc (compile-time)",
        ),
    );
    list = pushed(
        list,
        write_archetype(
            "nirdosha_rt::communication_feed!",
            "Communication -- append-only, newest-first message feed",
            COMMUNICATION_FEED_INVOCATION,
            COMMUNICATION_FEED_REQUIREMENTS,
            "rustc (compile-time)",
        ),
    );
    list = pushed(
        list,
        write_archetype(
            "nirdosha_rt::categorical_actions!",
            "One role-gated transition function per value of a categorical field",
            CATEGORICAL_ACTIONS_INVOCATION,
            CATEGORICAL_ACTIONS_REQUIREMENTS,
            "rustc (compile-time) for both the actions and their exhaustiveness",
        ),
    );
    assert(list_views(list@) =~= archetypes());
    list
}

/// How a program gets screens.
pub fn get_ui_conventions() -> (out: Json)
    ensures
        out@ == conventions_json(),
{
    broadcast use texts_push;

    let mut sources: Vec<String> = Vec::new();
    sources.push(UI_SOURCE_MACROS.to_owned());
    sources.push(UI_SOURCE_CATALOG.to_owned());
    sources.push(UI_SOURCE_LAYER.to_owned());
    assert(texts(sources@) =~= seq![UI_SOURCE_MACROS@, UI_SOURCE_CATALOG@, UI_SOURCE_LAYER@]);
    let mut fields: Fields = Fields::new();
    fields.put("archetype_macros", Json::List(write_archetypes()));
    fields.put_text("role_gating", UI_ROLE_GATING);
    fields.put_text("declarative_comment_layer", UI_COMMENT_LAYER);
    fields.put("sources", texts_json(&sources));
    assert(fields@ =~= conventions_json()->Object_0);
    fields.object()
}

pub open spec fn missing_parameter(name: Seq<char>) -> Seq<char> {
    "Missing required parameter '"@ + name + "'"@
}

fn say_missing_parameter(name: &str) -> (out: String)
    ensures
        out@ == missing_parameter(name@),
{
    let mut out: String = "Missing required parameter '".to_owned();
    out.append(name);
    out.append("'");
    out
}

/// The text argument of a tool, or that it is missing.
pub open spec fn text_argument(arguments: JsonView, name: Seq<char>) -> Result<Seq<char>, Seq<char>> {
    match text_member(arguments, name) {
        Some(s) => Ok(s),
        None => Err(missing_parameter(name)),
    }
}

/// The text argument of a tool.
pub fn require_str_arg<'a>(arguments: &'a Json, name: &str) -> (out: Result<&'a String, String>)
    ensures
        match out {
            Ok(s) => text_argument(arguments@, name@) == Ok::<Seq<char>, Seq<char>>(s@),
            Err(e) => text_argument(arguments@, name@) == Err::<Seq<char>, Seq<char>>(e@),
        },
{
    match arguments.get_text(name) {
        Some(s) => Ok(s),
        None => Err(say_missing_parameter(name)),
    }
}

/// The flag under a key, if there is one.
pub open spec fn flag_member(v: JsonView, key: Seq<char>) -> Option<bool> {
    match member(v, key) {
        Some(JsonView::Bool(b)) => Some(b),
        _ => None,
    }
}

pub fn get_flag(v: &Json, key: &str) -> (out: Option<bool>)
    ensures
        out == flag_member(v@, key@),
{
    match v.get(key) {
        Some(Json::Bool(b)) => Some(*b),
        _ => None,
    }
}

/// What the check of a program found, for an agent.
pub open spec fn verdict_json(v: VerdictView) -> JsonView {
    JsonView::Object(
        seq![
            ("builds"@, JsonView::Bool(v.builds)),
            ("build_diagnostic"@, text_or_null(v.build_diagnostic)),
            ("contracts_found"@, JsonView::Number(decimal(v.contracts_found))),
            ("violations"@, text_list(v.violations)),
            ("verdict"@, JsonView::Text(verdict_word(v))),
        ],
    )
}

/// The answer of the tool that checks a program.
pub fn verify_code(v: &V2Verdict) -> (out: Json)
    ensures
        out@ == verdict_json(v@),
{
    let mut fields: Fields = Fields::new();
    fields.put_bool("builds", v.builds);
    fields.put("build_diagnostic", opt_json(&v.build_diagnostic));
    fields.put("contracts_found", Json::Number(decimal_text(v.contracts_found as u64)));
    fields.put("violations", texts_json(&v.violations));
    fields.put_text("verdict", v.verdict());
    assert(fields@ =~= verdict_json(v@)->Object_0);
    fields.object()
}

pub const FIX_NOTE: &'static str = "no v2 auto-fixer exists yet; nothing is applied. Re-read the diagnostics in `before` \
    and edit the source yourself, then call verify_code again.";

/// The answer of the tool that would repair a program: the check, and that
/// nothing was applied.
pub open spec fn fix_json(v: VerdictView, apply: bool) -> JsonView {
    JsonView::Object(
        seq![
            ("before"@, verdict_json(v)),
            ("applied"@, text_list(Seq::empty())),
            ("apply_requested"@, JsonView::Bool(apply)),
            ("note"@, JsonView::Text(FIX_NOTE@)),
        ],
    )
}

/// The answer of the tool that would repair a program.
pub fn fix(v: &V2Verdict, apply: bool) -> (out: Json)
    ensures
        out@ == fix_json(v@, apply),
{
    let none: Vec<String> = Vec::new();
    assert(texts(none@) =~= Seq::<Seq<char>>::empty());
    let mut fields: Fields = Fields::new();
    fields.put("before", verify_code(v));
    fields.put("applied", texts_json(&none));
    fields.put_bool("apply_requested", apply);
    fields.put_text("note", FIX_NOTE);
    assert(fields@ =~= fix_json(v@, apply)->Object_0);
    fields.object()
}

pub open spec fn construct_json(r: ResultView) -> JsonView {
    JsonView::Object(
        seq![
            ("name"@, JsonView::Text(r.name)),
            ("supported"@, JsonView::Bool(r.passed)),
            ("example"@, JsonView::Text(r.source)),
            ("diagnostic"@, text_or_null(r.diagnostic)),
        ],
    )
}

/// The constructs of the language, and which of them hold up.
pub open spec fn constructs_json(results: Seq<ResultView>) -> JsonView {
    JsonView::Object(
        seq![("constructs"@, JsonView::List(results.map_values(|r: ResultView| construct_json(r))))],
    )
}

/// The answer of the tool that lists the constructs of the language.
pub fn get_nirdosha_constructs(results: &Vec<V2CapabilityResult>) -> (out: Json)
    ensures
        out@ == constructs_json(result_views(results@)),
{
    let ghost all = result_views(results@).map_values(|r: ResultView| construct_json(r));
    let mut list: Vec<Json> = Vec::new();
    let mut i: usize = 0;
    assert(list_views(list@) =~= all.take(0));
    while i < results.len()
        invariant
            i <= results@.len(),
            all == result_views(results@).map_values(|r: ResultView| construct_json(r)),
            list_views(list@) == all.take(i as int),
        decreases results@.len() - i,
    {
        let r: &V2CapabilityResult = &results[i];
        assert(all[i as int] == construct_json(r@));
        let mut fields: Fields = Fields::new();
        fields.put_text("name", r.name);
        fields.put_bool("supported", r.passed);
        fields.put_text("example", r.source);
        fields.put("diagnostic", opt_json(&r.diagnostic));
        assert(fields@ =~= construct_json(r@)->Object_0);
        list = pushed(list, fields.object());
        i += 1;
        assert(all.take(i as int) =~= all.take(i as int - 1).push(all[i as int - 1]));
    }
    assert(all.take(i as int) =~= all);
    let mut fields: Fields = Fields::new();
    fields.put("constructs", Json::List(list));
    assert(fields@ =~= constructs_json(result_views(results@))->Object_0);
    fields.object()
}

/// What a tool call asks to be done.
pub enum ToolPlan {
    /// Nothing more: this is its outcome.
    Done(Result<Json, String>),
    /// That a source text be checked, and the check be the answer.
    Verify(String),
    /// That a source text be checked, and the check be answered as a repair.
    Fix(String, bool),
    /// That a source text be checked, and the check be certified.
    Certify(String),
    /// That the constructs of the language be checked.
    Constructs,
}

/// What a [`ToolPlan`] stands for.
pub enum PlanView {
    Done(Result<JsonView, Seq<char>>),
    Verify(Seq<char>),
    Fix(Seq<char>, bool),
    Certify(Seq<char>),
    Constructs,
}

pub open spec fn outcome_view(outcome: Result<Json, String>) -> Result<JsonView, Seq<char>> {
    match outcome {
        Ok(v) => Ok(v@),
        Err(e) => Err(e@),
    }
}

impl View for ToolPlan {
    type V = PlanView;

    open spec fn view(&self) -> PlanView {
        match *self {
            ToolPlan::Done(outcome) => PlanView::Done(outcome_view(outcome)),
            ToolPlan::Verify(s) => PlanView::Verify(s@),
            ToolPlan::Fix(s, apply) => PlanView::Fix(s@, apply),
            ToolPlan::Certify(s) => PlanView::Certify(s@),
            ToolPlan::Constructs => PlanView::Constructs,
        }
    }
}

pub open spec fn unknown_tool(name: Seq<char>) -> Seq<char> {
    "Unknown tool: "@ + name
}

fn say_unknown_tool(name: &str) -> (out: String)
    ensures
        out@ == unknown_tool(name@),
{
    let mut out: String = "Unknown tool: ".to_owned();
    out.append(name);
    out
}

/// What a call of a tool by its name asks to be done.
pub open spec fn planned_tool(name: Seq<char>, arguments: JsonView) -> PlanView {
    if name == "get_grammar"@ {
        PlanView::Done(Ok(grammar_json()))
    } else if name == "get_ui_conventions"@ {
        PlanView::Done(Ok(conventions_json()))
    } else if name == "get_nirdosha_constructs"@ {
        PlanView::Constructs
    } else if name == "verify_code"@ || name == "fix"@ || name == "describe"@ || name
        == "certify_code"@ {
        match text_argument(arguments, "source"@) {
            Err(e) => PlanView::Done(Err(e)),
            Ok(source) => if name == "verify_code"@ {
                PlanView::Verify(source)
            } else if name == "fix"@ {
                PlanView::Fix(
                    source,
                    match flag_member(arguments, "apply"@) {
                        Some(b) => b,
                        None => false,
                    },
                )
            } else if name == "describe"@ {
                PlanView::Done(described(source))
            } else {
                PlanView::Certify(source)
            },
        }
    } else {
        PlanView::Done(Err(unknown_tool(name)))
    }
}

/// What a call of a tool by its name asks to be done.
pub fn plan_tool(name: &str, arguments: &Json) -> (out: ToolPlan)
    ensures
        out@ == planned_tool(name@, arguments@),
{
    if same_text(name, "get_grammar") {
        return ToolPlan::Done(Ok(get_grammar()));
    }
    if same_text(name, "get_ui_conventions") {
        return ToolPlan::Done(Ok(get_ui_conventions()));
    }
    if same_text(name, "get_nirdosha_constructs") {
        return ToolPlan::Constructs;
    }
    let verify: bool = same_text(name, "verify_code");
    let repair: bool = same_text(name, "fix");
    let summarize: bool = same_text(name, "describe");
    let certify: bool = same_text(name, "certify_code");
    if !verify && !repair && !summarize && !certify {
        return ToolPlan::Done(Err(say_unknown_tool(name)));
    }
    let source: &String = match require_str_arg(arguments, "source") {
        Ok(s) => s,
        Err(e) => {
            return ToolPlan::Done(Err(e));
        },
    };
    if verify {
        ToolPlan::Verify(source.clone())
    } else if repair {
        let apply: bool = match get_flag(arguments, "apply") {
            Some(b) => b,
            None => false,
        };
        ToolPlan::Fix(source.clone(), apply)
    } else if summarize {
        ToolPlan::Done(describe_v2_source(source.as_str()))
    } else {
        ToolPlan::Certify(source.clone())
    }
}

/// A tool call as it came in: the name, empty where there is none, and the
/// arguments that a record of it shows.
pub struct ToolCallRequest {
    pub name: Option<String>,
    pub arguments: Json,
}

/// The name and the arguments of a tool call. Without a name the whole request
/// is recorded; without arguments they are an empty object.
pub open spec fn requested(params: JsonView) -> (Option<Seq<char>>, JsonView) {
    match text_member(params, "name"@) {
        None => (None, params),
        Some(name) => (
            Some(name),
            match member(params, "arguments"@) {
                Some(arguments) => arguments,
                None => JsonView::Object(Seq::empty()),
            },
        ),
    }
}

/// The name and the arguments of a tool call.
pub fn read_request(params: &Json) -> (out: ToolCallRequest)
    ensures
        requested(params@) == (crate::composer::decl::opt_text(out.name), out.arguments@),
{
    match params.get_text("name") {
        None => ToolCallRequest { name: None, arguments: copy_json(params) },
        Some(name) => {
            let arguments: Json = match params.get("arguments") {
                Some(arguments) => copy_json(arguments),
                None => {
                    let empty: Fields = Fields::new();
                    empty.object()
                },
            };
            ToolCallRequest { name: Some(name.clone()), arguments }
        },
    }
}

/// What a tool call asks to be done.
pub open spec fn planned_call(name: Option<Seq<char>>, arguments: JsonView) -> PlanView {
    match name {
        None => PlanView::Done(Err(missing_parameter("name"@))),
        Some(name) => planned_tool(name, arguments),
    }
}

/// What a tool call asks to be done.
pub fn tools_call(request: &ToolCallRequest) -> (out: ToolPlan)
    ensures
        out@ == planned_call(crate::composer::decl::opt_text(request.name), request.arguments@),
{
    match &request.name {
        None => ToolPlan::Done(Err(say_missing_parameter("name"))),
        Some(name) => plan_tool(name.as_str(), &request.arguments),
    }
}

/// The outcome of a tool call that asked for a check. `checked` is the check,
/// or why it could not be made.
pub open spec fn checked_outcome(
    plan: PlanView,
    checked: Result<VerdictView, Seq<char>>,
    toolchain: Seq<char>,
) -> Result<JsonView, Seq<char>> {
    match checked {
        Err(e) => Err(e),
        Ok(v) => match plan {
            PlanView::Fix(_, apply) => Ok(fix_json(v, apply)),
            PlanView::Certify(source) => Ok(certificate(source, toolchain, v)),
            _ => Ok(verdict_json(v)),
        },
    }
}

/// The outcome of a tool call that asked for a check.
pub fn finish_check(plan: &ToolPlan, checked: &Result<V2Verdict, String>, toolchain_version: &str) -> (out:
    Result<Json, String>)
    ensures
        outcome_view(out) == checked_outcome(
            plan@,
            crate::v2::verdict::checked_view(*checked),
            toolchain_version@,
        ),
{
    match checked {
        Err(e) => Err(e.clone()),
        Ok(v) => match plan {
            ToolPlan::Fix(_, apply) => Ok(fix(v, *apply)),
            ToolPlan::Certify(source) => Ok(
                certificate_json(source.as_str(), toolchain_version, v),
            ),
            _ => Ok(verify_code(v)),
        },
    }
}

/// The answer to a tool call that came to something: as a value, and as its
/// text.
pub open spec fn tool_ok_json(structured: JsonView) -> JsonView {
    JsonView::Object(
        seq![
            (
                "content"@,
                JsonView::List(
                    seq![
                        JsonView::Object(
                            seq![
                                ("type"@, JsonView::Text("text"@)),
                                ("text"@, JsonView::Text(json_document(structured))),
                            ],
                        ),
                    ],
                ),
            ),
            ("structuredContent"@, structured),
            ("isError"@, JsonView::Bool(false)),
        ],
    )
}

/// The answer to a tool call that came to something.
pub fn tool_ok(structured: Json) -> (out: Json)
    ensures
        out@ == tool_ok_json(structured@),
{
    let ghost said = structured@;
    let mut block: Fields = Fields::new();
    block.put_text("type", "text");
    block.put_text("text", json_to_string(&structured).as_str());
    let ghost entry = seq![
        ("type"@, JsonView::Text("text"@)),
        ("text"@, JsonView::Text(json_document(said))),
    ];
    assert(block@ =~= entry);
    let empty: Vec<Json> = Vec::new();
    assert(list_views(empty@) =~= Seq::<JsonView>::empty());
    let content: Vec<Json> = pushed(empty, block.object());
    assert(list_views(content@) =~= seq![JsonView::Object(entry)]);
    let mut fields: Fields = Fields::new();
    fields.put("content", Json::List(content));
    fields.put("structuredContent", structured);
    fields.put_bool("isError", false);
    assert(fields@ =~= tool_ok_json(said)->Object_0);
    fields.object()
}

/// What a tool call is answered with: a result, or an error for invalid
/// parameters.
pub fn answer_call(outcome: Result<Json, String>) -> (out: Result<Json, (i64, String)>)
    ensures
        match out {
            Ok(v) => outcome is Ok && v@ == tool_ok_json(outcome->Ok_0@),
            Err((code, message)) => outcome is Err && code == -32602 && message
                == outcome->Err_0,
        },
{
    match outcome {
        Ok(v) => Ok(tool_ok(v)),
        Err(e) => Err((-32602, e)),
    }
}

/// What each tool does with its arguments. Those that check a program ask for its
/// source, and a repair is not to be applied unless that is asked for; any other
/// name is unknown.
pub proof fn law_tools(name: Seq<char>, arguments: JsonView)
    ensures
        planned_tool("get_grammar"@, arguments) == PlanView::Done(
            Ok::<JsonView, Seq<char>>(grammar_json()),
        ),
        planned_tool("get_ui_conventions"@, arguments) == PlanView::Done(
            Ok::<JsonView, Seq<char>>(conventions_json()),
        ),
        planned_tool("get_nirdosha_constructs"@, arguments) == PlanView::Constructs,
        text_member(arguments, "source"@) matches Some(source) ==> {
            &&& planned_tool("verify_code"@, arguments) == PlanView::Verify(source)
            &&& planned_tool("certify_code"@, arguments) == PlanView::Certify(source)
            &&& planned_tool("describe"@, arguments) == PlanView::Done(described(source))
            &&& planned_tool("fix"@, arguments) == PlanView::Fix(
                source,
                member(arguments, "apply"@) == Some(JsonView::Bool(true)),
            )
        },
        text_member(arguments, "source"@) is None && (name == "verify_code"@ || name
            == "certify_code"@ || name == "describe"@ || name == "fix"@) ==> planned_tool(
            name,
            arguments,
        ) == PlanView::Done(Err::<JsonView, Seq<char>>("Missing required parameter 'source'"@)),
        name != "get_grammar"@ && name != "get_ui_conventions"@ && name
            != "get_nirdosha_constructs"@ && name != "verify_code"@ && name != "certify_code"@
            && name != "describe"@ && name != "fix"@ ==> planned_tool(name, arguments)
            == PlanView::Done(Err::<JsonView, Seq<char>>("Unknown tool: "@ + name)),
{
    reveal_strlit("get_grammar");
    reveal_strlit("get_ui_conventions");
    reveal_strlit("get_nirdosha_constructs");
    reveal_strlit("verify_code");
    reveal_strlit("certify_code");
    reveal_strlit("describe");
    reveal_strlit("fix");
    assert("get_grammar"@.len() == 11 && "get_grammar"@[0] == 'g');
    assert("get_ui_conventions"@.len() == 18);
    assert("get_nirdosha_constructs"@.len() == 23);
    assert("verify_code"@.len() == 11 && "verify_code"@[0] == 'v');
    assert("certify_code"@.len() == 12);
    assert("describe"@.len() == 8);
    assert("fix"@.len() == 3);
    reveal_strlit("source");
    reveal_strlit("Missing required parameter '");
    reveal_strlit("'");
    reveal_strlit("Missing required parameter 'source'");
    assert(missing_parameter("source"@) =~= "Missing required parameter 'source'"@);
}

/// A call names its tool, and its arguments are what stands under their name, or
/// nothing; a call that names none is refused.
pub proof fn law_requests(params: JsonView)
    ensures
        text_member(params, "name"@) matches Some(name) ==> {
            &&& requested(params).0 == Some(name)
            &&& member(params, "arguments"@) matches Some(a) ==> requested(params).1 == a
            &&& member(params, "arguments"@) is None ==> requested(params).1 == JsonView::Object(
                Seq::empty(),
            )
            &&& planned_call(requested(params).0, requested(params).1) == planned_tool(
                name,
                requested(params).1,
            )
        },
        text_member(params, "name"@) is None ==> {
            &&& requested(params) == (None::<Seq<char>>, params)
            &&& planned_call(requested(params).0, requested(params).1) is Done
            &&& planned_call(requested(params).0, requested(params).1)->Done_0 is Err
        },
{
}

/// What an agent is told of a check: what it found, and the verdict, which is
/// clean exactly where the program builds and violates none of its claims.
pub proof fn law_verdicts_for_an_agent(v: VerdictView)
    ensures
        verdict_json(v) is Object,
        ({
            let fields = verdict_json(v)->Object_0;
            &&& fields.len() == 5
            &&& fields[0] == ("builds"@, JsonView::Bool(v.builds))
            &&& fields[1].0 == "build_diagnostic"@
            &&& v.build_diagnostic is None ==> fields[1].1 == JsonView::Null
            &&& v.build_diagnostic matches Some(d) ==> fields[1].1 == JsonView::Text(d)
            &&& fields[2] == ("contracts_found"@, JsonView::Number(decimal(v.contracts_found)))
            &&& fields[3] == ("violations"@, JsonView::List(
                v.violations.map_values(|s: Seq<char>| JsonView::Text(s)),
            ))
            &&& fields[4].0 == "verdict"@
            &&& fields[4].1 == JsonView::Text("clean"@) <==> v.builds && v.violations.len() == 0
            &&& fields[4].1 == JsonView::Text("build_failed"@) <==> !v.builds
            &&& fields[4].1 == JsonView::Text("violations_found"@) <==> v.builds
                && v.violations.len() > 0
        }),
{
    reveal_strlit("clean");
    reveal_strlit("build_failed");
    reveal_strlit("violations_found");
    assert("clean"@.len() == 5);
    assert("build_failed"@.len() == 12);
    assert("violations_found"@.len() == 16);
}

/// A call that asked for a check is answered with what it asked for: the check,
/// the check with nothing applied, or the certificate. A check that could not be
/// made is an error.
pub proof fn law_answers_to_checks(
    source: Seq<char>,
    apply: bool,
    v: VerdictView,
    e: Seq<char>,
    toolchain: Seq<char>,
)
    ensures
        checked_outcome(PlanView::Verify(source), Ok(v), toolchain) == Ok::<JsonView, Seq<char>>(
            verdict_json(v),
        ),
        checked_outcome(PlanView::Certify(source), Ok(v), toolchain) == Ok::<JsonView, Seq<char>>(
            certificate(source, toolchain, v),
        ),
        ({
            let fixed = checked_outcome(PlanView::Fix(source, apply), Ok(v), toolchain);
            &&& fixed is Ok
            &&& fixed->Ok_0 is Object
            &&& fixed->Ok_0->Object_0.len() == 4
            &&& fixed->Ok_0->Object_0[0] == ("before"@, verdict_json(v))
            &&& fixed->Ok_0->Object_0[1].0 == "applied"@
            &&& fixed->Ok_0->Object_0[1].1 is List
            &&& fixed->Ok_0->Object_0[1].1->List_0.len() == 0
            &&& fixed->Ok_0->Object_0[2] == ("apply_requested"@, JsonView::Bool(apply))
        }),
        forall|plan: PlanView| #[trigger]
            checked_outcome(plan, Err(e), toolchain) == Err::<JsonView, Seq<char>>(e),
{
}

/// The constructs are told one by one: the name, whether it is supported, the
/// program that shows it and what is wrong with it.
pub proof fn law_constructs_for_an_agent(results: Seq<ResultView>)
    ensures
        constructs_json(results) is Object,
        constructs_json(results)->Object_0.len() == 1,
        constructs_json(results)->Object_0[0] == ("constructs"@, JsonView::List(
            results.map_values(
                |r: ResultView|
                    JsonView::Object(
                        seq![
                            ("name"@, JsonView::Text(r.name)),
                            ("supported"@, JsonView::Bool(r.passed)),
                            ("example"@, JsonView::Text(r.source)),
                            ("diagnostic"@, text_or_null(r.diagnostic)),
                        ],
                    ),
            ),
        )),
{
    assert(results.map_values(|r: ResultView| construct_json(r)) =~= results.map_values(
        |r: ResultView|
            JsonView::Object(
                seq![
                    ("name"@, JsonView::Text(r.name)),
                    ("supported"@, JsonView::Bool(r.passed)),
                    ("example"@, JsonView::Text(r.source)),
                    ("diagnostic"@, text_or_null(r.diagnostic)),
                ],
            ),
    ));
}

/// An answer to a call holds its result twice, as a text and as a value, and is
/// no error.
pub proof fn law_answered_calls(v: JsonView)
    ensures
        tool_ok_json(v) is Object,
        tool_ok_json(v)->Object_0.len() == 3,
        tool_ok_json(v)->Object_0[0] == ("content"@, JsonView::List(
            seq![
                JsonView::Object(
                    seq![
                        ("type"@, JsonView::Text("text"@)),
                        ("text"@, JsonView::Text(json_document(v))),
                    ],
                ),
            ],
        )),
        tool_ok_json(v)->Object_0[1] == ("structuredContent"@, v),
        tool_ok_json(v)->Object_0[2] == ("isError"@, JsonView::Bool(false)),
{
}

/// An argument that must be there is the text under its name; where there is no
/// such text, that is said, with the name.
pub proof fn law_required_arguments(arguments: JsonView, name: Seq<char>, s: Seq<char>)
    ensures
        text_argument(arguments, name) == Ok::<Seq<char>, Seq<char>>(s) <==> text_member(
            arguments,
            name,
        ) == Some(s),
        text_member(arguments, name) is None ==> text_argument(arguments, name) == Err::<
            Seq<char>,
            Seq<char>,
        >("Missing required parameter '"@ + name + "'"@),
{
}

/// The tool that would repair a program shows the check, that nothing was
/// applied, whether that was asked for, and why.
pub proof fn law_nothing_is_repaired(v: VerdictView, apply: bool)
    ensures
        fix_json(v, apply) == JsonView::Object(
            seq![
                ("before"@, verdict_json(v)),
                ("applied"@, text_list(Seq::empty())),
                ("apply_requested"@, JsonView::Bool(apply)),
                ("note"@, JsonView::Text(FIX_NOTE@)),
            ],
        ),
{
}

/// What is said of a tool that there is not names it.
pub proof fn law_what_is_said(a: Seq<char>)
    ensures
        unknown_tool(a) == "Unknown tool: "@ + a,
{
}

/// The tools are listed under the names that calls go by. Those that read a
/// program demand a text named `source`, one of them takes a flag named `apply`
/// besides, and the others take nothing.
pub proof fn law_every_tool_is_listed(i: int)
    requires
        0 <= i < 7,
    ensures
        tools().len() == 7,
        ({
            let names = seq![
                "verify_code"@,
                "get_grammar"@,
                "fix"@,
                "describe"@,
                "certify_code"@,
                "get_nirdosha_constructs"@,
                "get_ui_conventions"@,
            ];
            let fields = tools()[i]->Object_0;
            let arguments = fields[3].1->Object_0;
            let properties = arguments[1].1->Object_0;
            &&& tools()[i] is Object
            &&& fields.len() == 4
            &&& fields[0] == ("name"@, JsonView::Text(names[i]))
            &&& fields[1].0 == "title"@
            &&& fields[2].0 == "description"@
            &&& fields[3].0 == "inputSchema"@
            &&& fields[3].1 is Object
            &&& arguments[0] == ("type"@, JsonView::Text("object"@))
            &&& arguments[1].0 == "properties"@
            &&& arguments[1].1 is Object
            &&& i == 0 || i == 2 || i == 3 || i == 4 ==> {
                &&& arguments.len() == 3
                &&& arguments[2] == ("required"@, text_list(seq!["source"@]))
                &&& properties[0].0 == "source"@
                &&& properties[0].1->Object_0[0] == ("type"@, JsonView::Text("string"@))
                &&& properties.len() == if i == 2 {
                    2int
                } else {
                    1
                }
            }
            &&& i == 2 ==> properties[1].0 == "apply"@ && properties[1].1->Object_0[0] == (
                "type"@,
                JsonView::Text("boolean"@),
            )
            &&& i == 1 || i == 5 || i == 6 ==> arguments.len() == 2 && properties.len() == 0
        }),
{
}

/// A macro is shown by its name, the archetype that it makes screens of, how it
/// is invoked, what it requires and who checks that, each under its own key.
pub proof fn law_how_an_archetype_is_shown(
    name: Seq<char>,
    archetype: Seq<char>,
    invocation: Seq<char>,
    requirements: Seq<char>,
    checked_by: Seq<char>,
)
    ensures
        ({
            let shown = archetype_json(name, archetype, invocation, requirements, checked_by);
            let fields = shown->Object_0;
            &&& shown is Object
            &&& fields.len() == 5
            &&& fields[0] == ("macro"@, JsonView::Text(name))
            &&& fields[1] == ("archetype"@, JsonView::Text(archetype))
            &&& fields[2] == ("invocation"@, JsonView::Text(invocation))
            &&& fields[3] == ("requirements"@, JsonView::Text(requirements))
            &&& fields[4] == ("checked_by"@, JsonView::Text(checked_by))
        }),
{
}

} // verus!
