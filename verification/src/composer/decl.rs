//! What a template and its modules declare, and what those declarations stand
//! for.
use crate::text::{copy_texts, texts};
use crate::text_table::TextTable;
use crate::toml_value::{TomlValue, TomlView};
use vstd::prelude::*;

verus! {

/// One template file and the digest it is pinned to.
#[derive(Debug, Clone, PartialEq)]
pub struct FileIntegrity {
    pub path: String,
    pub sha256: String,
}

/// The pinned files of one template.
#[derive(Debug, Clone, PartialEq)]
pub struct TemplateIntegrity {
    pub id: String,
    pub files: Vec<FileIntegrity>,
}

/// Tamper evidence for the shipped templates: every file with its digest.
#[derive(Debug, Clone, PartialEq)]
pub struct IntegrityManifest {
    pub templates: Vec<TemplateIntegrity>,
}

/// A signature envelope over the integrity manifest.
#[derive(Debug, Clone, PartialEq)]
pub struct IntegritySignature {
    pub manifest_json: String,
    pub signature_algorithm: String,
    pub public_key: String,
    pub signature: String,
    pub signer_identity: String,
}

/// One template of the index.
#[derive(Debug, Clone, PartialEq)]
pub struct TemplateEntry {
    pub id: String,
    pub name: String,
    pub description: String,
    pub domain: String,
    pub default_country: String,
    pub root_manifest: String,
}

/// A module as a template's manifest declares it.
#[derive(Debug, Clone, PartialEq)]
pub struct ModuleDecl {
    pub required: bool,
    pub default: bool,
    pub integration: Option<String>,
    pub vendors: Vec<String>,
    pub description: Option<String>,
}

/// The head of a template's manifest.
#[derive(Debug, Clone, PartialEq)]
pub struct TemplateInfo {
    pub schema: String,
    pub app_title: String,
    pub app_name: String,
    pub org_name: String,
    pub environment_name: String,
    pub default_country: String,
}

/// An entity that several modules use, and the module that owns it.
#[derive(Debug, Clone, PartialEq)]
pub struct SharedEntity {
    pub owner: String,
    pub pk: String,
}

/// The limits of one country.
#[derive(Debug, Clone, PartialEq)]
pub struct CountryConfig {
    pub currency: String,
    pub decimal_places: i64,
    pub transfer_daily_limit_cents: String,
    pub large_transfer_threshold_cents: String,
    pub loan_max_principal_cents: String,
}

/// Where log events belong.
#[derive(Debug, Clone, PartialEq)]
pub struct LoggingConfig {
    pub domain: String,
    pub country: String,
    pub event_class: String,
}

/// The root manifest of a template.
#[derive(Debug, PartialEq)]
pub struct TemplateManifest {
    pub template: TemplateInfo,
    pub modules: TextTable<ModuleDecl>,
    pub shared_entities: TextTable<SharedEntity>,
    pub country: TextTable<CountryConfig>,
    pub logging: Option<LoggingConfig>,
}

/// The head of a screen register.
#[derive(Debug, Clone, PartialEq)]
pub struct RegisterMetadata {
    pub register_id: String,
    pub module: String,
    pub total_screens: usize,
}

/// A template with its module table, for display.
#[derive(Debug, Clone, PartialEq)]
pub struct TemplateDescription {
    pub entry: TemplateEntry,
    pub modules: Vec<ModuleDescription>,
}

/// A module of a template, for display.
#[derive(Debug, Clone, PartialEq)]
pub struct ModuleDescription {
    pub id: String,
    pub required: bool,
    pub default: bool,
    pub integration: Option<String>,
    pub vendors: Vec<String>,
    pub description: Option<String>,
}

/// What a composition produced.
#[derive(Debug, Clone, PartialEq)]
pub struct ComposedProject {
    pub path: String,
    pub app_name: String,
    pub app_title: String,
    pub modules: Vec<String>,
    pub total_screens: usize,
    pub blocked_screens: usize,
}

/// The text in an optional string.
pub open spec fn opt_text(o: Option<String>) -> Option<Seq<char>> {
    match o {
        Some(s) => Some(s@),
        None => None,
    }
}

/// The texts in a list of pairs of strings.
pub open spec fn pairs(list: Seq<(String, String)>) -> Seq<(Seq<char>, Seq<char>)> {
    list.map_values(|p: (String, String)| (p.0@, p.1@))
}

pub fn copy_opt(o: &Option<String>) -> (out: Option<String>)
    ensures
        opt_text(out) == opt_text(*o),
{
    match o {
        Some(s) => Some(s.clone()),
        None => None,
    }
}

/// How a screen is generated.
#[derive(Debug, PartialEq)]
pub struct CodegenDecl {
    pub template: String,
    pub mount_symbol: Option<String>,
    pub route_path: Option<String>,
    pub generated_files: Vec<String>,
}

/// What a [`CodegenDecl`] stands for.
#[verifier::ext_equal]
pub struct CodegenView {
    pub template: Seq<char>,
    pub mount_symbol: Option<Seq<char>>,
    pub route_path: Option<Seq<char>>,
    pub generated_files: Seq<Seq<char>>,
}

impl View for CodegenDecl {
    type V = CodegenView;

    open spec fn view(&self) -> CodegenView {
        CodegenView {
            template: self.template@,
            mount_symbol: opt_text(self.mount_symbol),
            route_path: opt_text(self.route_path),
            generated_files: texts(self.generated_files@),
        }
    }
}

impl Clone for CodegenDecl {
    fn clone(&self) -> (out: CodegenDecl)
        ensures
            out@ == self@,
    {
        CodegenDecl {
            template: self.template.clone(),
            mount_symbol: copy_opt(&self.mount_symbol),
            route_path: copy_opt(&self.route_path),
            generated_files: copy_texts(&self.generated_files),
        }
    }
}

/// The guarded table behind a screen.
#[derive(Debug, PartialEq)]
pub struct GuardDecl {
    pub table: String,
    pub purpose: String,
    pub row_id: Option<String>,
}

/// What a [`GuardDecl`] stands for.
#[verifier::ext_equal]
pub struct GuardView {
    pub table: Seq<char>,
    pub purpose: Seq<char>,
    pub row_id: Option<Seq<char>>,
}

impl View for GuardDecl {
    type V = GuardView;

    open spec fn view(&self) -> GuardView {
        GuardView {
            table: self.table@,
            purpose: self.purpose@,
            row_id: opt_text(self.row_id),
        }
    }
}

impl Clone for GuardDecl {
    fn clone(&self) -> (out: GuardDecl)
        ensures
            out@ == self@,
    {
        GuardDecl {
            table: self.table.clone(),
            purpose: self.purpose.clone(),
            row_id: copy_opt(&self.row_id),
        }
    }
}

/// One field that a screen shows.
#[derive(Debug, PartialEq)]
pub struct FieldDecl {
    pub name: String,
    pub ty: String,
    pub masked: bool,
    pub sensitive: bool,
    pub required: bool,
}

/// What a [`FieldDecl`] stands for.
#[verifier::ext_equal]
pub struct FieldView {
    pub name: Seq<char>,
    pub ty: Seq<char>,
    pub masked: bool,
    pub sensitive: bool,
    pub required: bool,
}

impl View for FieldDecl {
    type V = FieldView;

    open spec fn view(&self) -> FieldView {
        FieldView {
            name: self.name@,
            ty: self.ty@,
            masked: self.masked,
            sensitive: self.sensitive,
            required: self.required,
        }
    }
}

impl Clone for FieldDecl {
    fn clone(&self) -> (out: FieldDecl)
        ensures
            out@ == self@,
    {
        FieldDecl {
            name: self.name.clone(),
            ty: self.ty.clone(),
            masked: self.masked,
            sensitive: self.sensitive,
            required: self.required,
        }
    }
}

fn copy_field_decls(list: &Vec<FieldDecl>) -> (out: Vec<FieldDecl>)
    ensures
        out@.map_values(|x: FieldDecl| x@) == list@.map_values(|x: FieldDecl| x@),
{
    let mut out: Vec<FieldDecl> = Vec::new();
    let mut i: usize = 0;
    while i < list.len()
        invariant
            i <= list@.len(),
            out@.len() == i,
            forall|j: int| 0 <= j < i ==> #[trigger] out@[j]@ == list@[j]@,
        decreases list@.len() - i,
    {
        out.push(list[i].clone());
        i += 1;
    }
    assert(out@.map_values(|x: FieldDecl| x@) =~= list@.map_values(|x: FieldDecl| x@));
    out
}

/// The data a screen is bound to.
#[derive(Debug, PartialEq)]
pub struct DataBinding {
    pub entities: Vec<String>,
    pub primary_key: Option<String>,
    pub guard: Option<GuardDecl>,
    pub fields: Vec<FieldDecl>,
}

/// What a [`DataBinding`] stands for.
#[verifier::ext_equal]
pub struct BindingView {
    pub entities: Seq<Seq<char>>,
    pub primary_key: Option<Seq<char>>,
    pub guard: Option<GuardView>,
    pub fields: Seq<FieldView>,
}

impl View for DataBinding {
    type V = BindingView;

    open spec fn view(&self) -> BindingView {
        BindingView {
            entities: texts(self.entities@),
            primary_key: opt_text(self.primary_key),
            guard: match self.guard {
                Some(x) => Some(x@),
                None => None,
            },
            fields: self.fields@.map_values(|x: FieldDecl| x@),
        }
    }
}

impl Clone for DataBinding {
    fn clone(&self) -> (out: DataBinding)
        ensures
            out@ == self@,
    {
        DataBinding {
            entities: copy_texts(&self.entities),
            primary_key: copy_opt(&self.primary_key),
            guard: match &self.guard {
                Some(x) => Some(x.clone()),
                None => None,
            },
            fields: copy_field_decls(&self.fields),
        }
    }
}

/// What a screen may be used for.
#[derive(Debug, PartialEq)]
pub struct PolicyDecl {
    pub purpose: Option<String>,
    pub allowed_actions: Vec<String>,
}

/// What a [`PolicyDecl`] stands for.
#[verifier::ext_equal]
pub struct PolicyView {
    pub purpose: Option<Seq<char>>,
    pub allowed_actions: Seq<Seq<char>>,
}

impl View for PolicyDecl {
    type V = PolicyView;

    open spec fn view(&self) -> PolicyView {
        PolicyView {
            purpose: opt_text(self.purpose),
            allowed_actions: texts(self.allowed_actions@),
        }
    }
}

impl Clone for PolicyDecl {
    fn clone(&self) -> (out: PolicyDecl)
        ensures
            out@ == self@,
    {
        PolicyDecl {
            purpose: copy_opt(&self.purpose),
            allowed_actions: copy_texts(&self.allowed_actions),
        }
    }
}

/// A named approval chain.
#[derive(Debug, PartialEq)]
pub struct ApprovalChainDecl {
    pub name: String,
    pub quorum: i64,
    pub approvers: Vec<String>,
}

/// What a [`ApprovalChainDecl`] stands for.
#[verifier::ext_equal]
pub struct ChainView {
    pub name: Seq<char>,
    pub quorum: int,
    pub approvers: Seq<Seq<char>>,
}

impl View for ApprovalChainDecl {
    type V = ChainView;

    open spec fn view(&self) -> ChainView {
        ChainView {
            name: self.name@,
            quorum: self.quorum as int,
            approvers: texts(self.approvers@),
        }
    }
}

impl Clone for ApprovalChainDecl {
    fn clone(&self) -> (out: ApprovalChainDecl)
        ensures
            out@ == self@,
    {
        ApprovalChainDecl {
            name: self.name.clone(),
            quorum: self.quorum,
            approvers: copy_texts(&self.approvers),
        }
    }
}

/// One screen of a register.
#[derive(Debug, PartialEq)]
pub struct ScreenDecl {
    pub id: String,
    pub name: String,
    pub module: String,
    pub archetype: String,
    pub combo: Vec<String>,
    pub roles: Vec<String>,
    pub datasets: Vec<String>,
    pub blocked_by: Vec<String>,
    pub stage: String,
    pub codegen: Option<CodegenDecl>,
    pub data_binding: Option<DataBinding>,
    pub policy: Option<PolicyDecl>,
    pub parameters: TomlValue,
    pub notes: String,
    pub file: String,
}

/// What a [`ScreenDecl`] stands for.
#[verifier::ext_equal]
pub struct ScreenView {
    pub id: Seq<char>,
    pub name: Seq<char>,
    pub module: Seq<char>,
    pub archetype: Seq<char>,
    pub combo: Seq<Seq<char>>,
    pub roles: Seq<Seq<char>>,
    pub datasets: Seq<Seq<char>>,
    pub blocked_by: Seq<Seq<char>>,
    pub stage: Seq<char>,
    pub codegen: Option<CodegenView>,
    pub data_binding: Option<BindingView>,
    pub policy: Option<PolicyView>,
    pub parameters: TomlView,
    pub notes: Seq<char>,
    pub file: Seq<char>,
}

impl View for ScreenDecl {
    type V = ScreenView;

    open spec fn view(&self) -> ScreenView {
        ScreenView {
            id: self.id@,
            name: self.name@,
            module: self.module@,
            archetype: self.archetype@,
            combo: texts(self.combo@),
            roles: texts(self.roles@),
            datasets: texts(self.datasets@),
            blocked_by: texts(self.blocked_by@),
            stage: self.stage@,
            codegen: match self.codegen {
                Some(x) => Some(x@),
                None => None,
            },
            data_binding: match self.data_binding {
                Some(x) => Some(x@),
                None => None,
            },
            policy: match self.policy {
                Some(x) => Some(x@),
                None => None,
            },
            parameters: self.parameters@,
            notes: self.notes@,
            file: self.file@,
        }
    }
}

impl Clone for ScreenDecl {
    fn clone(&self) -> (out: ScreenDecl)
        ensures
            out@ == self@,
    {
        ScreenDecl {
            id: self.id.clone(),
            name: self.name.clone(),
            module: self.module.clone(),
            archetype: self.archetype.clone(),
            combo: copy_texts(&self.combo),
            roles: copy_texts(&self.roles),
            datasets: copy_texts(&self.datasets),
            blocked_by: copy_texts(&self.blocked_by),
            stage: self.stage.clone(),
            codegen: match &self.codegen {
                Some(x) => Some(x.clone()),
                None => None,
            },
            data_binding: match &self.data_binding {
                Some(x) => Some(x.clone()),
                None => None,
            },
            policy: match &self.policy {
                Some(x) => Some(x.clone()),
                None => None,
            },
            parameters: self.parameters.clone(),
            notes: self.notes.clone(),
            file: self.file.clone(),
        }
    }
}

/// A screen register.
#[derive(Debug, PartialEq)]
pub struct ModuleRegister {
    pub metadata: RegisterMetadata,
    pub screen: Vec<ScreenDecl>,
    pub approval_chain: Vec<ApprovalChainDecl>,
}

/// What a [`ModuleRegister`] stands for.
#[verifier::ext_equal]
pub struct RegisterView {
    pub register_id: Seq<char>,
    pub module: Seq<char>,
    pub total_screens: nat,
    pub screen: Seq<ScreenView>,
    pub approval_chain: Seq<ChainView>,
}

impl View for ModuleRegister {
    type V = RegisterView;

    open spec fn view(&self) -> RegisterView {
        RegisterView {
            register_id: self.metadata.register_id@,
            module: self.metadata.module@,
            total_screens: self.metadata.total_screens as nat,
            screen: self.screen@.map_values(|x: ScreenDecl| x@),
            approval_chain: self.approval_chain@.map_values(|x: ApprovalChainDecl| x@),
        }
    }
}

/// A group of the menu.
#[derive(Debug, PartialEq)]
pub struct MenuGroup {
    pub id: String,
    pub label_key: String,
    pub label: Option<String>,
    pub order: i64,
}

/// What a [`MenuGroup`] stands for.
#[verifier::ext_equal]
pub struct GroupView {
    pub id: Seq<char>,
    pub label_key: Seq<char>,
    pub label: Option<Seq<char>>,
    pub order: int,
}

impl View for MenuGroup {
    type V = GroupView;

    open spec fn view(&self) -> GroupView {
        GroupView {
            id: self.id@,
            label_key: self.label_key@,
            label: opt_text(self.label),
            order: self.order as int,
        }
    }
}

impl Clone for MenuGroup {
    fn clone(&self) -> (out: MenuGroup)
        ensures
            out@ == self@,
    {
        MenuGroup {
            id: self.id.clone(),
            label_key: self.label_key.clone(),
            label: copy_opt(&self.label),
            order: self.order,
        }
    }
}

/// What a menu entry asks permission for.
#[derive(Debug, PartialEq)]
pub struct MenuGuard {
    pub action: String,
    pub resource: String,
}

/// What a [`MenuGuard`] stands for.
#[verifier::ext_equal]
pub struct MenuGuardView {
    pub action: Seq<char>,
    pub resource: Seq<char>,
}

impl View for MenuGuard {
    type V = MenuGuardView;

    open spec fn view(&self) -> MenuGuardView {
        MenuGuardView {
            action: self.action@,
            resource: self.resource@,
        }
    }
}

impl Clone for MenuGuard {
    fn clone(&self) -> (out: MenuGuard)
        ensures
            out@ == self@,
    {
        MenuGuard {
            action: self.action.clone(),
            resource: self.resource.clone(),
        }
    }
}

/// One entry of the menu.
#[derive(Debug, PartialEq)]
pub struct MenuEntry {
    pub id: String,
    pub label_key: String,
    pub label: Option<String>,
    pub screen_id: String,
    pub route: String,
    pub group: String,
    pub roles: Vec<String>,
    pub order: i64,
    pub guard: Option<MenuGuard>,
}

/// What a [`MenuEntry`] stands for.
#[verifier::ext_equal]
pub struct EntryView {
    pub id: Seq<char>,
    pub label_key: Seq<char>,
    pub label: Option<Seq<char>>,
    pub screen_id: Seq<char>,
    pub route: Seq<char>,
    pub group: Seq<char>,
    pub roles: Seq<Seq<char>>,
    pub order: int,
    pub guard: Option<MenuGuardView>,
}

impl View for MenuEntry {
    type V = EntryView;

    open spec fn view(&self) -> EntryView {
        EntryView {
            id: self.id@,
            label_key: self.label_key@,
            label: opt_text(self.label),
            screen_id: self.screen_id@,
            route: self.route@,
            group: self.group@,
            roles: texts(self.roles@),
            order: self.order as int,
            guard: match self.guard {
                Some(x) => Some(x@),
                None => None,
            },
        }
    }
}

impl Clone for MenuEntry {
    fn clone(&self) -> (out: MenuEntry)
        ensures
            out@ == self@,
    {
        MenuEntry {
            id: self.id.clone(),
            label_key: self.label_key.clone(),
            label: copy_opt(&self.label),
            screen_id: self.screen_id.clone(),
            route: self.route.clone(),
            group: self.group.clone(),
            roles: copy_texts(&self.roles),
            order: self.order,
            guard: match &self.guard {
                Some(x) => Some(x.clone()),
                None => None,
            },
        }
    }
}

/// The menus of a module: its metadata lines, the landing route of each role, its groups and its entries.
#[derive(Debug, PartialEq)]
pub struct ModuleMenus {
    pub meta: Vec<(String, String)>,
    pub landing: Vec<(String, String)>,
    pub group: Vec<MenuGroup>,
    pub menu: Vec<MenuEntry>,
}

/// What a [`ModuleMenus`] stands for.
#[verifier::ext_equal]
pub struct MenusView {
    pub meta: Seq<(Seq<char>, Seq<char>)>,
    pub landing: Seq<(Seq<char>, Seq<char>)>,
    pub group: Seq<GroupView>,
    pub menu: Seq<EntryView>,
}

impl View for ModuleMenus {
    type V = MenusView;

    open spec fn view(&self) -> MenusView {
        MenusView {
            meta: pairs(self.meta@),
            landing: pairs(self.landing@),
            group: self.group@.map_values(|x: MenuGroup| x@),
            menu: self.menu@.map_values(|x: MenuEntry| x@),
        }
    }
}

/// A selected module with what it declares.
#[derive(Debug, PartialEq)]
pub struct ModuleData {
    pub name: String,
    pub register: ModuleRegister,
    pub menus: ModuleMenus,
}

/// What a [`ModuleData`] stands for.
#[verifier::ext_equal]
pub struct ModuleView {
    pub name: Seq<char>,
    pub register: RegisterView,
    pub menus: MenusView,
}

impl View for ModuleData {
    type V = ModuleView;

    open spec fn view(&self) -> ModuleView {
        ModuleView {
            name: self.name@,
            register: self.register@,
            menus: self.menus@,
        }
    }
}

} // verus!
