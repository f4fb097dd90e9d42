//! The constructs of the language, each with a program that demonstrates it.
use super::verdict::{checked_view, construct_fault, verdict_diagnostic, V2Verdict, VerdictView};
use crate::composer::decl::opt_text;
use vstd::prelude::*;

verus! {

/// A construct of the language and a program that demonstrates it.
pub struct V2Capability {
    pub name: &'static str,
    pub source: &'static str,
}

impl View for V2Capability {
    type V = (Seq<char>, Seq<char>);

    open spec fn view(&self) -> (Seq<char>, Seq<char>) {
        (self.name@, self.source@)
    }
}

pub open spec fn capability_views(list: Seq<V2Capability>) -> Seq<(Seq<char>, Seq<char>)> {
    list.map_values(|c: V2Capability| c@)
}

pub const ARITHMETIC_PROGRAM: &'static str = "\
    fn add(a: i64, b: i64) -> i64 {\n    a + b\n\
    }\n\n\
    fn main() {\n    println!(\"{}\", add(2, 3));\n\
    }\n";

pub const STRUCT_PROGRAM: &'static str = "\
    struct Point {\n    x: i64,\n    y: i64,\n\
    }\n\n\
    fn main() {\n    let p = Point { x: 1, y: 2 };\n    println!(\"{}\", p.x);\n\
    }\n";

pub const ENUM_PROGRAM: &'static str = "\
    enum Status {\n    Pending,\n    Approved,\n    Rejected(String),\n\
    }\n\n\
    fn describe(s: Status) -> Status {\n    match s {\n        Status::Pending => Status::Approved,\n        Status::Approved => Status::Approved,\n        Status::Rejected(reason) => Status::Rejected(reason),\n    }\n\
    }\n\n\
    fn main() {\n    let _s = describe(Status::Pending);\n    println!(\"described\");\n\
    }\n";

pub const VALIDATE_PROGRAM: &'static str = "\
    /// nirdosha:validate {\"fn\":\"charge_cents\",\"pre\":[\"amount_cents >= 0 && amount_cents <= balance_cents\"],\"post\":[\"result >= 0\"]}\n\
    fn charge_cents(amount_cents: i64, balance_cents: i64) -> i64 {\n    balance_cents - amount_cents\n\
    }\n\n\
    fn main() {\n    println!(\"{}\", charge_cents(10, 100));\n\
    }\n";

pub const WORKFLOW_PROGRAM: &'static str = "\
    /// nirdosha:workflow {\"name\":\"Approval\",\"data\":{\"struct\":\"ApprovalData\",\"fields\":{\"amount\":\"i64\"}},\"states\":{\"Pending\":{\"transitions\":{\"Approve\":\"Approved\",\"Reject\":\"Rejected\"}},\"Approved\":{\"terminal\":true},\"Rejected\":{\"terminal\":true}}}\n\
    struct ApprovalData {\n    amount: i64,\n\
    }\n\n\
    enum ApprovalEvent {\n    Approve,\n    Reject,\n\
    }\n\n\
    use std::collections::HashMap;\n\
    use std::sync::Mutex;\n\n\
    static STATES: Mutex<Option<HashMap<i64, String>>> = Mutex::new(None);\n\n\
    fn start_approval(data: ApprovalData) -> i64 {\n    let id = data.amount;\n    let mut guard = STATES.lock().unwrap();\n    guard.get_or_insert_with(HashMap::new).insert(id, \"Pending\".to_string());\n    id\n\
    }\n\n\
    fn advance_approval(id: i64, ev: ApprovalEvent) -> bool {\n    let mut guard = STATES.lock().unwrap();\n    let Some(map) = guard.as_mut() else { return false };\n    let Some(state) = map.get(&id) else { return false };\n    let next = match (state.as_str(), &ev) {\n        (\"Pending\", ApprovalEvent::Approve) => Some(\"Approved\"),\n        (\"Pending\", ApprovalEvent::Reject) => Some(\"Rejected\"),\n        _ => None,\n    };\n    match next {\n        Some(n) => {\n            map.insert(id, n.to_string());\n            true\n        }\n        None => false,\n    }\n\
    }\n\n\
    fn main() {\n    let id = start_approval(ApprovalData { amount: 250000 });\n    let ok = advance_approval(id, ApprovalEvent::Approve);\n    println!(\"advanced {ok}\");\n\
    }\n";

pub const TRANSACT_PROGRAM: &'static str = "\
    /// nirdosha:transact {\"verify\":\"check_amount\",\"compensate\":\"refund_amount\"}\n\
    fn charge(amount: i64) -> bool {\n    if check_amount(amount) {\n        commit_amount(amount);\n        true\n    } else {\n        refund_amount(amount);\n        false\n    }\n\
    }\n\n\
    fn check_amount(amount: i64) -> bool {\n    amount > 0\n\
    }\n\
    fn commit_amount(_amount: i64) {}\n\
    fn refund_amount(_amount: i64) {}\n\n\
    fn main() {\n    println!(\"{}\", charge(10));\n\
    }\n";

pub const SCREEN_PROGRAM: &'static str = "\
    /// nirdosha:screen {\"for\":\"PaymentRequest\",\"title\":\"Payments\",\"fields\":{\"amount_cents\":{\"label\":\"Amount\"}}}\n\
    struct PaymentRequest {\n    request_id: i64,\n    amount_cents: i64,\n    status: String,\n\
    }\n\n\
    fn list_payment_request() -> Vec<PaymentRequest> {\n    Vec::new()\n\
    }\n\n\
    fn stat_open_approval_count() -> i64 {\n    0\n\
    }\n\n\
    /// nirdosha:serve {\"routes\":[\"list_payment_request\",\"stat_open_approval_count\"]}\n\
    fn serve_ready() -> bool {\n    true\n\
    }\n\n\
    fn main() {\n    println!(\"ready\");\n\
    }\n";

pub const JSON_PROGRAM: &'static str = "\
    fn main() {\n    let doc: serde_json::Value = serde_json::json!({\"user\": \"ravi\"});\n    println!(\"{}\", doc[\"user\"]);\n\
    }\n";

pub const IDENTITY_PROGRAM: &'static str = "\
    nirdosha_rt::roles! {\n    FinanceDirector = \"finance_director\";\n\
    }\n\n\
    #[nirdosha_rt::contract(requires(role = \"finance_director\"))]\n\
    fn try_approve(amount: i64) -> bool {\n    amount > 0\n\
    }\n\n\
    fn main() {\n    let auth = nirdosha_rt::Auth::login(\"meera\", &[\"finance_director\"]);\n    let ok = match auth.prove::<nirdosha_roles::FinanceDirector>() {\n        Ok(proof) => try_approve(&proof, 1),\n        Err(_) => false,\n    };\n    println!(\"approved {ok}\");\n\
    }\n";

/// Every construct with the program that demonstrates it.
pub open spec fn constructs() -> Seq<(Seq<char>, Seq<char>)> {
    seq![
        ("fn + arithmetic"@, ARITHMETIC_PROGRAM@),
        ("struct + field access"@, STRUCT_PROGRAM@),
        ("enum + match"@, ENUM_PROGRAM@),
        ("validate (Hoare) contract"@, VALIDATE_PROGRAM@),
        ("workflow (state machine)"@, WORKFLOW_PROGRAM@),
        ("transact (verify/compensate claim)"@, TRANSACT_PROGRAM@),
        ("screen + serve"@, SCREEN_PROGRAM@),
        ("json (serde_json)"@, JSON_PROGRAM@),
        ("identity + acquire (RoleProof)"@, IDENTITY_PROGRAM@),
    ]
}

/// Every construct with the program that demonstrates it.
pub fn v2_capabilities() -> (out: Vec<V2Capability>)
    ensures
        capability_views(out@) == constructs(),
{
    let mut out: Vec<V2Capability> = Vec::new();
    out.push(V2Capability { name: "fn + arithmetic", source: ARITHMETIC_PROGRAM });
    out.push(V2Capability { name: "struct + field access", source: STRUCT_PROGRAM });
    out.push(V2Capability { name: "enum + match", source: ENUM_PROGRAM });
    out.push(V2Capability { name: "validate (Hoare) contract", source: VALIDATE_PROGRAM });
    out.push(V2Capability { name: "workflow (state machine)", source: WORKFLOW_PROGRAM });
    out.push(V2Capability { name: "transact (verify/compensate claim)", source: TRANSACT_PROGRAM });
    out.push(V2Capability { name: "screen + serve", source: SCREEN_PROGRAM });
    out.push(V2Capability { name: "json (serde_json)", source: JSON_PROGRAM });
    out.push(V2Capability { name: "identity + acquire (RoleProof)", source: IDENTITY_PROGRAM });
    assert(capability_views(out@) =~= constructs());
    out
}

/// Whether a construct holds up, and what is wrong with its program if not.
pub struct V2CapabilityResult {
    pub name: &'static str,
    pub passed: bool,
    pub diagnostic: Option<String>,
    pub source: &'static str,
}

#[verifier::ext_equal]
pub struct ResultView {
    pub name: Seq<char>,
    pub passed: bool,
    pub diagnostic: Option<Seq<char>>,
    pub source: Seq<char>,
}

impl View for V2CapabilityResult {
    type V = ResultView;

    open spec fn view(&self) -> ResultView {
        ResultView {
            name: self.name@,
            passed: self.passed,
            diagnostic: opt_text(self.diagnostic),
            source: self.source@,
        }
    }
}

pub open spec fn result_views(list: Seq<V2CapabilityResult>) -> Seq<ResultView> {
    list.map_values(|r: V2CapabilityResult| r@)
}

pub open spec fn checks(checked: Seq<Result<V2Verdict, String>>) -> Seq<
    Result<VerdictView, Seq<char>>,
> {
    checked.map_values(|c: Result<V2Verdict, String>| checked_view(c))
}

/// How the first `n` constructs hold up.
pub open spec fn results(checked: Seq<Result<VerdictView, Seq<char>>>, n: nat) -> Seq<ResultView>
    decreases n,
{
    if n == 0 {
        Seq::empty()
    } else {
        let (name, source) = constructs()[n - 1];
        let fault = construct_fault(name, checked[n - 1]);
        results(checked, (n - 1) as nat).push(
            ResultView { name, passed: fault is None, diagnostic: fault, source },
        )
    }
}

/// How the constructs hold up. `checked` are the checks of their programs, in
/// order.
pub fn run_v2_capability_checks(checked: &Vec<Result<V2Verdict, String>>) -> (out: Vec<
    V2CapabilityResult,
>)
    requires
        checked@.len() == constructs().len(),
    ensures
        result_views(out@) == results(checks(checked@), constructs().len()),
{
    let caps: Vec<V2Capability> = v2_capabilities();
    let ghost verdicts = checks(checked@);
    let mut out: Vec<V2CapabilityResult> = Vec::new();
    let mut i: usize = 0;
    assert(capability_views(caps@).len() == caps@.len());
    assert(result_views(out@) =~= results(verdicts, 0));
    while i < caps.len()
        invariant
            i <= caps@.len(),
            caps@.len() == constructs().len(),
            checked@.len() == constructs().len(),
            capability_views(caps@) == constructs(),
            verdicts == checks(checked@),
            result_views(out@) == results(verdicts, i as nat),
        decreases caps@.len() - i,
    {
        assert(constructs()[i as int] == caps@[i as int]@);
        assert(verdicts[i as int] == checked_view(checked@[i as int]));
        let (passed, diagnostic) = verdict_diagnostic(caps[i].name, &checked[i]);
        let made: V2CapabilityResult = V2CapabilityResult {
            name: caps[i].name,
            passed,
            diagnostic,
            source: caps[i].source,
        };
        assert(result_views(out@.push(made)) =~= result_views(out@).push(made@));
        out.push(made);
        i += 1;
    }
    out
}

/// Every construct has its result, in order: it passes exactly where its program
/// builds and violates none of its claims.
pub proof fn law_results_of_constructs(checked: Seq<Result<VerdictView, Seq<char>>>, n: nat, i: int)
    requires
        n <= constructs().len(),
        0 <= i < n,
    ensures
        results(checked, n).len() == n,
        results(checked, n)[i].name == constructs()[i].0,
        results(checked, n)[i].source == constructs()[i].1,
        results(checked, n)[i].passed <==> checked[i] is Ok && checked[i]->Ok_0.builds
            && checked[i]->Ok_0.violations.len() == 0,
        results(checked, n)[i].passed <==> results(checked, n)[i].diagnostic is None,
        checked[i] matches Err(e) ==> results(checked, n)[i].diagnostic == Some(
            constructs()[i].0 + ": "@ + e,
        ),
    decreases n,
{
    assert(results(checked, 0).len() == 0);
    if n > 1 {
        law_results_of_constructs(
            checked,
            (n - 1) as nat,
            if i < n - 1 {
                i
            } else {
                0
            },
        );
    }
}

/// The constructs are told by these names, each with the program of its own.
pub proof fn law_which_constructs_there_are()
    ensures
        constructs().len() == 9,
        constructs()[0] == ("fn + arithmetic"@, ARITHMETIC_PROGRAM@),
        constructs()[1] == ("struct + field access"@, STRUCT_PROGRAM@),
        constructs()[2] == ("enum + match"@, ENUM_PROGRAM@),
        constructs()[3] == ("validate (Hoare) contract"@, VALIDATE_PROGRAM@),
        constructs()[4] == ("workflow (state machine)"@, WORKFLOW_PROGRAM@),
        constructs()[5] == ("transact (verify/compensate claim)"@, TRANSACT_PROGRAM@),
        constructs()[6] == ("screen + serve"@, SCREEN_PROGRAM@),
        constructs()[7] == ("json (serde_json)"@, JSON_PROGRAM@),
        constructs()[8] == ("identity + acquire (RoleProof)"@, IDENTITY_PROGRAM@),
{
}

} // verus!
