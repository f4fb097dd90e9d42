//! What a model is told to do about a diagnostic.
use crate::text::{contains, contains_text};
use vstd::prelude::*;

verus! {

pub const SHARED_TABLE: &'static str = " `SharedTable<K,V>` exposes `snapshot()`, not HashMap's `iter()` or `values()`. Replace \
    `store().iter()` with `store().snapshot().iter()` inside a single expression, or use \
    `.snapshot().into_iter()` for owned `(key, value)` pairs. Replace \
    `store().values().cloned()` with `store().snapshot().into_iter().map(|(_, value)| \
    value)`. Preserve the screens and `router.serve(...)`.";

pub const ENGINE_LIMIT: &'static str = " This is an engine limit, not a code bug: the demanded contract is too hard for the \
    solver's deterministic fuel. Simplify the arithmetic into provable form -- linearize \
    the fee (bound it with `pre:` instead of a nested min/max), split a tiered rule into \
    one provable branch per tier -- while keeping the contract's MEANING; never loosen it \
    to pass. If it cannot be simplified, the run will escalate to the operator rather than \
    charge you for it.";

pub const VACUOUS: &'static str = " The demanded contract's `pre:` can never be true for any input the parameter types \
    admit -- an impossible range is almost always a typo. Fix the precondition to the fn's \
    real domain, or fix the code if the domain was genuinely meant to be that narrow.";

pub const SYNTAX: &'static str = " This is a syntax error, not a contract problem: the coverage gate could not even \
    lex/parse the draft, so no demanded contract could be checked at all. Fix the syntax \
    first -- the diagnostic and any attached source line above show what to look at -- then \
    the coverage gate will re-run against the corrected, parseable source.";

pub const DROPPED_FN: &'static str = " The unit's own fn declaration is missing from this draft entirely -- it was dropped, \
    not just its contract. Re-declare the fn itself first (name, parameters, return type, \
    and a real body implementing its driving text), THEN add the demanded `validate <fn> { \
    pre: ... post: ... }` block alongside it; a `validate` block naming a fn that doesn't \
    exist cannot be checked at all.";

pub const MISSING_CONTRACT: &'static str = " Write the missing contract as a separate top-level block: `validate <fn> { pre: <param \
    assumptions> post: <result property> }` -- integer params/result only, linear \
    arithmetic (`+`, `-`, comparisons), no loops or calls in the predicate. It must PROVE \
    under Z3, not merely parse.";

pub const PROVABLE_SUBSET: &'static str = " Rewrite the demanded contract in the provable subset: integer-only parameters and \
    return, linear arithmetic, no loops, no function calls, no floats -- the strongest true \
    contract that subset can state. A demanded contract is mandatory, so `UNSUPPORTED` from \
    the walker is a rewrite instruction, not a pass.";

pub const SCREEN_WITHOUT_FN: &'static str = " Every `screen <Struct> { ... }` block needs at least one real fn the manifest builder \
    can find: name it \
    `get_<snake(Struct)>`/`list_<snake(Struct)>`/`create_<snake(Struct)>`/`update_<snake(Struct)>`/`delete_<snake(Struct)>` \
    (snake_case of the struct name), or add an override inside the block itself (`screen \
    Struct { get: my_getter_fn }`) naming a fn that actually exists. A getter must return \
    the screen struct itself built from real data -- never a stub literal that ignores the \
    unit's own driving text.";

pub const DROPPED_SCREEN: &'static str = " This confirmed screen unit was dropped entirely -- re-declare both the backing `struct \
    <Name> { ... }` (fields drawn from its driving text/relationships) AND the `screen \
    <Name> { ... }` block, plus a `get_<snake>`/`list_<snake>` fn that builds and returns \
    real data for it.";

pub const UNCALLED_PRIMITIVE: &'static str = " The installed pack marks this fn a mandatory certified primitive: the model must WIRE \
    the ledger by calling it, not re-derive the same arithmetic by hand. Add a real call \
    site to the named fn instead of writing your own version of what it does.";

pub const UNGUARDED_PRIMITIVE: &'static str = " Guard the call site so the primitive's own precondition is provably established first \
    (e.g. `if amount > 0 { transfer(...) }` when `transfer` requires `amount > 0`) -- an \
    unconditional call whose arguments the precondition can't be proven to satisfy is a \
    real gate failure, not a style note.";

pub const PROTECTED_TYPE: &'static str = " Delete the direct construction and call the certified primitive instead -- a \
    pack-protected struct may only be constructed inside one of the pack's own certified \
    primitive fns, never re-derived by hand elsewhere in the draft, even when the \
    arithmetic looks identical to what the primitive already does.";

pub const BROKEN_CONTRACT: &'static str = " The fn genuinely breaks the demanded contract at the counterexample input shown -- fix \
    the code, or fix the contract if it misstates the unit's demand; never loosen a \
    predicate just to make it pass.";

pub const MISSING_MAIN: &'static str = " Add a `fn main()` -- it is required in addition to every named component from the \
    original request, not instead of any of them.";

pub const BUILTIN_NAME: &'static str = " Delete the custom `fn check_role(...)` / `fn acquire(...)` / any function whose name \
    matches a builtin. Identity and role handling are runtime builtins: the only identity \
    type is `VerifiedIdentity`; roles are plain strings like \"finance_director\"; call \
    `check_role(identity, \"role\")` and unwrap its `Result(RoleView, str)`, then pass the \
    `RoleView` to `acquire fn_name(proof)` to get a callable. Never invent a `User` or \
    `UserRole` type.";

pub const IDENTITY_TYPE: &'static str = " The identity type is `VerifiedIdentity`, not a `User` struct or `UserRole` enum you \
    invent. Roles are plain strings (\"requester\", \"finance_director\", \"admin\"). Pass \
    a `VerifiedIdentity` value (built with `VerifiedIdentity(subject, issuer, audience, \
    iat, exp, roles_csv)`) to every role-gated fn.";

pub const TRANSACTION_ID: &'static str = " In a `transact` block, `txn_id` is an implicit binding provided by the desugaring. \
    Every function used in `network:`, `verify:`, `commit:`, `compensate:`, or `log:` must \
    accept `txn_id: str` as one of its parameters and actually use it in the call: \
    `network: call_processor(txn_id, amount)`, `commit: commit_payment(txn_id, network)`, \
    etc. The block itself does not declare `txn_id`.";

pub const COMMIT_STEP: &'static str = " Inside a `transact` block, `commit` is a step NAME, not a variable you can read \
    directly. If you need the commit result in a later step (like `log:`), the step itself \
    must return the value and the later step must call a function that receives it -- or \
    use `verify` as the boolean guard and keep the committed amount as the step's return \
    value.";

pub const VECTOR_ELEMENT: &'static str = " `Vector(T, N)` and `Matrix(T, R, C)` only support scalar element types (i64, f64, \
    etc.) in the compiled backend. A variable-length list of structs, enums, or other \
    aggregates must be `json`: build it with `json_set_str`/`json_set_i64` or return it \
    from `db_query`, then walk it with `json_array_len` + `json_array_get`. Never use \
    `Vector(StructName, N)` for a resizable queue.";

pub const RETURN_EXPRESSION: &'static str = " `return` is a statement, never an expression: it cannot appear inside a `match` arm \
    (`Ok(x) => return ...`), on the right of `=`, or inside a call's arguments. \
    Restructure: every arm yields a value, bind the whole match (`let ok: bool = match ... \
    { ... }`), then `return ok` (or print it) after the match ends.";

pub const ENUM_ARMS: &'static str = " Enum matches: every arm names a bare VARIANT of the enum (`Pending => ...`, `Approved \
    => ...`) -- never a string/number literal, never `_`. The `doesn't cover` errors list \
    the exact variants missing: give each of them its own arm. If you meant to match string \
    values, the SCRUTINEE is the bug, not the arms: the field/variable is enum-typed \
    (`RequestStatus`), so either the arms must become variant names or the field's declared \
    type must change -- you cannot string-match an enum.";

pub const TYPE_NAME: &'static str = " A type name (`unit`, `json`, `i64`, `db`, ...) can never appear where an expression is \
    expected. `unit` has no literal at all: a `-> unit` function simply ends after its last \
    statement, and an early exit returns a unit-typed CALL, e.g. `return print(\"done\")`. \
    To get a `json`/`db` value, call the builtin that produces one (`json_parse(...)`, \
    `db_connect(...)`), never write the type name.";

pub const TUPLE_TYPE: &'static str = " There are no tuple types, including nested inside `Result`/`Option`: `Result((i64, \
    str), E)` is a parse error exactly like a bare `(i64, str)`. To return more than one \
    value, declare a `struct` to carry the fields, or return `json`. If the diagnostic \
    names a reserved word instead, it was used as a type -- types are only the names in the \
    Types table.";

pub const PRINT_AGGREGATE: &'static str = " `print` takes scalars only: `i64`/`f64`/`str`/`bool`/`unit`, any number of them -- \
    never `json`, `Vector`/`Matrix`, `struct`, `enum`, or `Result` (and no stringify \
    builtin exists). To display an aggregate, extract scalars first: `json_get_str(j, \
    \"field\")` / `json_get_i64`, and for arrays `json_array_len(rows)` + \
    `json_array_get(rows, i)` inside a `while` loop -- every json accessor returns a \
    `Result`, always `match` it. A `struct` prints field by field; an `enum` matches to its \
    variants; a `Result` is matched before anything inside it is shown.";

pub const SEMICOLON: &'static str = " Nirdosha has no statement separators at all: delete the `;` and put each statement on \
    its own line.";

pub const QUESTION_MARK: &'static str = " Nirdosha has no `?` try-operator and no implicit error propagation at all: delete it \
    and `match` the `Result` explicitly -- `match check_role(identity, \"FinanceDirector\") \
    { Ok(proof_fd) => { ... } Err(e) => { ... } }` -- every `Result`-returning call must be \
    matched at the call site.";

pub const WORKFLOW_DATA: &'static str = " The compiled backend rejects a workflow's `data { ... }` block unless it is EMPTY: \
    write `data {}` and keep anything instances must remember in your own struct keyed by \
    `instance_id`. `on_entry` actions may only use `instance_id` and fn calls.";

pub const RESERVED_WORD: &'static str = " Rename that identifier: a reserved keyword can never be a variable, field, parameter, \
    or function name in Nirdosha (there is no quoting/escaping mechanism), so pick a \
    different word -- `state` -> `app_state`, `open` -> `open_order`, and so on.";

/// The advice on a diagnostic: that of the first class it belongs to. A
/// diagnostic of no known class gets none.
pub open spec fn hint_for(d: Seq<char>) -> Seq<char> {
    if contains_text(d, "SharedTable"@)
        && (contains_text(d, "no method named `iter`"@)
            || contains_text(d, "no method named `values`"@)) {
        SHARED_TABLE@
    } else if contains_text(d, "contract coverage failure"@) {
        if contains_text(d, "engine limit"@) {
            ENGINE_LIMIT@
        } else if contains_text(d, "vacuously"@) {
            VACUOUS@
        } else if contains_text(d, "no longer lexes"@) || contains_text(d, "no longer parses"@) {
            SYNTAX@
        } else if contains_text(d, "at all -- the unit itself was dropped"@) {
            DROPPED_FN@
        } else if contains_text(d, "carries none"@) {
            MISSING_CONTRACT@
        } else if contains_text(d, "provable subset"@) {
            PROVABLE_SUBSET@
        } else if contains_text(d, "manifest builder treats a screen with no backing fn"@) {
            SCREEN_WITHOUT_FN@
        } else if contains_text(d, "is entirely absent from the draft"@)
            && contains_text(d, "neither its struct nor a `screen"@) {
            DROPPED_SCREEN@
        } else if contains_text(d, "never calls it anywhere"@) {
            UNCALLED_PRIMITIVE@
        } else if contains_text(d, "may violate a mandatory certified primitive's own precondition"@) {
            UNGUARDED_PRIMITIVE@
        } else if contains_text(d, "is a pack-protected type"@) {
            PROTECTED_TYPE@
        } else {
            BROKEN_CONTRACT@
        }
    } else if contains_text(d, "no `fn main()` found"@) {
        MISSING_MAIN@
    } else if contains_text(d, "is a builtin name and cannot be used as a function name"@) {
        BUILTIN_NAME@
    } else if contains_text(d, "expected `VerifiedIdentity`, found `User`"@)
        || contains_text(d, "expected `VerifiedIdentity`, found `UserRole`"@) {
        IDENTITY_TYPE@
    } else if contains_text(d, "`transact`'s `network` slot must pass the implicit `txn_id`"@)
        || contains_text(d, "unknown variable `txn_id`"@) {
        TRANSACTION_ID@
    } else if contains_text(d, "unknown variable `commit`"@) && contains_text(d, "transact"@) {
        COMMIT_STEP@
    } else if contains_text(d, "non-scalar element type"@) && contains_text(d, "Vector"@) {
        VECTOR_ELEMENT@
    } else if contains_text(d, "expected an expression, found the reserved keyword `return`"@) {
        RETURN_EXPRESSION@
    } else if contains_text(d, "arms must name a variant"@)
        || contains_text(d, "doesn't cover"@) {
        ENUM_ARMS@
    } else if contains_text(d, "found the reserved type name"@) {
        TYPE_NAME@
    } else if contains_text(d, "expected a type, found"@) {
        TUPLE_TYPE@
    } else if contains_text(d, "doesn't support `print` on"@) {
        PRINT_AGGREGATE@
    } else if contains_text(d, "unexpected character `;`"@) {
        SEMICOLON@
    } else if contains_text(d, "unexpected character `?`"@) {
        QUESTION_MARK@
    } else if contains_text(d, "codegen doesn't support `workflow"@) {
        WORKFLOW_DATA@
    } else if contains_text(d, "found the reserved keyword"@) {
        RESERVED_WORD@
    } else {
        ""@
    }
}

/// The advice on a diagnostic, empty where there is none.
pub fn self_repair_hint(diagnostic: &str) -> (out: &'static str)
    ensures
        out@ == hint_for(diagnostic@),
{
    if contains(diagnostic, "SharedTable")
        && (contains(diagnostic, "no method named `iter`")
            || contains(diagnostic, "no method named `values`")) {
        SHARED_TABLE
    } else if contains(diagnostic, "contract coverage failure") {
        if contains(diagnostic, "engine limit") {
            ENGINE_LIMIT
        } else if contains(diagnostic, "vacuously") {
            VACUOUS
        } else if contains(diagnostic, "no longer lexes")
            || contains(diagnostic, "no longer parses") {
            SYNTAX
        } else if contains(diagnostic, "at all -- the unit itself was dropped") {
            DROPPED_FN
        } else if contains(diagnostic, "carries none") {
            MISSING_CONTRACT
        } else if contains(diagnostic, "provable subset") {
            PROVABLE_SUBSET
        } else if contains(diagnostic, "manifest builder treats a screen with no backing fn") {
            SCREEN_WITHOUT_FN
        } else if contains(diagnostic, "is entirely absent from the draft")
            && contains(diagnostic, "neither its struct nor a `screen") {
            DROPPED_SCREEN
        } else if contains(diagnostic, "never calls it anywhere") {
            UNCALLED_PRIMITIVE
        } else if contains(diagnostic, "may violate a mandatory certified primitive's own precondition") {
            UNGUARDED_PRIMITIVE
        } else if contains(diagnostic, "is a pack-protected type") {
            PROTECTED_TYPE
        } else {
            BROKEN_CONTRACT
        }
    } else if contains(diagnostic, "no `fn main()` found") {
        MISSING_MAIN
    } else if contains(diagnostic, "is a builtin name and cannot be used as a function name") {
        BUILTIN_NAME
    } else if contains(diagnostic, "expected `VerifiedIdentity`, found `User`")
        || contains(diagnostic, "expected `VerifiedIdentity`, found `UserRole`") {
        IDENTITY_TYPE
    } else if contains(diagnostic, "`transact`'s `network` slot must pass the implicit `txn_id`")
        || contains(diagnostic, "unknown variable `txn_id`") {
        TRANSACTION_ID
    } else if contains(diagnostic, "unknown variable `commit`")
        && contains(diagnostic, "transact") {
        COMMIT_STEP
    } else if contains(diagnostic, "non-scalar element type") && contains(diagnostic, "Vector") {
        VECTOR_ELEMENT
    } else if contains(diagnostic, "expected an expression, found the reserved keyword `return`") {
        RETURN_EXPRESSION
    } else if contains(diagnostic, "arms must name a variant")
        || contains(diagnostic, "doesn't cover") {
        ENUM_ARMS
    } else if contains(diagnostic, "found the reserved type name") {
        TYPE_NAME
    } else if contains(diagnostic, "expected a type, found") {
        TUPLE_TYPE
    } else if contains(diagnostic, "doesn't support `print` on") {
        PRINT_AGGREGATE
    } else if contains(diagnostic, "unexpected character `;`") {
        SEMICOLON
    } else if contains(diagnostic, "unexpected character `?`") {
        QUESTION_MARK
    } else if contains(diagnostic, "codegen doesn't support `workflow") {
        WORKFLOW_DATA
    } else if contains(diagnostic, "found the reserved keyword") {
        RESERVED_WORD
    } else {
        ""
    }
}

/// A proof that ran out of fuel is never answered with "fix your code", whatever
/// else the diagnostic of a coverage failure says.
pub proof fn law_an_engine_limit_is_no_code_fault(d: Seq<char>)
    requires
        contains_text(d, "contract coverage failure"@),
        contains_text(d, "engine limit"@),
        !contains_text(d, "SharedTable"@),
    ensures
        hint_for(d) == ENGINE_LIMIT@,
{
}

/// A shared table that is read as if it were a map is told of first, whatever
/// else a diagnostic says.
pub proof fn law_a_shared_table_is_told_of_first(d: Seq<char>)
    requires
        contains_text(d, "SharedTable"@) && (contains_text(d, "no method named `iter`"@) || contains_text(d, "no method named `values`"@)),
    ensures
        hint_for(d) == SHARED_TABLE@,
{
}

/// The classes of a coverage failure, each with whether a diagnostic belongs to
/// it and with the advice on it.
pub open spec fn coverage_classes(d: Seq<char>) -> Seq<(bool, Seq<char>)> {
    seq![
        (contains_text(d, "engine limit"@), ENGINE_LIMIT@),
        (contains_text(d, "vacuously"@), VACUOUS@),
        (contains_text(d, "no longer lexes"@) || contains_text(d, "no longer parses"@), SYNTAX@),
        (contains_text(d, "at all -- the unit itself was dropped"@), DROPPED_FN@),
        (contains_text(d, "carries none"@), MISSING_CONTRACT@),
        (contains_text(d, "provable subset"@), PROVABLE_SUBSET@),
        (contains_text(d, "manifest builder treats a screen with no backing fn"@), SCREEN_WITHOUT_FN@),
        (contains_text(d, "is entirely absent from the draft"@) && contains_text(d, "neither its struct nor a `screen"@), DROPPED_SCREEN@),
        (contains_text(d, "never calls it anywhere"@), UNCALLED_PRIMITIVE@),
        (contains_text(d, "may violate a mandatory certified primitive's own precondition"@), UNGUARDED_PRIMITIVE@),
        (contains_text(d, "is a pack-protected type"@), PROTECTED_TYPE@),
        (true, BROKEN_CONTRACT@),
    ]
}

/// The advice on a coverage failure is that of the first of these classes that it
/// belongs to, and a contract that does not hold where it belongs to none.
#[verifier::rlimit(100)]
pub proof fn law_advice_on_a_coverage_failure(d: Seq<char>, k: int)
    requires
        !(contains_text(d, "SharedTable"@) && (contains_text(d, "no method named `iter`"@) || contains_text(d, "no method named `values`"@))),
        contains_text(d, "contract coverage failure"@),
        0 <= k < coverage_classes(d).len(),
        coverage_classes(d)[k].0,
        forall|i: int| 0 <= i < k ==> !(#[trigger] coverage_classes(d)[i]).0,
    ensures
        hint_for(d) == coverage_classes(d)[k].1,
{
    let classes = coverage_classes(d);
    assert(k > 0 ==> !classes[0].0);
    assert(k > 1 ==> !classes[1].0);
    assert(k > 2 ==> !classes[2].0);
    assert(k > 3 ==> !classes[3].0);
    assert(k > 4 ==> !classes[4].0);
    assert(k > 5 ==> !classes[5].0);
    assert(k > 6 ==> !classes[6].0);
    assert(k > 7 ==> !classes[7].0);
    assert(k > 8 ==> !classes[8].0);
    assert(k > 9 ==> !classes[9].0);
    assert(k > 10 ==> !classes[10].0);
}

/// The classes of the other diagnostics, each with whether a diagnostic belongs
/// to it and with the advice on it.
pub open spec fn other_classes(d: Seq<char>) -> Seq<(bool, Seq<char>)> {
    seq![
        (contains_text(d, "no `fn main()` found"@), MISSING_MAIN@),
        (contains_text(d, "is a builtin name and cannot be used as a function name"@), BUILTIN_NAME@),
        (contains_text(d, "expected `VerifiedIdentity`, found `User`"@) || contains_text(d, "expected `VerifiedIdentity`, found `UserRole`"@), IDENTITY_TYPE@),
        (contains_text(d, "`transact`'s `network` slot must pass the implicit `txn_id`"@) || contains_text(d, "unknown variable `txn_id`"@), TRANSACTION_ID@),
        (contains_text(d, "unknown variable `commit`"@) && contains_text(d, "transact"@), COMMIT_STEP@),
        (contains_text(d, "non-scalar element type"@) && contains_text(d, "Vector"@), VECTOR_ELEMENT@),
        (contains_text(d, "expected an expression, found the reserved keyword `return`"@), RETURN_EXPRESSION@),
        (contains_text(d, "arms must name a variant"@) || contains_text(d, "doesn't cover"@), ENUM_ARMS@),
        (contains_text(d, "found the reserved type name"@), TYPE_NAME@),
        (contains_text(d, "expected a type, found"@), TUPLE_TYPE@),
        (contains_text(d, "doesn't support `print` on"@), PRINT_AGGREGATE@),
        (contains_text(d, "unexpected character `;`"@), SEMICOLON@),
        (contains_text(d, "unexpected character `?`"@), QUESTION_MARK@),
        (contains_text(d, "codegen doesn't support `workflow"@), WORKFLOW_DATA@),
        (contains_text(d, "found the reserved keyword"@), RESERVED_WORD@),
        (true, ""@),
    ]
}

/// The advice on a diagnostic that is no coverage failure is that of the first of
/// these classes that it belongs to, and none where it belongs to none.
#[verifier::rlimit(100)]
pub proof fn law_advice_on_other_diagnostics(d: Seq<char>, k: int)
    requires
        !(contains_text(d, "SharedTable"@) && (contains_text(d, "no method named `iter`"@) || contains_text(d, "no method named `values`"@))),
        !contains_text(d, "contract coverage failure"@),
        0 <= k < other_classes(d).len(),
        other_classes(d)[k].0,
        forall|i: int| 0 <= i < k ==> !(#[trigger] other_classes(d)[i]).0,
    ensures
        hint_for(d) == other_classes(d)[k].1,
{
    let classes = other_classes(d);
    assert(k > 0 ==> !classes[0].0);
    assert(k > 1 ==> !classes[1].0);
    assert(k > 2 ==> !classes[2].0);
    assert(k > 3 ==> !classes[3].0);
    assert(k > 4 ==> !classes[4].0);
    assert(k > 5 ==> !classes[5].0);
    assert(k > 6 ==> !classes[6].0);
    assert(k > 7 ==> !classes[7].0);
    assert(k > 8 ==> !classes[8].0);
    assert(k > 9 ==> !classes[9].0);
    assert(k > 10 ==> !classes[10].0);
    assert(k > 11 ==> !classes[11].0);
    assert(k > 12 ==> !classes[12].0);
    assert(k > 13 ==> !classes[13].0);
    assert(k > 14 ==> !classes[14].0);
}

} // verus!
