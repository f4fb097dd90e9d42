//! Whether a generated program covers what was asked for.
use super::diagnostics::{error_json, machine_error};
use crate::graph::{unit_views, CandidateUnit, UnitView};
use crate::lists::{lemma_kept_next, push_has};
use crate::order::{law_sorted_texts, lemma_text_before_irreflexive, sort_texts, sorted_texts};
use crate::outside::{json_document, parse_rust, rust_items};
use crate::text::{
    copy_texts, ends_with, has_text, join, join_texts, same_text, starts_with, text_before, texts,
    texts_push,
};
use crate::v2::bodies::{
    body_at, body_views, find_last_main, last_main, law_last_main, law_who_serves, served,
    served_numbers, BodyFacts, BodyView, MethodView,
};
use crate::v2::source::{
    fn_names, function_names, item_views, law_listed_functions_are_declared, law_mounted_screens,
    screen_name, screens_of, ItemView, RustItem, TokenView,
};
use vstd::prelude::*;

verus! {

/// Why a generated program does not cover what was asked for.
#[derive(Clone, Copy, Debug, PartialEq, Eq, Structural)]
pub enum CoverageFailureClass {
    /// A demanded contract, or the fn that should carry it, is absent.
    ContractDropped,
    /// A demanded contract is there but broken.
    ContractViolated,
    /// A demanded contract holds for want of inputs.
    VacuousContract,
    /// The proof ran out of fuel, which is nobody's fault.
    EngineLimit,
    /// A demanded contract is of a shape that cannot be decided.
    ContractUnprovable,
}

/// One failure, and what to say about it.
#[derive(Debug)]
pub struct CoverageFailure {
    pub class: CoverageFailureClass,
    pub diagnostic: String,
}

#[verifier::ext_equal]
pub struct FailureView {
    pub class: CoverageFailureClass,
    pub diagnostic: Seq<char>,
}

impl View for CoverageFailure {
    type V = FailureView;

    open spec fn view(&self) -> FailureView {
        FailureView { class: self.class, diagnostic: self.diagnostic@ }
    }
}

/// What a function of a program, or another place in it that computes, does: the
/// functions and methods that it calls and the structs that it writes out.
pub struct FnFacts {
    pub name: String,
    pub calls: Vec<String>,
    pub constructs: Vec<String>,
}

#[verifier::ext_equal]
pub struct FnView {
    pub name: Seq<char>,
    pub calls: Seq<Seq<char>>,
    pub constructs: Seq<Seq<char>>,
}

impl View for FnFacts {
    type V = FnView;

    open spec fn view(&self) -> FnView {
        FnView {
            name: self.name@,
            calls: texts(self.calls@),
            constructs: texts(self.constructs@),
        }
    }
}

pub open spec fn fn_views(fns: Seq<FnFacts>) -> Seq<FnView> {
    fns.map_values(|f: FnFacts| f@)
}

/// A program as it was read, or why it could not be.
pub type ReadFns = Result<Vec<FnFacts>, String>;

pub open spec fn method_names(methods: Seq<MethodView>) -> Seq<Seq<char>> {
    methods.map_values(|m: MethodView| m.method)
}

/// What the first `n` of some functions do.
pub open spec fn facts_of(names: Seq<Seq<char>>, bodies: Seq<BodyView>, n: nat) -> Seq<FnView>
    decreases n,
{
    if n == 0 {
        Seq::empty()
    } else {
        let body = body_at(bodies, (n - 1) as nat);
        facts_of(names, bodies, (n - 1) as nat).push(
            FnView {
                name: names[n - 1],
                calls: body.calls + method_names(body.methods),
                constructs: body.constructs,
            },
        )
    }
}

/// What a source text does, or why it cannot be read: its functions first, then
/// what stands elsewhere in it.
pub open spec fn functions_in(
    source: Seq<char>,
    bodies: Seq<BodyView>,
    elsewhere: Seq<FnView>,
) -> Result<Seq<FnView>, Seq<char>> {
    match rust_items(source) {
        Ok(items) => {
            let names = fn_names(items, items.len());
            Ok(facts_of(names, bodies, names.len()) + elsewhere)
        },
        Err(e) => Err(e),
    }
}

fn join_facts(name: &str, bodies: &Vec<BodyFacts>, i: usize) -> (out: FnFacts)
    ensures
        out@ == (FnView {
            name: name@,
            calls: body_at(body_views(bodies@), i as nat).calls + method_names(
                body_at(body_views(bodies@), i as nat).methods,
            ),
            constructs: body_at(body_views(bodies@), i as nat).constructs,
        }),
{
    broadcast use texts_push;

    assert(body_views(bodies@).len() == bodies@.len());
    if i >= bodies.len() {
        let out = FnFacts { name: name.to_owned(), calls: Vec::new(), constructs: Vec::new() };
        assert(out@.calls =~= Seq::<Seq<char>>::empty() + method_names(Seq::empty()));
        assert(out@.constructs =~= Seq::<Seq<char>>::empty());
        return out;
    }
    let body: &BodyFacts = &bodies[i];
    assert(body_views(bodies@)[i as int] == body@);
    let mut calls: Vec<String> = copy_texts(&body.calls);
    let ghost start = texts(body.calls@);
    let ghost methods = method_names(body@.methods);
    let mut k: usize = 0;
    assert(start + methods.take(0) =~= start);
    while k < body.methods.len()
        invariant
            k <= body.methods@.len(),
            methods == method_names(body@.methods),
            methods.len() == body.methods@.len(),
            texts(calls@) == start + methods.take(k as int),
        decreases body.methods@.len() - k,
    {
        assert(methods[k as int] == body.methods@[k as int].method@);
        calls.push(body.methods[k].method.clone());
        assert(methods.take(k as int + 1) =~= methods.take(k as int).push(methods[k as int]));
        assert((start + methods.take(k as int)).push(methods[k as int]) =~= start + methods.take(
            k as int + 1,
        ));
        k += 1;
    }
    assert(methods.take(k as int) =~= methods);
    FnFacts { name: name.to_owned(), calls, constructs: copy_texts(&body.constructs) }
}

fn copy_facts(f: &FnFacts) -> (out: FnFacts)
    ensures
        out@ == f@,
{
    FnFacts {
        name: f.name.clone(),
        calls: copy_texts(&f.calls),
        constructs: copy_texts(&f.constructs),
    }
}

/// What a source text does. `bodies` tells what each of its functions does, in
/// order, and `elsewhere` what the rest of it does: methods, modules, constants.
pub fn read_functions(source: &str, bodies: &Vec<BodyFacts>, elsewhere: &Vec<FnFacts>) -> (out:
    ReadFns)
    ensures
        read_fns(out) == functions_in(source@, body_views(bodies@), fn_views(elsewhere@)),
{
    let names: Vec<String> = match parse_rust(source) {
        Ok(items) => function_names(&items),
        Err(e) => {
            return Err(e);
        },
    };
    let ghost views = texts(names@);
    let ghost told = body_views(bodies@);
    let mut out: Vec<FnFacts> = Vec::new();
    let mut i: usize = 0;
    assert(views.len() == names@.len());
    assert(fn_views(out@) =~= Seq::<FnView>::empty());
    while i < names.len()
        invariant
            i <= names@.len(),
            views == texts(names@),
            told == body_views(bodies@),
            fn_views(out@) == facts_of(views, told, i as nat),
        decreases names@.len() - i,
    {
        assert(views[i as int] == names@[i as int]@);
        let ghost before = fn_views(out@);
        let facts: FnFacts = join_facts(names[i].as_str(), bodies, i);
        let ghost view = facts@;
        out.push(facts);
        assert(fn_views(out@) =~= before.push(view));
        i += 1;
    }
    let ghost start = fn_views(out@);
    let ghost others = fn_views(elsewhere@);
    let mut k: usize = 0;
    assert(start + others.take(0) =~= start);
    while k < elsewhere.len()
        invariant
            k <= elsewhere@.len(),
            others == fn_views(elsewhere@),
            fn_views(out@) == start + others.take(k as int),
        decreases elsewhere@.len() - k,
    {
        assert(others[k as int] == elsewhere@[k as int]@);
        let ghost before = fn_views(out@);
        out.push(copy_facts(&elsewhere[k]));
        assert(fn_views(out@) =~= before.push(others[k as int]));
        assert(start + others.take(k as int + 1) =~= before.push(others[k as int]));
        k += 1;
    }
    assert(others.take(k as int) =~= others);
    Ok(out)
}

/// A function is called by one of the first `n`.
pub open spec fn is_called(fns: Seq<FnView>, name: Seq<char>, n: nat) -> bool {
    exists|i: int| 0 <= i < n && (#[trigger] fns[i]).calls.contains(name)
}

/// The mandatory functions among the first `n` that are never called.
pub open spec fn uncalled(
    mandatory: Seq<Seq<char>>,
    fns: Seq<FnView>,
    n: nat,
) -> Seq<Seq<char>>
    decreases n,
{
    if n == 0 {
        Seq::empty()
    } else {
        let before = uncalled(mandatory, fns, (n - 1) as nat);
        if is_called(fns, mandatory[n - 1], fns.len()) {
            before
        } else {
            before.push(mandatory[n - 1])
        }
    }
}

fn calls_it(fns: &Vec<FnFacts>, name: &str) -> (r: bool)
    ensures
        r == is_called(fn_views(fns@), name@, fns@.len()),
{
    let ghost views = fn_views(fns@);
    let mut i: usize = 0;
    while i < fns.len()
        invariant
            i <= fns@.len(),
            views == fn_views(fns@),
            forall|j: int| 0 <= j < i ==> !(#[trigger] views[j]).calls.contains(name@),
        decreases fns@.len() - i,
    {
        assert(views[i as int] == fns@[i as int]@);
        if has_text(&fns[i].calls, name) {
            return true;
        }
        i += 1;
    }
    false
}

pub open spec fn unparsed_mandatory(error: Seq<char>) -> Seq<char> {
    "contract coverage failure: the source no longer parses, so mandatory-primitive coverage \
    cannot be checked: "@ + error
}

fn say_unparsed_mandatory(error: &str) -> (out: String)
    ensures
        out@ == unparsed_mandatory(error@),
{
    let mut out: String = "contract coverage failure: the source no longer parses, so mandatory-primitive \
        coverage cannot be checked: ".to_owned();
    out.append(error);
    out
}

pub open spec fn no_call_site(name: Seq<char>) -> Seq<char> {
    "`"@ + name + "` has no call site"@
}

fn say_no_call_site(name: &str) -> (out: String)
    ensures
        out@ == no_call_site(name@),
{
    let mut out: String = "`".to_owned();
    out.append(name);
    out.append("` has no call site");
    out
}

pub open spec fn never_called(name: Seq<char>, error: Seq<char>) -> Seq<char> {
    "contract coverage failure: the installed pack marks `"@
        + name
        + "` a mandatory certified primitive, but the draft never calls it anywhere -- the model \
    must wire the ledger (call `"@
        + name
        + "`), not write its own version of what it does\nmachine-readable errors: ["@
        + error
        + "]"@
}

fn say_never_called(name: &str, error: &str) -> (out: String)
    ensures
        out@ == never_called(name@, error@),
{
    let mut out: String = "contract coverage failure: the installed pack marks `".to_owned();
    out.append(name);
    out.append("` a mandatory certified primitive, but the draft never calls it anywhere -- the \
        model must wire the ledger (call `");
    out.append(name);
    out.append("`), not write its own version of what it does\nmachine-readable errors: [");
    out.append(error);
    out.append("]");
    out
}

/// What is wrong with the calls of a program: it cannot be read, or a
/// mandatory function is never called; of several, the first in dictionary
/// order is named.
pub open spec fn mandatory_fault(
    parsed: Result<Seq<FnView>, Seq<char>>,
    mandatory: Seq<Seq<char>>,
) -> Option<FailureView> {
    if mandatory.len() == 0 {
        None
    } else {
        match parsed {
            Err(e) => Some(
                FailureView {
                    class: CoverageFailureClass::ContractViolated,
                    diagnostic: unparsed_mandatory(e),
                },
            ),
            Ok(fns) => {
                let missing = uncalled(mandatory, fns, mandatory.len());
                if missing.len() == 0 {
                    None
                } else {
                    let name = sorted_texts(missing)[0];
                    Some(
                        FailureView {
                            class: CoverageFailureClass::ContractDropped,
                            diagnostic: never_called(
                                name,
                                json_document(
                                    error_json(
                                        "mandatory_primitive_coverage"@,
                                        None,
                                        None,
                                        no_call_site(name),
                                    ),
                                ),
                            ),
                        },
                    )
                }
            },
        }
    }
}

pub open spec fn read_fns(parsed: ReadFns) -> Result<Seq<FnView>, Seq<char>> {
    match parsed {
        Ok(fns) => Ok(fn_views(fns@)),
        Err(e) => Err(e@),
    }
}

/// Whether every mandatory function is called somewhere in a source text.
/// `bodies` tells what each of its functions does, in order, and `elsewhere`
/// what the rest of it does.
pub fn check_mandatory_primitive_coverage(
    source: &str,
    bodies: &Vec<BodyFacts>,
    elsewhere: &Vec<FnFacts>,
    mandatory_fns: &Vec<String>,
) -> (out: Result<(), CoverageFailure>)
    ensures
        match out {
            Ok(_) => mandatory_fault(
                functions_in(source@, body_views(bodies@), fn_views(elsewhere@)),
                texts(mandatory_fns@),
            ) is None,
            Err(f) => mandatory_fault(
                functions_in(source@, body_views(bodies@), fn_views(elsewhere@)),
                texts(mandatory_fns@),
            ) == Some(f@),
        },
{
    check_calls(&read_functions(source, bodies, elsewhere), mandatory_fns)
}

/// Whether every mandatory function is called somewhere in a program.
pub fn check_calls(parsed: &ReadFns, mandatory_fns: &Vec<String>) -> (out: Result<
    (),
    CoverageFailure,
>)
    ensures
        match out {
            Ok(_) => mandatory_fault(read_fns(*parsed), texts(mandatory_fns@)) is None,
            Err(f) => mandatory_fault(read_fns(*parsed), texts(mandatory_fns@)) == Some(f@),
        },
{
    broadcast use texts_push;

    let ghost mandatory = texts(mandatory_fns@);
    assert(mandatory.len() == mandatory_fns@.len());
    if mandatory_fns.len() == 0 {
        return Ok(());
    }
    let fns: &Vec<FnFacts> = match parsed {
        Ok(fns) => fns,
        Err(e) => {
            return Err(
                CoverageFailure {
                    class: CoverageFailureClass::ContractViolated,
                    diagnostic: say_unparsed_mandatory(e.as_str()),
                },
            );
        },
    };
    let ghost views = fn_views(fns@);
    let mut missing: Vec<String> = Vec::new();
    let mut i: usize = 0;
    assert(texts(missing@) =~= Seq::<Seq<char>>::empty());
    assert(views.len() == fns@.len());
    while i < mandatory_fns.len()
        invariant
            i <= mandatory_fns@.len(),
            views == fn_views(fns@),
            views.len() == fns@.len(),
            mandatory == texts(mandatory_fns@),
            texts(missing@) == uncalled(mandatory, views, i as nat),
        decreases mandatory_fns@.len() - i,
    {
        assert(mandatory[i as int] == mandatory_fns@[i as int]@);
        if !calls_it(fns, mandatory_fns[i].as_str()) {
            missing.push(mandatory_fns[i].clone());
        }
        i += 1;
    }
    assert(texts(missing@).len() == missing@.len());
    if missing.len() == 0 {
        return Ok(());
    }
    let sorted: Vec<String> = sort_texts(&missing);
    assert(texts(sorted@).len() == sorted@.len());
    proof {
        let all = texts(missing@);
        let keys = all.map_values(|s: Seq<char>| crate::order::text_key(s));
        crate::order::law_sorted_order(keys, keys.len());
    }
    assert(texts(sorted@)[0] == sorted@[0]@);
    let name: &str = sorted[0].as_str();
    let error: String = machine_error(
        "mandatory_primitive_coverage",
        None,
        None,
        say_no_call_site(name).as_str(),
    );
    Err(
        CoverageFailure {
            class: CoverageFailureClass::ContractDropped,
            diagnostic: say_never_called(name, error.as_str()),
        },
    )
}

proof fn lemma_uncalled(mandatory: Seq<Seq<char>>, fns: Seq<FnView>, n: nat, i: int)
    requires
        0 <= i < n <= mandatory.len(),
        !is_called(fns, mandatory[i], fns.len()),
    ensures
        uncalled(mandatory, fns, n).len() > 0,
    decreases n,
{
    if i < n - 1 {
        lemma_uncalled(mandatory, fns, (n - 1) as nat, i);
    }
}

/// In a program that passes, every mandatory function is called somewhere.
pub proof fn law_mandatory_functions_are_called(
    fns: Seq<FnView>,
    mandatory: Seq<Seq<char>>,
    name: Seq<char>,
)
    requires
        mandatory_fault(Ok(fns), mandatory) is None,
        mandatory.contains(name),
    ensures
        exists|i: int| 0 <= i < fns.len() && (#[trigger] fns[i]).calls.contains(name),
{
    let i = choose|i: int| 0 <= i < mandatory.len() && mandatory[i] == name;
    if !is_called(fns, name, fns.len()) {
        lemma_uncalled(mandatory, fns, mandatory.len(), i);
    }
}

pub open spec fn unparsed_exclusive(error: Seq<char>) -> Seq<char> {
    "contract coverage failure: the source no longer parses, so primitive-exclusivity \
    coverage cannot be checked: "@ + error
}

fn say_unparsed_exclusive(error: &str) -> (out: String)
    ensures
        out@ == unparsed_exclusive(error@),
{
    let mut out: String = "contract coverage failure: the source no longer parses, so primitive-exclusivity \
        coverage cannot be checked: ".to_owned();
    out.append(error);
    out
}

pub open spec fn constructs_protected(function: Seq<char>, name: Seq<char>) -> Seq<char> {
    "fn `"@
        + function
        + "` constructs `"@
        + name
        + "` directly -- `"@
        + name
        + "` is a protected struct: only a mandatory certified primitive may construct it"@
}

fn say_constructs_protected(function: &str, name: &str) -> (out: String)
    ensures
        out@ == constructs_protected(function@, name@),
{
    let mut out: String = "fn `".to_owned();
    out.append(function);
    out.append("` constructs `");
    out.append(name);
    out.append("` directly -- `");
    out.append(name);
    out.append("` is a protected struct: only a mandatory certified primitive may construct it");
    out
}

pub open spec fn exclusive_failure(message: Seq<char>, error: Seq<char>) -> Seq<char> {
    "contract coverage failure: "@
        + message
        + "\nmachine-readable errors: ["@
        + error
        + "]"@
}

fn say_exclusive_failure(message: &str, error: &str) -> (out: String)
    ensures
        out@ == exclusive_failure(message@, error@),
{
    let mut out: String = "contract coverage failure: ".to_owned();
    out.append(message);
    out.append("\nmachine-readable errors: [");
    out.append(error);
    out.append("]");
    out
}

/// The first protected struct, from an index on, that a function writes out.
pub open spec fn first_protected(
    protected: Seq<Seq<char>>,
    constructs: Seq<Seq<char>>,
    from: nat,
) -> Option<Seq<char>>
    decreases protected.len() - from,
{
    if from >= protected.len() {
        None
    } else if constructs.contains(protected[from as int]) {
        Some(protected[from as int])
    } else {
        first_protected(protected, constructs, from + 1)
    }
}

/// The first function, from an index on, that writes out a protected struct
/// without being allowed to, and which struct that is.
pub open spec fn first_breach(
    fns: Seq<FnView>,
    protected: Seq<Seq<char>>,
    mandatory: Seq<Seq<char>>,
    from: nat,
) -> Option<(Seq<char>, Seq<char>)>
    decreases fns.len() - from,
{
    if from >= fns.len() {
        None
    } else {
        let f = fns[from as int];
        match first_protected(protected, f.constructs, 0) {
            Some(name) => if mandatory.contains(f.name) {
                first_breach(fns, protected, mandatory, from + 1)
            } else {
                Some((f.name, name))
            },
            None => first_breach(fns, protected, mandatory, from + 1),
        }
    }
}

/// What is wrong with what a program writes out: it cannot be read, or a
/// function that is not mandatory writes out a protected struct.
pub open spec fn exclusive_fault(
    parsed: Result<Seq<FnView>, Seq<char>>,
    protected: Seq<Seq<char>>,
    mandatory: Seq<Seq<char>>,
) -> Option<FailureView> {
    if protected.len() == 0 {
        None
    } else {
        match parsed {
            Err(e) => Some(
                FailureView {
                    class: CoverageFailureClass::ContractViolated,
                    diagnostic: unparsed_exclusive(e),
                },
            ),
            Ok(fns) => match first_breach(fns, protected, mandatory, 0) {
                None => None,
                Some((function, name)) => {
                    let message = constructs_protected(function, name);
                    Some(
                        FailureView {
                            class: CoverageFailureClass::ContractViolated,
                            diagnostic: exclusive_failure(
                                message,
                                json_document(
                                    error_json("primitive_exclusivity"@, None, None, message),
                                ),
                            ),
                        },
                    )
                },
            },
        }
    }
}

fn find_protected<'a>(protected: &'a Vec<String>, constructs: &Vec<String>) -> (out: Option<
    &'a String,
>)
    ensures
        match out {
            Some(name) => first_protected(texts(protected@), texts(constructs@), 0) == Some(name@),
            None => first_protected(texts(protected@), texts(constructs@), 0) is None,
        },
{
    let ghost views = texts(protected@);
    let mut i: usize = 0;
    assert(views.len() == protected@.len());
    while i < protected.len()
        invariant
            i <= protected@.len(),
            views == texts(protected@),
            views.len() == protected@.len(),
            first_protected(views, texts(constructs@), 0) == first_protected(
                views,
                texts(constructs@),
                i as nat,
            ),
        decreases protected@.len() - i,
    {
        assert(views[i as int] == protected@[i as int]@);
        if has_text(constructs, protected[i].as_str()) {
            return Some(&protected[i]);
        }
        i += 1;
    }
    None
}

/// Whether protected structs are written out by mandatory functions only in a
/// source text. `bodies` tells what each of its functions does, in order, and
/// `elsewhere` what the rest of it does.
pub fn check_primitive_exclusivity_coverage(
    source: &str,
    bodies: &Vec<BodyFacts>,
    elsewhere: &Vec<FnFacts>,
    protected_structs: &Vec<String>,
    mandatory_fns: &Vec<String>,
) -> (out: Result<(), CoverageFailure>)
    ensures
        match out {
            Ok(_) => exclusive_fault(
                functions_in(source@, body_views(bodies@), fn_views(elsewhere@)),
                texts(protected_structs@),
                texts(mandatory_fns@),
            ) is None,
            Err(f) => exclusive_fault(
                functions_in(source@, body_views(bodies@), fn_views(elsewhere@)),
                texts(protected_structs@),
                texts(mandatory_fns@),
            ) == Some(f@),
        },
{
    check_constructs(&read_functions(source, bodies, elsewhere), protected_structs, mandatory_fns)
}

/// Whether protected structs are written out by mandatory functions only.
pub fn check_constructs(
    parsed: &ReadFns,
    protected_structs: &Vec<String>,
    mandatory_fns: &Vec<String>,
) -> (out: Result<(), CoverageFailure>)
    ensures
        match out {
            Ok(_) => exclusive_fault(
                read_fns(*parsed),
                texts(protected_structs@),
                texts(mandatory_fns@),
            ) is None,
            Err(f) => exclusive_fault(
                read_fns(*parsed),
                texts(protected_structs@),
                texts(mandatory_fns@),
            ) == Some(f@),
        },
{
    assert(texts(protected_structs@).len() == protected_structs@.len());
    if protected_structs.len() == 0 {
        return Ok(());
    }
    let fns: &Vec<FnFacts> = match parsed {
        Ok(fns) => fns,
        Err(e) => {
            return Err(
                CoverageFailure {
                    class: CoverageFailureClass::ContractViolated,
                    diagnostic: say_unparsed_exclusive(e.as_str()),
                },
            );
        },
    };
    let ghost views = fn_views(fns@);
    let ghost protected = texts(protected_structs@);
    let ghost mandatory = texts(mandatory_fns@);
    let mut i: usize = 0;
    assert(views.len() == fns@.len());
    while i < fns.len()
        invariant
            i <= fns@.len(),
            *parsed == Ok::<Vec<FnFacts>, String>(*fns),
            views == fn_views(fns@),
            views.len() == fns@.len(),
            protected == texts(protected_structs@),
            protected.len() > 0,
            mandatory == texts(mandatory_fns@),
            first_breach(views, protected, mandatory, 0) == first_breach(
                views,
                protected,
                mandatory,
                i as nat,
            ),
        decreases fns@.len() - i,
    {
        let f: &FnFacts = &fns[i];
        assert(views[i as int] == f@);
        if !has_text(mandatory_fns, f.name.as_str()) {
            if let Some(name) = find_protected(protected_structs, &f.constructs) {
                let message: String = say_constructs_protected(f.name.as_str(), name.as_str());
                let error: String = machine_error(
                    "primitive_exclusivity",
                    None,
                    None,
                    message.as_str(),
                );
                return Err(
                    CoverageFailure {
                        class: CoverageFailureClass::ContractViolated,
                        diagnostic: say_exclusive_failure(message.as_str(), error.as_str()),
                    },
                );
            }
        }
        i += 1;
    }
    Ok(())
}

proof fn lemma_first_protected(protected: Seq<Seq<char>>, constructs: Seq<Seq<char>>, from: nat)
    requires
        first_protected(protected, constructs, from) is None,
    ensures
        forall|i: int|
            from <= i < protected.len() ==> !constructs.contains(#[trigger] protected[i]),
    decreases protected.len() - from,
{
    if from < protected.len() {
        lemma_first_protected(protected, constructs, from + 1);
    }
}

proof fn lemma_no_breach(
    fns: Seq<FnView>,
    protected: Seq<Seq<char>>,
    mandatory: Seq<Seq<char>>,
    from: nat,
    i: int,
)
    requires
        from <= i < fns.len(),
        first_breach(fns, protected, mandatory, from) is None,
    ensures
        mandatory.contains(fns[i].name) || first_protected(protected, fns[i].constructs, 0) is None,
    decreases fns.len() - from,
{
    if from < i {
        lemma_no_breach(fns, protected, mandatory, from + 1, i);
    }
}

/// In a program that passes, a protected struct is only written out by a
/// mandatory function.
pub proof fn law_protected_structs_are_protected(
    fns: Seq<FnView>,
    protected: Seq<Seq<char>>,
    mandatory: Seq<Seq<char>>,
    i: int,
    name: Seq<char>,
)
    requires
        exclusive_fault(Ok(fns), protected, mandatory) is None,
        0 <= i < fns.len(),
        protected.contains(name),
        fns[i].constructs.contains(name),
    ensures
        mandatory.contains(fns[i].name),
{
    lemma_no_breach(fns, protected, mandatory, 0, i);
    if first_protected(protected, fns[i].constructs, 0) is None {
        lemma_first_protected(protected, fns[i].constructs, 0);
    }
}

/// What the function that runs first does: which functions it calls, and
/// whether it serves on a port that it names.
pub struct MainFacts {
    pub calls: Vec<String>,
    pub serves: bool,
}

/// What a program declares.
pub struct ProgramFacts {
    pub fns: Vec<String>,
    pub structs: Vec<String>,
    pub enums: Vec<String>,
    pub screens: Vec<String>,
    pub main: Option<MainFacts>,
}

#[verifier::ext_equal]
pub struct ProgramView {
    pub fns: Seq<Seq<char>>,
    pub structs: Seq<Seq<char>>,
    pub enums: Seq<Seq<char>>,
    pub screens: Seq<Seq<char>>,
    pub main: Option<(Seq<Seq<char>>, bool)>,
}

impl View for ProgramFacts {
    type V = ProgramView;

    open spec fn view(&self) -> ProgramView {
        ProgramView {
            fns: texts(self.fns@),
            structs: texts(self.structs@),
            enums: texts(self.enums@),
            screens: texts(self.screens@),
            main: match self.main {
                Some(m) => Some((texts(m.calls@), m.serves)),
                None => None,
            },
        }
    }
}

/// A unit is declared in a program, under its kind and its name.
pub open spec fn is_declared(p: ProgramView, u: UnitView) -> bool {
    if u.kind == "screen"@ {
        p.screens.contains(u.name)
    } else if u.kind == "fn"@ {
        p.fns.contains(u.name)
    } else if u.kind == "struct"@ {
        p.structs.contains(u.name)
    } else if u.kind == "enum"@ {
        p.enums.contains(u.name)
    } else {
        false
    }
}

fn declares(p: &ProgramFacts, u: &CandidateUnit) -> (r: bool)
    ensures
        r == is_declared(p@, u@),
{
    let kind: &str = u.kind.as_str();
    let name: &str = u.name.as_str();
    proof {
        reveal_strlit("screen");
        reveal_strlit("fn");
        reveal_strlit("struct");
        reveal_strlit("enum");
    }
    if same_text(kind, "screen") {
        has_text(&p.screens, name)
    } else if same_text(kind, "fn") {
        has_text(&p.fns, name)
    } else if same_text(kind, "struct") {
        has_text(&p.structs, name)
    } else if same_text(kind, "enum") {
        has_text(&p.enums, name)
    } else {
        false
    }
}

pub open spec fn kind_and_name(kind: Seq<char>, name: Seq<char>) -> Seq<char> {
    kind + " "@ + name
}

fn say_kind_and_name(kind: &str, name: &str) -> (out: String)
    ensures
        out@ == kind_and_name(kind@, name@),
{
    let mut out: String = kind.to_owned();
    out.append(" ");
    out.append(name);
    out
}

/// The units among the first `n` that a program does not declare.
pub open spec fn undeclared(p: ProgramView, units: Seq<UnitView>, n: nat) -> Seq<Seq<char>>
    decreases n,
{
    if n == 0 {
        Seq::empty()
    } else {
        let before = undeclared(p, units, (n - 1) as nat);
        if is_declared(p, units[n - 1]) {
            before
        } else {
            before.push(kind_and_name(units[n - 1].kind, units[n - 1].name))
        }
    }
}

/// The screens among the first `n` units that a program does not mount.
pub open spec fn unmounted(
    calls: Seq<Seq<char>>,
    units: Seq<UnitView>,
    n: nat,
) -> Seq<Seq<char>>
    decreases n,
{
    if n == 0 {
        Seq::empty()
    } else {
        let before = unmounted(calls, units, (n - 1) as nat);
        if units[n - 1].kind == "screen"@ && !calls.contains("mount_"@ + units[n - 1].name) {
            before.push(units[n - 1].name)
        } else {
            before
        }
    }
}

pub open spec fn does_not_parse(error: Seq<char>) -> Seq<char> {
    "generated source does not parse: "@ + error
}

fn say_does_not_parse(error: &str) -> (out: String)
    ensures
        out@ == does_not_parse(error@),
{
    let mut out: String = "generated source does not parse: ".to_owned();
    out.append(error);
    out
}

pub open spec fn absent_components(missing: Seq<char>) -> Seq<char> {
    "confirmed graph components are absent from generated source: "@ + missing + ". Each screen needs a real nirdosha_rt UI macro whose first entry is `mount: \
    mount_<ScreenName>`; a struct or nirdosha:screen comment alone does not render a screen."@
}

fn say_absent_components(missing: &str) -> (out: String)
    ensures
        out@ == absent_components(missing@),
{
    let mut out: String = "confirmed graph components are absent from generated source: ".to_owned();
    out.append(missing);
    out.append(". Each screen needs a real nirdosha_rt UI macro whose first entry is `mount: \
        mount_<ScreenName>`; a struct or nirdosha:screen comment alone does not render a \
        screen.");
    out
}

pub open spec fn unmounted_screens(names: Seq<char>) -> Seq<char> {
    "screen coverage failure: main() must call the generated mount function for: "@ + names
}

fn say_unmounted_screens(names: &str) -> (out: String)
    ensures
        out@ == unmounted_screens(names@),
{
    let mut out: String = "screen coverage failure: main() must call the generated mount function for: ".to_owned();
    out.append(names);
    out
}

pub const NO_MAIN_FOR_SCREENS: &'static str = "screen coverage failure: main() is missing";

pub const SCREENS_NOT_SERVED: &'static str = "screen coverage failure: main() must call router.serve(<literal port>) so Preview can \
    reach a running HTTP server";

/// What is wrong with what a program declares: it cannot be read, lacks a unit,
/// has screens but no main function, does not mount one of its screens, or does
/// not serve them. The first of these is named.
pub open spec fn graph_fault(
    parsed: Result<ProgramView, Seq<char>>,
    units: Seq<UnitView>,
) -> Option<Seq<char>> {
    match parsed {
        Err(e) => Some(does_not_parse(e)),
        Ok(p) => {
            let missing = undeclared(p, units, units.len());
            if missing.len() > 0 {
                Some(absent_components(join(missing, ", "@)))
            } else if p.screens.len() == 0 {
                None
            } else {
                match p.main {
                    None => Some(NO_MAIN_FOR_SCREENS@),
                    Some((calls, serves)) => {
                        let names = unmounted(calls, units, units.len());
                        if names.len() > 0 {
                            Some(unmounted_screens(join(names, ", "@)))
                        } else if !serves {
                            Some(SCREENS_NOT_SERVED@)
                        } else {
                            None
                        }
                    },
                }
            }
        },
    }
}

pub open spec fn read_program(parsed: Result<ProgramFacts, String>) -> Result<
    ProgramView,
    Seq<char>,
> {
    match parsed {
        Ok(p) => Ok(p@),
        Err(e) => Err(e@),
    }
}

fn find_undeclared(p: &ProgramFacts, units: &Vec<CandidateUnit>) -> (out: Vec<String>)
    ensures
        texts(out@) == undeclared(p@, unit_views(units@), units@.len()),
{
    broadcast use texts_push;

    let ghost views = unit_views(units@);
    let mut out: Vec<String> = Vec::new();
    let mut i: usize = 0;
    assert(texts(out@) =~= Seq::<Seq<char>>::empty());
    while i < units.len()
        invariant
            i <= units@.len(),
            views == unit_views(units@),
            texts(out@) == undeclared(p@, views, i as nat),
        decreases units@.len() - i,
    {
        assert(views[i as int] == units@[i as int]@);
        if !declares(p, &units[i]) {
            out.push(say_kind_and_name(units[i].kind.as_str(), units[i].name.as_str()));
        }
        i += 1;
    }
    out
}

fn find_unmounted(calls: &Vec<String>, units: &Vec<CandidateUnit>) -> (out: Vec<String>)
    ensures
        texts(out@) == unmounted(texts(calls@), unit_views(units@), units@.len()),
{
    broadcast use texts_push;

    let ghost views = unit_views(units@);
    let mut out: Vec<String> = Vec::new();
    let mut i: usize = 0;
    assert(texts(out@) =~= Seq::<Seq<char>>::empty());
    while i < units.len()
        invariant
            i <= units@.len(),
            views == unit_views(units@),
            texts(out@) == unmounted(texts(calls@), views, i as nat),
        decreases units@.len() - i,
    {
        assert(views[i as int] == units@[i as int]@);
        if same_text(units[i].kind.as_str(), "screen") {
            let mut mount: String = "mount_".to_owned();
            mount.append(units[i].name.as_str());
            if !has_text(calls, mount.as_str()) {
                out.push(units[i].name.clone());
            }
        }
        i += 1;
    }
    out
}

/// Whether a program declares every unit of the design, and mounts and serves
/// its screens.
pub fn check_graph_coverage(parsed: &Result<ProgramFacts, String>, units: &Vec<CandidateUnit>) -> (out:
    Result<(), String>)
    ensures
        match out {
            Ok(_) => graph_fault(read_program(*parsed), unit_views(units@)) is None,
            Err(e) => graph_fault(read_program(*parsed), unit_views(units@)) == Some(e@),
        },
{
    assert(unit_views(units@).len() == units@.len());
    let p: &ProgramFacts = match parsed {
        Ok(p) => p,
        Err(e) => {
            return Err(say_does_not_parse(e.as_str()));
        },
    };
    let missing: Vec<String> = find_undeclared(p, units);
    assert(texts(missing@).len() == missing@.len());
    if missing.len() > 0 {
        return Err(say_absent_components(join_texts(&missing, ", ").as_str()));
    }
    assert(texts(p.screens@).len() == p.screens@.len());
    if p.screens.len() == 0 {
        return Ok(());
    }
    match &p.main {
        None => Err(NO_MAIN_FOR_SCREENS.to_owned()),
        Some(main) => {
            let names: Vec<String> = find_unmounted(&main.calls, units);
            assert(texts(names@).len() == names@.len());
            if names.len() > 0 {
                return Err(say_unmounted_screens(join_texts(&names, ", ").as_str()));
            }
            if !main.serves {
                return Err(SCREENS_NOT_SERVED.to_owned());
            }
            Ok(())
        },
    }
}

/// The structs among the first `n` items of a file.
pub open spec fn struct_names(items: Seq<ItemView>, n: nat) -> Seq<Seq<char>>
    decreases n,
{
    if n == 0 {
        Seq::empty()
    } else {
        let before = struct_names(items, (n - 1) as nat);
        match items[n - 1] {
            ItemView::Struct(name, _, _) => before.push(name),
            _ => before,
        }
    }
}

/// The enums among the first `n` items of a file.
pub open spec fn enum_names(items: Seq<ItemView>, n: nat) -> Seq<Seq<char>>
    decreases n,
{
    if n == 0 {
        Seq::empty()
    } else {
        let before = enum_names(items, (n - 1) as nat);
        match items[n - 1] {
            ItemView::Enum(name, _, _) => before.push(name),
            _ => before,
        }
    }
}

/// What the items of a file declare.
pub open spec fn program_of(
    items: Seq<ItemView>,
    main: Option<(Seq<Seq<char>>, bool)>,
) -> ProgramView {
    ProgramView {
        fns: fn_names(items, items.len()),
        structs: struct_names(items, items.len()),
        enums: enum_names(items, items.len()),
        screens: screens_of(items, items.len()),
        main,
    }
}

pub open spec fn main_view(main: Option<MainFacts>) -> Option<(Seq<Seq<char>>, bool)> {
    match main {
        Some(m) => Some((texts(m.calls@), m.serves)),
        None => None,
    }
}

/// What the items of a file declare. `main` is what its main function does.
pub fn program_facts(items: &Vec<RustItem>, main: Option<MainFacts>) -> (out: ProgramFacts)
    ensures
        out@ == program_of(item_views(items@), main_view(main)),
{
    broadcast use texts_push;

    let ghost views = item_views(items@);
    let mut fns: Vec<String> = Vec::new();
    let mut structs: Vec<String> = Vec::new();
    let mut enums: Vec<String> = Vec::new();
    let mut screens: Vec<String> = Vec::new();
    let mut i: usize = 0;
    assert(texts(fns@) =~= fn_names(views, 0));
    assert(texts(structs@) =~= struct_names(views, 0));
    assert(texts(enums@) =~= enum_names(views, 0));
    assert(texts(screens@) =~= screens_of(views, 0));
    assert(views.len() == items@.len());
    while i < items.len()
        invariant
            i <= items@.len(),
            views == item_views(items@),
            texts(fns@) == fn_names(views, i as nat),
            texts(structs@) == struct_names(views, i as nat),
            texts(enums@) == enum_names(views, i as nat),
            texts(screens@) == screens_of(views, i as nat),
        decreases items@.len() - i,
    {
        assert(views[i as int] == items@[i as int]@);
        match &items[i] {
            RustItem::Function(name, _, _, _) => fns.push(name.clone()),
            RustItem::Struct(name, _, _) => structs.push(name.clone()),
            RustItem::Enum(name, _, _) => enums.push(name.clone()),
            RustItem::Macro(tokens) => {
                if let Some(name) = screen_name(tokens) {
                    screens.push(name);
                }
            },
            RustItem::Other => {},
        }
        i += 1;
    }
    ProgramFacts { fns, structs, enums, screens, main }
}

/// What the last `main` of a file does: what it calls, and whether it serves on
/// a number that it writes out.
pub open spec fn main_of(items: Seq<ItemView>, bodies: Seq<BodyView>) -> Option<
    (Seq<Seq<char>>, bool),
> {
    let names = fn_names(items, items.len());
    match last_main(names, names.len()) {
        Some(at) => {
            let body = body_at(bodies, at);
            Some((body.calls, served(body.methods, body.methods.len()).len() > 0))
        },
        None => None,
    }
}

fn read_main(items: &Vec<RustItem>, bodies: &Vec<BodyFacts>) -> (out: Option<MainFacts>)
    ensures
        main_view(out) == main_of(item_views(items@), body_views(bodies@)),
{
    let names: Vec<String> = function_names(items);
    assert(texts(names@).len() == names@.len());
    assert(body_views(bodies@).len() == bodies@.len());
    match find_last_main(&names) {
        Some(at) => {
            if at >= bodies.len() {
                let none: Vec<String> = Vec::new();
                assert(texts(none@) =~= Seq::<Seq<char>>::empty());
                return Some(MainFacts { calls: none, serves: false });
            }
            let body: &BodyFacts = &bodies[at];
            assert(body_views(bodies@)[at as int] == body@);
            assert(body@.methods.len() == body.methods@.len());
            let numbers: Vec<String> = served_numbers(&body.methods);
            assert(texts(numbers@).len() == numbers@.len());
            Some(MainFacts { calls: copy_texts(&body.calls), serves: numbers.len() > 0 })
        },
        None => None,
    }
}

/// What a source text declares, or why it cannot be read.
pub open spec fn declared_in(source: Seq<char>, bodies: Seq<BodyView>) -> Result<
    ProgramView,
    Seq<char>,
> {
    match rust_items(source) {
        Ok(items) => Ok(program_of(items, main_of(items, bodies))),
        Err(e) => Err(e),
    }
}

/// Whether a source text declares every unit of the design, and mounts and
/// serves its screens. `bodies` tells what each of its functions does, in
/// order.
pub fn check_source_coverage(
    source: &str,
    bodies: &Vec<BodyFacts>,
    units: &Vec<CandidateUnit>,
) -> (out: Result<(), String>)
    ensures
        match out {
            Ok(_) => graph_fault(
                declared_in(source@, body_views(bodies@)),
                unit_views(units@),
            ) is None,
            Err(e) => graph_fault(declared_in(source@, body_views(bodies@)), unit_views(units@))
                == Some(e@),
        },
{
    let parsed: Result<ProgramFacts, String> = match parse_rust(source) {
        Ok(items) => {
            let main: Option<MainFacts> = read_main(&items, bodies);
            Ok(program_facts(&items, main))
        },
        Err(e) => Err(e),
    };
    check_graph_coverage(&parsed, units)
}

proof fn lemma_all_declared(p: ProgramView, units: Seq<UnitView>, n: nat, i: int)
    requires
        0 <= i < n <= units.len(),
        undeclared(p, units, n).len() == 0,
    ensures
        is_declared(p, units[i]),
    decreases n,
{
    if i < n - 1 {
        lemma_all_declared(p, units, (n - 1) as nat, i);
    }
}

proof fn lemma_all_mounted(calls: Seq<Seq<char>>, units: Seq<UnitView>, n: nat, i: int)
    requires
        0 <= i < n <= units.len(),
        unmounted(calls, units, n).len() == 0,
        units[i].kind == "screen"@,
    ensures
        calls.contains("mount_"@ + units[i].name),
    decreases n,
{
    if i < n - 1 {
        lemma_all_mounted(calls, units, (n - 1) as nat, i);
    }
}

/// A program that passes declares every unit of the design, and its main
/// function mounts every screen and serves them.
pub proof fn law_an_accepted_program_has_every_unit(p: ProgramView, units: Seq<UnitView>, i: int)
    requires
        graph_fault(Ok(p), units) is None,
        0 <= i < units.len(),
    ensures
        is_declared(p, units[i]),
        units[i].kind == "screen"@ ==> {
            &&& p.main is Some
            &&& p.main->Some_0.0.contains("mount_"@ + units[i].name)
            &&& p.main->Some_0.1
        },
{
    lemma_all_declared(p, units, units.len(), i);
    if units[i].kind == "screen"@ {
        assert(p.screens.contains(units[i].name));
        assert(p.screens.len() > 0);
        lemma_all_mounted(p.main->Some_0.0, units, units.len(), i);
    }
}

proof fn lemma_struct_names(items: Seq<ItemView>, n: nat, name: Seq<char>)
    requires
        n <= items.len(),
    ensures
        struct_names(items, n).contains(name) <==> exists|k: int|
            0 <= k < n && (#[trigger] items[k] matches ItemView::Struct(s, _, _) && s == name),
    decreases n,
{
    broadcast use push_has;

    if n > 0 {
        lemma_struct_names(items, (n - 1) as nat, name);
        assert(items[n - 1] matches ItemView::Struct(s, _, _) && s == name ==> struct_names(
            items,
            n,
        ).contains(name));
    }
}

proof fn lemma_enum_names(items: Seq<ItemView>, n: nat, name: Seq<char>)
    requires
        n <= items.len(),
    ensures
        enum_names(items, n).contains(name) <==> exists|k: int|
            0 <= k < n && (#[trigger] items[k] matches ItemView::Enum(e, _, _) && e == name),
    decreases n,
{
    broadcast use push_has;

    if n > 0 {
        lemma_enum_names(items, (n - 1) as nat, name);
        assert(items[n - 1] matches ItemView::Enum(e, _, _) && e == name ==> enum_names(
            items,
            n,
        ).contains(name));
    }
}

/// The units that are reported absent are those that the program lacks, each by
/// its kind and its name, in the order of the design.
pub proof fn law_absent_units_are_named(p: ProgramView, units: Seq<UnitView>, n: nat)
    requires
        n <= units.len(),
    ensures
        undeclared(p, units, n) == units.take(n as int).filter_map(
            |u: UnitView|
                if (u.kind == "fn"@ && p.fns.contains(u.name)) || (u.kind == "struct"@
                    && p.structs.contains(u.name)) || (u.kind == "enum"@ && p.enums.contains(
                    u.name,
                )) || (u.kind == "screen"@ && p.screens.contains(u.name)) {
                    None
                } else {
                    Some(u.kind + " "@ + u.name)
                },
        ),
    decreases n,
{
    reveal_strlit("screen");
    reveal_strlit("fn");
    reveal_strlit("struct");
    reveal_strlit("enum");
    assert("screen"@.len() == 6 && "fn"@.len() == 2 && "struct"@.len() == 6 && "enum"@.len() == 4);
    assert("screen"@[1] != "struct"@[1]);
    let f = |u: UnitView|
        if (u.kind == "fn"@ && p.fns.contains(u.name)) || (u.kind == "struct"@
            && p.structs.contains(u.name)) || (u.kind == "enum"@ && p.enums.contains(u.name)) || (
        u.kind == "screen"@ && p.screens.contains(u.name)) {
            None
        } else {
            Some(u.kind + " "@ + u.name)
        };
    if n > 0 {
        law_absent_units_are_named(p, units, (n - 1) as nat);
        lemma_kept_next(units, f, n - 1);
    }
}

/// The screens that are reported as not mounted are those of the design whose
/// mount function is not called, in the order of the design.
pub proof fn law_unmounted_screens_are_named(
    calls: Seq<Seq<char>>,
    units: Seq<UnitView>,
    n: nat,
)
    requires
        n <= units.len(),
    ensures
        unmounted(calls, units, n) == units.take(n as int).filter_map(
            |u: UnitView|
                if u.kind == "screen"@ && !calls.contains("mount_"@ + u.name) {
                    Some(u.name)
                } else {
                    None
                },
        ),
    decreases n,
{
    let f = |u: UnitView|
        if u.kind == "screen"@ && !calls.contains("mount_"@ + u.name) {
            Some(u.name)
        } else {
            None
        };
    if n > 0 {
        law_unmounted_screens_are_named(calls, units, (n - 1) as nat);
        lemma_kept_next(units, f, n - 1);
    }
}

/// A file holds what a unit of the design asks for: a function, a struct, an
/// enum or a mounted screen of its name.
pub open spec fn holds_unit(items: Seq<ItemView>, u: UnitView) -> bool {
    ||| u.kind == "fn"@ && exists|k: int|
        0 <= k < items.len() && (#[trigger] items[k] matches ItemView::Function(f, _, _, _) && f
            == u.name)
    ||| u.kind == "struct"@ && exists|k: int|
        0 <= k < items.len() && (#[trigger] items[k] matches ItemView::Struct(s, _, _) && s
            == u.name)
    ||| u.kind == "enum"@ && exists|k: int|
        0 <= k < items.len() && (#[trigger] items[k] matches ItemView::Enum(e, _, _) && e
            == u.name)
    ||| u.kind == "screen"@ && mounts_screen(items, u.name)
}

/// A macro of a file mounts the screen of a name: it begins with `mount: ` and
/// the name of the screen's mount function.
pub open spec fn mounts_screen(items: Seq<ItemView>, name: Seq<char>) -> bool {
    exists|k: int|
        0 <= k < items.len() && (#[trigger] items[k] matches ItemView::Macro(tokens) && {
            &&& tokens.len() >= 3
            &&& tokens[0] == TokenView::Word("mount"@)
            &&& tokens[1] == TokenView::Mark(':')
            &&& tokens[2] == TokenView::Word("mount_"@ + name)
        })
}

proof fn lemma_holds_unit(items: Seq<ItemView>, main: Option<(Seq<Seq<char>>, bool)>, u: UnitView)
    ensures
        is_declared(program_of(items, main), u) == holds_unit(items, u),
{
    reveal_strlit("screen");
    reveal_strlit("fn");
    reveal_strlit("struct");
    reveal_strlit("enum");
    assert("screen"@.len() == 6 && "fn"@.len() == 2 && "struct"@.len() == 6 && "enum"@.len() == 4);
    assert("screen"@[1] != "struct"@[1]);
    law_listed_functions_are_declared(items, items.len(), u.name);
    lemma_struct_names(items, items.len(), u.name);
    lemma_enum_names(items, items.len(), u.name);
    law_mounted_screens(items, items.len(), u.name);
}

/// A program covers the design exactly where its items hold every unit of the
/// design, each under its kind, and, if they mount any screen, its main function
/// mounts every screen of the design and serves.
pub proof fn law_what_covers_the_design(
    items: Seq<ItemView>,
    main: Option<(Seq<Seq<char>>, bool)>,
    units: Seq<UnitView>,
)
    ensures
        graph_fault(Ok(program_of(items, main)), units) is None <==> {
            &&& forall|i: int| 0 <= i < units.len() ==> holds_unit(items, #[trigger] units[i])
            &&& (exists|name: Seq<char>| #[trigger] mounts_screen(items, name)) ==> {
                &&& main is Some
                &&& main->Some_0.1
                &&& forall|i: int|
                    0 <= i < units.len() && (#[trigger] units[i]).kind == "screen"@
                        ==> main->Some_0.0.contains("mount_"@ + units[i].name)
            }
        },
{
    let p = program_of(items, main);
    if p.screens.len() > 0 {
        law_mounted_screens(items, items.len(), p.screens[0]);
        assert(p.screens.contains(p.screens[0]));
        assert(mounts_screen(items, p.screens[0]));
    }
    if exists|name: Seq<char>| #[trigger] mounts_screen(items, name) {
        let name = choose|name: Seq<char>| #[trigger] mounts_screen(items, name);
        law_mounted_screens(items, items.len(), name);
        assert(p.screens.contains(name));
    }
    if forall|i: int| 0 <= i < units.len() ==> holds_unit(items, #[trigger] units[i]) {
        assert forall|i: int| 0 <= i < units.len() implies is_declared(p, #[trigger] units[i]) by {
            lemma_holds_unit(items, main, units[i]);
        }
        lemma_none_undeclared(p, units, units.len());
    }
    if undeclared(p, units, units.len()).len() == 0 {
        assert forall|i: int| 0 <= i < units.len() implies holds_unit(
            items,
            #[trigger] units[i],
        ) by {
            lemma_all_declared(p, units, units.len(), i);
            lemma_holds_unit(items, main, units[i]);
        }
    }
    if main is Some {
        let calls = main->Some_0.0;
        if unmounted(calls, units, units.len()).len() == 0 {
            assert forall|i: int|
                0 <= i < units.len() && (#[trigger] units[i]).kind == "screen"@ implies calls.contains(
            "mount_"@ + units[i].name) by {
                lemma_all_mounted(calls, units, units.len(), i);
            }
        }
        if forall|i: int|
            0 <= i < units.len() && (#[trigger] units[i]).kind == "screen"@ ==> calls.contains(
                "mount_"@ + units[i].name,
            ) {
            lemma_none_unmounted(calls, units, units.len());
        }
    }
}

proof fn lemma_none_undeclared(p: ProgramView, units: Seq<UnitView>, n: nat)
    requires
        n <= units.len(),
        forall|i: int| 0 <= i < units.len() ==> is_declared(p, #[trigger] units[i]),
    ensures
        undeclared(p, units, n).len() == 0,
    decreases n,
{
    if n > 0 {
        lemma_none_undeclared(p, units, (n - 1) as nat);
        assert(is_declared(p, units[n - 1]));
    }
}

proof fn lemma_none_unmounted(calls: Seq<Seq<char>>, units: Seq<UnitView>, n: nat)
    requires
        n <= units.len(),
        forall|i: int|
            0 <= i < units.len() && (#[trigger] units[i]).kind == "screen"@ ==> calls.contains(
                "mount_"@ + units[i].name,
            ),
    ensures
        unmounted(calls, units, n).len() == 0,
    decreases n,
{
    if n > 0 {
        lemma_none_unmounted(calls, units, (n - 1) as nat);
        assert(units[n - 1].kind == "screen"@ ==> calls.contains("mount_"@ + units[n - 1].name));
    }
}

/// What the main function of a program does is what the body of its last
/// function named `main` does; a program without such a function has none. It
/// serves exactly where that body calls `serve` with a number.
pub proof fn law_main_is_the_last_main(items: Seq<ItemView>, bodies: Seq<BodyView>)
    ensures
        ({
            let names = fn_names(items, items.len());
            match main_of(items, bodies) {
                Some((calls, serves)) => exists|at: int|
                    {
                        &&& 0 <= at < names.len()
                        &&& #[trigger] names[at] == "main"@
                        &&& forall|k: int| at < k < names.len() ==> #[trigger] names[k] != "main"@
                        &&& at < bodies.len() ==> calls == bodies[at].calls
                        &&& at >= bodies.len() ==> calls.len() == 0 && !serves
                        &&& at < bodies.len() ==> serves == exists|i: int|
                            0 <= i < bodies[at].methods.len() && (#[trigger] bodies[at].methods[i]).method
                                == "serve"@ && bodies[at].methods[i].number is Some
                    },
                None => !names.contains("main"@),
            }
        }),
{
    let names = fn_names(items, items.len());
    law_last_main(names, names.len());
    match last_main(names, names.len()) {
        Some(at) => {
            law_who_serves(body_at(bodies, at).methods);
            assert(names[at as int] == "main"@);
        },
        None => {},
    }
}

/// What is said of a program that does not cover the design is told by what it
/// lacks, in this order: it cannot be read, it lacks a unit, its screens have no
/// main function, one of them is not mounted, they are not served.
pub proof fn law_the_first_lack_is_told(p: ProgramView, units: Seq<UnitView>, e: Seq<char>)
    ensures
        graph_fault(Err(e), units) == Some("generated source does not parse: "@ + e),
        undeclared(p, units, units.len()).len() > 0 ==> graph_fault(Ok(p), units) is Some
            && starts_with(
            graph_fault(Ok(p), units)->Some_0,
            "confirmed graph components are absent from generated source: "@ + join(
                undeclared(p, units, units.len()),
                ", "@,
            ),
        ),
        undeclared(p, units, units.len()).len() == 0 && p.screens.len() > 0 ==> {
            &&& p.main is None ==> graph_fault(Ok(p), units) == Some(
                "screen coverage failure: main() is missing"@,
            )
            &&& p.main matches Some((calls, serves)) ==> {
                let left = unmounted(calls, units, units.len());
                &&& left.len() > 0 ==> graph_fault(Ok(p), units) == Some(
                    "screen coverage failure: main() must call the generated mount function for: "@
                        + join(left, ", "@),
                )
                &&& left.len() == 0 && !serves ==> graph_fault(Ok(p), units) is Some
            }
        },
{
    let missing = join(undeclared(p, units, units.len()), ", "@);
    let head = "confirmed graph components are absent from generated source: "@ + missing;
    let all = absent_components(missing);
    assert(all.subrange(0, head.len() as int) =~= head);
}

proof fn lemma_facts_of(names: Seq<Seq<char>>, bodies: Seq<BodyView>, n: nat)
    requires
        n <= names.len(),
    ensures
        facts_of(names, bodies, n).len() == n,
        forall|i: int|
            0 <= i < n ==> {
                &&& (#[trigger] facts_of(names, bodies, n)[i]).name == names[i]
                &&& i < bodies.len() ==> facts_of(names, bodies, n)[i].calls == bodies[i].calls
                    + bodies[i].methods.map_values(|m: MethodView| m.method)
                &&& i < bodies.len() ==> facts_of(names, bodies, n)[i].constructs
                    == bodies[i].constructs
            },
    decreases n,
{
    if n > 0 {
        lemma_facts_of(names, bodies, (n - 1) as nat);
    }
}

/// What is read of a source text: for each of its functions, under its name, the
/// functions and methods that its body calls and the structs that it writes out;
/// and behind them what stands elsewhere.
pub proof fn law_what_is_read_of_a_source(
    source: Seq<char>,
    bodies: Seq<BodyView>,
    elsewhere: Seq<FnView>,
    i: int,
)
    requires
        rust_items(source) is Ok,
        0 <= i < fn_names(rust_items(source)->Ok_0, rust_items(source)->Ok_0.len()).len(),
        i < bodies.len(),
    ensures
        ({
            let names = fn_names(rust_items(source)->Ok_0, rust_items(source)->Ok_0.len());
            let fns = functions_in(source, bodies, elsewhere)->Ok_0;
            &&& functions_in(source, bodies, elsewhere) is Ok
            &&& fns.len() == names.len() + elsewhere.len()
            &&& fns.skip(names.len() as int) == elsewhere
            &&& fns[i].name == names[i]
            &&& fns[i].calls == bodies[i].calls + bodies[i].methods.map_values(
                |m: MethodView| m.method,
            )
            &&& fns[i].constructs == bodies[i].constructs
        }),
{
    let names = fn_names(rust_items(source)->Ok_0, rust_items(source)->Ok_0.len());
    let fns = functions_in(source, bodies, elsewhere)->Ok_0;
    lemma_facts_of(names, bodies, names.len());
    assert(fns.skip(names.len() as int) =~= elsewhere);
}

/// A program passes exactly where each mandatory function is called by some
/// function of it.
pub proof fn law_when_mandatory_functions_are_covered(
    fns: Seq<FnView>,
    mandatory: Seq<Seq<char>>,
)
    ensures
        mandatory_fault(Ok(fns), mandatory) is None <==> forall|i: int|
            0 <= i < mandatory.len() ==> exists|k: int|
                0 <= k < fns.len() && (#[trigger] fns[k]).calls.contains(#[trigger] mandatory[i]),
        mandatory.len() == 0 ==> forall|parsed: Result<Seq<FnView>, Seq<char>>| #[trigger]
            mandatory_fault(parsed, mandatory) is None,
{
    if mandatory_fault(Ok(fns), mandatory) is None {
        assert forall|i: int| 0 <= i < mandatory.len() implies exists|k: int|
            0 <= k < fns.len() && (#[trigger] fns[k]).calls.contains(#[trigger] mandatory[i]) by {
            assert(mandatory.contains(mandatory[i]));
            law_mandatory_functions_are_called(fns, mandatory, mandatory[i]);
        }
    }
    if forall|i: int|
        0 <= i < mandatory.len() ==> exists|k: int|
            0 <= k < fns.len() && (#[trigger] fns[k]).calls.contains(#[trigger] mandatory[i]) {
        assert forall|i: int| 0 <= i < mandatory.len() implies is_called(
            fns,
            #[trigger] mandatory[i],
            fns.len(),
        ) by {}
        lemma_all_called(mandatory, fns, mandatory.len());
    }
}

proof fn lemma_all_called(mandatory: Seq<Seq<char>>, fns: Seq<FnView>, n: nat)
    requires
        n <= mandatory.len(),
        forall|i: int|
            0 <= i < mandatory.len() ==> is_called(fns, #[trigger] mandatory[i], fns.len()),
    ensures
        uncalled(mandatory, fns, n).len() == 0,
    decreases n,
{
    if n > 0 {
        lemma_all_called(mandatory, fns, (n - 1) as nat);
        assert(is_called(fns, mandatory[n - 1], fns.len()));
    }
}

proof fn lemma_uncalled_has(
    mandatory: Seq<Seq<char>>,
    fns: Seq<FnView>,
    n: nat,
    name: Seq<char>,
)
    requires
        n <= mandatory.len(),
    ensures
        uncalled(mandatory, fns, n).contains(name) <==> (exists|i: int|
            0 <= i < n && #[trigger] mandatory[i] == name) && !is_called(fns, name, fns.len()),
    decreases n,
{
    broadcast use push_has;

    if n > 0 {
        lemma_uncalled_has(mandatory, fns, (n - 1) as nat, name);
        if mandatory[n - 1] == name {
            assert(mandatory[n - 1] == name);
        }
    }
}

/// Of the mandatory functions that are never called, the first in dictionary
/// order is named.
pub proof fn law_which_missing_call_is_named(fns: Seq<FnView>, mandatory: Seq<Seq<char>>)
    requires
        mandatory_fault(Ok(fns), mandatory) is Some,
    ensures
        exists|name: Seq<char>|
            {
                &&& #[trigger] mandatory.contains(name)
                &&& forall|k: int| 0 <= k < fns.len() ==> !(#[trigger] fns[k]).calls.contains(name)
                &&& forall|i: int|
                    0 <= i < mandatory.len() && text_before(#[trigger] mandatory[i], name)
                        ==> exists|k: int|
                        0 <= k < fns.len() && (#[trigger] fns[k]).calls.contains(mandatory[i])
                &&& mandatory_fault(Ok(fns), mandatory)->Some_0.class is ContractDropped
                &&& mandatory_fault(Ok(fns), mandatory)->Some_0.diagnostic == never_called(
                    name,
                    json_document(
                        error_json(
                            "mandatory_primitive_coverage"@,
                            None,
                            None,
                            "`"@ + name + "` has no call site"@,
                        ),
                    ),
                )
            },
{
    broadcast use vstd::seq_lib::group_to_multiset_ensures;

    let missing = uncalled(mandatory, fns, mandatory.len());
    law_sorted_texts(missing);
    let sorted = sorted_texts(missing);
    let name = sorted[0];
    assert(sorted.contains(name));
    assert(sorted.to_multiset().count(name) > 0);
    assert(missing.contains(name));
    lemma_uncalled_has(mandatory, fns, mandatory.len(), name);
    assert(mandatory.contains(name));
    assert forall|i: int|
        0 <= i < mandatory.len() && text_before(#[trigger] mandatory[i], name) implies exists|k: int|
        0 <= k < fns.len() && (#[trigger] fns[k]).calls.contains(mandatory[i]) by {
        let other = mandatory[i];
        if !is_called(fns, other, fns.len()) {
            lemma_uncalled_has(mandatory, fns, mandatory.len(), other);
            assert(missing.contains(other));
            assert(sorted.to_multiset().count(other) > 0);
            assert(sorted.contains(other));
            let j = choose|j: int| 0 <= j < sorted.len() && sorted[j] == other;
            if j > 0 {
                assert(!text_before(sorted[j], sorted[0]));
            } else {
                lemma_text_before_irreflexive(name);
            }
        }
    }
}

/// A program passes exactly where every function that writes out a protected
/// struct is a mandatory one.
pub proof fn law_when_protected_structs_are_safe(
    fns: Seq<FnView>,
    protected: Seq<Seq<char>>,
    mandatory: Seq<Seq<char>>,
)
    ensures
        exclusive_fault(Ok(fns), protected, mandatory) is None <==> forall|k: int, j: int|
            0 <= k < fns.len() && 0 <= j < protected.len() && (
            #[trigger] fns[k]).constructs.contains(#[trigger] protected[j])
                ==> mandatory.contains(fns[k].name),
{
    if exclusive_fault(Ok(fns), protected, mandatory) is None {
        assert forall|k: int, j: int|
            0 <= k < fns.len() && 0 <= j < protected.len() && (
            #[trigger] fns[k]).constructs.contains(#[trigger] protected[j]) implies mandatory.contains(
        fns[k].name) by {
            assert(protected.contains(protected[j]));
            law_protected_structs_are_protected(fns, protected, mandatory, k, protected[j]);
        }
    } else {
        lemma_first_breach(fns, protected, mandatory, 0);
    }
}

proof fn lemma_first_protected_found(
    protected: Seq<Seq<char>>,
    constructs: Seq<Seq<char>>,
    from: nat,
)
    requires
        first_protected(protected, constructs, from) is Some,
    ensures
        exists|j: int|
            {
                &&& from <= j < protected.len()
                &&& #[trigger] protected[j] == first_protected(protected, constructs, from)->Some_0
                &&& constructs.contains(protected[j])
                &&& forall|i: int| from <= i < j ==> !constructs.contains(#[trigger] protected[i])
            },
    decreases protected.len() - from,
{
    if constructs.contains(protected[from as int]) {
        assert(protected[from as int] == first_protected(protected, constructs, from)->Some_0);
    } else {
        lemma_first_protected_found(protected, constructs, from + 1);
    }
}

proof fn lemma_first_breach(
    fns: Seq<FnView>,
    protected: Seq<Seq<char>>,
    mandatory: Seq<Seq<char>>,
    from: nat,
)
    requires
        first_breach(fns, protected, mandatory, from) is Some,
    ensures
        exists|k: int, j: int|
            {
                &&& from <= k < fns.len()
                &&& 0 <= j < protected.len()
                &&& (#[trigger] fns[k]).constructs.contains(#[trigger] protected[j])
                &&& !mandatory.contains(fns[k].name)
                &&& first_breach(fns, protected, mandatory, from) == Some(
                    (fns[k].name, protected[j]),
                )
            },
    decreases fns.len() - from,
{
    let f = fns[from as int];
    match first_protected(protected, f.constructs, 0) {
        Some(name) => {
            if mandatory.contains(f.name) {
                lemma_first_breach(fns, protected, mandatory, from + 1);
            } else {
                lemma_first_protected_found(protected, f.constructs, 0);
                let j = choose|j: int|
                    {
                        &&& 0 <= j < protected.len()
                        &&& #[trigger] protected[j] == name
                        &&& f.constructs.contains(protected[j])
                        &&& forall|i: int|
                            0 <= i < j ==> !f.constructs.contains(#[trigger] protected[i])
                    };
                assert(fns[from as int].constructs.contains(protected[j]));
            }
        },
        None => {
            lemma_first_breach(fns, protected, mandatory, from + 1);
        },
    }
}

/// What is told of a program that writes out a protected struct names a function
/// that does so without being allowed to, and the struct.
pub proof fn law_which_breach_is_named(
    fns: Seq<FnView>,
    protected: Seq<Seq<char>>,
    mandatory: Seq<Seq<char>>,
)
    requires
        exclusive_fault(Ok(fns), protected, mandatory) is Some,
    ensures
        exists|k: int, j: int|
            {
                &&& 0 <= k < fns.len()
                &&& 0 <= j < protected.len()
                &&& (#[trigger] fns[k]).constructs.contains(#[trigger] protected[j])
                &&& !mandatory.contains(fns[k].name)
                &&& exclusive_fault(Ok(fns), protected, mandatory)->Some_0.class is ContractViolated
                &&& starts_with(
                    exclusive_fault(Ok(fns), protected, mandatory)->Some_0.diagnostic,
                    "contract coverage failure: "@ + ("fn `"@ + fns[k].name + "` constructs `"@
                        + protected[j]),
                )
            },
{
    lemma_first_breach(fns, protected, mandatory, 0);
    let (k, j) = choose|k: int, j: int|
        {
            &&& 0 <= k < fns.len()
            &&& 0 <= j < protected.len()
            &&& (#[trigger] fns[k]).constructs.contains(#[trigger] protected[j])
            &&& !mandatory.contains(fns[k].name)
            &&& first_breach(fns, protected, mandatory, 0) == Some((fns[k].name, protected[j]))
        };
    let text = exclusive_fault(Ok(fns), protected, mandatory)->Some_0.diagnostic;
    let head = "contract coverage failure: "@ + ("fn `"@ + fns[k].name + "` constructs `"@
        + protected[j]);
    assert(text.subrange(0, head.len() as int) =~= head);
    assert(fns[k].constructs.contains(protected[j]));
}

/// What is said of a draft that does not cover its design names what is missing,
/// who breaks a rule, and why a draft could not be read.
pub proof fn law_what_is_said(a: Seq<char>, b: Seq<char>)
    ensures
        unparsed_mandatory(a) == "contract coverage failure: the source no longer parses, so mandatory-primitive coverage \
    cannot be checked: "@ + a,
        no_call_site(a) == "`"@ + a + "` has no call site"@,
        unparsed_exclusive(a) == "contract coverage failure: the source no longer parses, so primitive-exclusivity \
    coverage cannot be checked: "@ + a,
        constructs_protected(a, b) == "fn `"@ + a + "` constructs `"@ + b + "` directly -- `"@ + b + "` is a protected struct: only a mandatory certified primitive may construct it"@,
        exclusive_failure(a, b) == "contract coverage failure: "@ + a + "\nmachine-readable errors: ["@ + b + "]"@,
        kind_and_name(a, b) == a + " "@ + b,
        does_not_parse(a) == "generated source does not parse: "@ + a,
        unmounted_screens(a) == "screen coverage failure: main() must call the generated mount function for: "@ + a,
{
}

/// A program that cannot be read is refused where anything is demanded of its
/// calls, or of how its structs are made, and only there.
pub proof fn law_unread_programs_are_refused(
    e: Seq<char>,
    parsed: Result<Seq<FnView>, Seq<char>>,
    demanded: Seq<Seq<char>>,
    mandatory: Seq<Seq<char>>,
)
    ensures
        demanded.len() == 0 ==> mandatory_fault(parsed, demanded) is None && exclusive_fault(
            parsed,
            demanded,
            mandatory,
        ) is None,
        demanded.len() > 0 ==> {
            &&& mandatory_fault(Err(e), demanded) is Some
            &&& mandatory_fault(Err(e), demanded)->Some_0.class
                == CoverageFailureClass::ContractViolated
            &&& ends_with(mandatory_fault(Err(e), demanded)->Some_0.diagnostic, e)
            &&& exclusive_fault(Err(e), demanded, mandatory) is Some
            &&& exclusive_fault(Err(e), demanded, mandatory)->Some_0.class
                == CoverageFailureClass::ContractViolated
            &&& ends_with(exclusive_fault(Err(e), demanded, mandatory)->Some_0.diagnostic, e)
        },
{
    let a = unparsed_mandatory(e);
    let b = unparsed_exclusive(e);
    assert(a.subrange(a.len() - e.len(), a.len() as int) =~= e);
    assert(b.subrange(b.len() - e.len(), b.len() as int) =~= e);
}

} // verus!
