//! What the functions of a program do, as their bodies tell.
use crate::composer::decl::opt_text;
use crate::lists::{lemma_kept_next, lemma_nothing_kept};
use crate::outside::{parse_rust, rust_items};
use crate::text::{same_text, texts, texts_push};
use crate::v2::source::{first_port, fn_names, function_names, port_among, ItemView, RustItem};
use vstd::prelude::*;

verus! {

/// A method call in a body: the method, and its first argument where that is a
/// number written out.
pub struct MethodUse {
    pub method: String,
    pub number: Option<String>,
}

/// What a [`MethodUse`] stands for.
#[verifier::ext_equal]
pub struct MethodView {
    pub method: Seq<char>,
    pub number: Option<Seq<char>>,
}

impl View for MethodUse {
    type V = MethodView;

    open spec fn view(&self) -> MethodView {
        MethodView { method: self.method@, number: opt_text(self.number) }
    }
}

pub open spec fn method_views(list: Seq<MethodUse>) -> Seq<MethodView> {
    list.map_values(|m: MethodUse| m@)
}

/// What a body does, each in the order of the source: the functions that it
/// calls by name, its method calls, the structs that it writes out.
pub struct BodyFacts {
    pub calls: Vec<String>,
    pub methods: Vec<MethodUse>,
    pub constructs: Vec<String>,
}

/// What [`BodyFacts`] stand for.
#[verifier::ext_equal]
pub struct BodyView {
    pub calls: Seq<Seq<char>>,
    pub methods: Seq<MethodView>,
    pub constructs: Seq<Seq<char>>,
}

impl View for BodyFacts {
    type V = BodyView;

    open spec fn view(&self) -> BodyView {
        BodyView {
            calls: texts(self.calls@),
            methods: method_views(self.methods@),
            constructs: texts(self.constructs@),
        }
    }
}

pub open spec fn body_views(list: Seq<BodyFacts>) -> Seq<BodyView> {
    list.map_values(|b: BodyFacts| b@)
}

/// What the function at a position does; one of which nothing is told does
/// nothing.
pub open spec fn body_at(bodies: Seq<BodyView>, i: nat) -> BodyView {
    if i < bodies.len() {
        bodies[i as int]
    } else {
        BodyView { calls: Seq::empty(), methods: Seq::empty(), constructs: Seq::empty() }
    }
}

/// The first function, from a position on, that is named `main`.
pub open spec fn first_main(names: Seq<Seq<char>>, from: nat) -> Option<nat>
    decreases names.len() - from,
{
    if from >= names.len() {
        None
    } else if names[from as int] == "main"@ {
        Some(from)
    } else {
        first_main(names, from + 1)
    }
}

/// The last of the first `n` functions that is named `main`.
pub open spec fn last_main(names: Seq<Seq<char>>, n: nat) -> Option<nat>
    decreases n,
{
    if n == 0 {
        None
    } else if names[n - 1] == "main"@ {
        Some((n - 1) as nat)
    } else {
        last_main(names, (n - 1) as nat)
    }
}

fn find_first_main(names: &Vec<String>) -> (out: Option<usize>)
    ensures
        match out {
            Some(i) => first_main(texts(names@), 0) == Some(i as nat),
            None => first_main(texts(names@), 0) is None,
        },
{
    let ghost views = texts(names@);
    let mut i: usize = 0;
    assert(views.len() == names@.len());
    while i < names.len()
        invariant
            i <= names@.len(),
            views == texts(names@),
            views.len() == names@.len(),
            first_main(views, 0) == first_main(views, i as nat),
        decreases names@.len() - i,
    {
        assert(views[i as int] == names@[i as int]@);
        if same_text(names[i].as_str(), "main") {
            return Some(i);
        }
        i += 1;
    }
    None
}

/// The last function that is named `main`.
pub fn find_last_main(names: &Vec<String>) -> (out: Option<usize>)
    ensures
        match out {
            Some(i) => last_main(texts(names@), names@.len()) == Some(i as nat),
            None => last_main(texts(names@), names@.len()) is None,
        },
{
    let ghost views = texts(names@);
    let mut n: usize = names.len();
    while n > 0
        invariant
            n <= names@.len(),
            views == texts(names@),
            last_main(views, names@.len()) == last_main(views, n as nat),
        decreases n,
    {
        assert(views[n as int - 1] == names@[n as int - 1]@);
        if same_text(names[n - 1].as_str(), "main") {
            return Some(n - 1);
        }
        n -= 1;
    }
    None
}

/// The numbers that the first `n` of some method calls serve on.
pub open spec fn served(methods: Seq<MethodView>, n: nat) -> Seq<Seq<char>>
    decreases n,
{
    if n == 0 {
        Seq::empty()
    } else {
        let before = served(methods, (n - 1) as nat);
        let last = methods[n - 1];
        match last.number {
            Some(number) => if last.method == "serve"@ {
                before.push(number)
            } else {
                before
            },
            None => before,
        }
    }
}

/// The numbers that some method calls serve on.
pub fn served_numbers(methods: &Vec<MethodUse>) -> (out: Vec<String>)
    ensures
        texts(out@) == served(method_views(methods@), methods@.len()),
{
    broadcast use texts_push;

    let ghost views = method_views(methods@);
    let mut out: Vec<String> = Vec::new();
    let mut i: usize = 0;
    assert(texts(out@) =~= Seq::<Seq<char>>::empty());
    while i < methods.len()
        invariant
            i <= methods@.len(),
            views == method_views(methods@),
            texts(out@) == served(views, i as nat),
        decreases methods@.len() - i,
    {
        assert(views[i as int] == methods@[i as int]@);
        if let Some(number) = &methods[i].number {
            if same_text(methods[i].method.as_str(), "serve") {
                out.push(number.clone());
            }
        }
        i += 1;
    }
    out
}

/// The port on which the first `main` of a file serves: the first number it
/// calls `serve` with that is one.
pub open spec fn served_port(items: Seq<ItemView>, bodies: Seq<BodyView>) -> Option<nat> {
    match first_main(fn_names(items, items.len()), 0) {
        Some(at) => {
            let methods = body_at(bodies, at).methods;
            port_among(served(methods, methods.len()), 0)
        },
        None => None,
    }
}

/// The port on which a program serves; none where its source cannot be read.
/// `bodies` tells what each function of the source does, in order.
pub fn discover_serve_port(source: &str, bodies: &Vec<BodyFacts>) -> (out: Option<u16>)
    ensures
        match rust_items(source@) {
            Err(_) => out is None,
            Ok(items) => match out {
                Some(port) => served_port(items, body_views(bodies@)) == Some(port as nat),
                None => served_port(items, body_views(bodies@)) is None,
            },
        },
{
    let items: Vec<RustItem> = match parse_rust(source) {
        Ok(items) => items,
        Err(_) => {
            return None;
        },
    };
    let names: Vec<String> = function_names(&items);
    assert(body_views(bodies@).len() == bodies@.len());
    match find_first_main(&names) {
        Some(at) => {
            if at >= bodies.len() {
                return None;
            }
            assert(body_views(bodies@)[at as int] == bodies@[at as int]@);
            assert(method_views(bodies@[at as int].methods@).len() == bodies@[at as int].methods@.len());
            first_port(&served_numbers(&bodies[at].methods))
        },
        None => None,
    }
}

/// A program serves on no port unless it has a function `main`, whatever its
/// other functions do.
pub proof fn law_only_main_serves(items: Seq<ItemView>, bodies: Seq<BodyView>)
    ensures
        !fn_names(items, items.len()).contains("main"@) ==> served_port(items, bodies) is None,
{
    lemma_first_main(fn_names(items, items.len()), 0);
}

proof fn lemma_first_main(names: Seq<Seq<char>>, from: nat)
    ensures
        first_main(names, from) matches Some(i) ==> i < names.len() && names[i as int] == "main"@,
    decreases names.len() - from,
{
    if from < names.len() && names[from as int] != "main"@ {
        lemma_first_main(names, from + 1);
    }
}

/// The first `main`, if there is one: no function before it is named so.
pub proof fn law_first_main(names: Seq<Seq<char>>, from: nat)
    ensures
        match first_main(names, from) {
            Some(at) => {
                &&& from <= at < names.len()
                &&& names[at as int] == "main"@
                &&& forall|k: int| from <= k < at ==> #[trigger] names[k] != "main"@
            },
            None => forall|k: int| from <= k < names.len() ==> #[trigger] names[k] != "main"@,
        },
    decreases names.len() - from,
{
    if from < names.len() {
        law_first_main(names, from + 1);
    }
}

/// The last `main`, if there is one: no function behind it is named so.
pub proof fn law_last_main(names: Seq<Seq<char>>, n: nat)
    requires
        n <= names.len(),
    ensures
        match last_main(names, n) {
            Some(at) => {
                &&& at < n
                &&& names[at as int] == "main"@
                &&& forall|k: int| at < k < n ==> #[trigger] names[k] != "main"@
            },
            None => forall|k: int| 0 <= k < n ==> #[trigger] names[k] != "main"@,
        },
    decreases n,
{
    if n > 0 {
        law_last_main(names, (n - 1) as nat);
    }
}

/// The numbers that a body serves on are those that it calls `serve` with, in
/// order.
pub proof fn law_served_numbers(methods: Seq<MethodView>, n: nat)
    requires
        n <= methods.len(),
    ensures
        served(methods, n) == methods.take(n as int).filter_map(
            |m: MethodView|
                if m.method == "serve"@ {
                    m.number
                } else {
                    None
                },
        ),
    decreases n,
{
    let f = |m: MethodView|
        if m.method == "serve"@ {
            m.number
        } else {
            None
        };
    if n > 0 {
        law_served_numbers(methods, (n - 1) as nat);
        lemma_kept_next(methods, f, n - 1);
    }
}

/// A body serves exactly where it calls `serve` with a number.
pub proof fn law_who_serves(methods: Seq<MethodView>)
    ensures
        served(methods, methods.len()).len() > 0 <==> exists|i: int|
            0 <= i < methods.len() && (#[trigger] methods[i]).method == "serve"@
                && methods[i].number is Some,
{
    let f = |m: MethodView|
        if m.method == "serve"@ {
            m.number
        } else {
            None
        };
    law_served_numbers(methods, methods.len());
    assert(methods.take(methods.len() as int) =~= methods);
    lemma_nothing_kept(methods, f);
    if served(methods, methods.len()).len() > 0 {
        let i = choose|i: int| 0 <= i < methods.len() && !(f(#[trigger] methods[i]) is None);
        assert(methods[i].number is Some);
    }
    if exists|i: int|
        0 <= i < methods.len() && (#[trigger] methods[i]).method == "serve"@
            && methods[i].number is Some {
        let i = choose|i: int|
            0 <= i < methods.len() && (#[trigger] methods[i]).method == "serve"@
                && methods[i].number is Some;
        assert(f(methods[i]) is Some);
    }
}

} // verus!
