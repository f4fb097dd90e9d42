//! Shared entities: the modules that use one must agree on its key and its
//! fields, with each other and with the module that owns it.
use crate::composer::decl::{
    BindingView, FieldDecl, FieldView, ModuleData, ModuleView, ScreenDecl, ScreenView, SharedEntity,
};
use crate::lists::{lemma_flat_next, lemma_kept_next};
use crate::text::{same_text, same_texts, texts, texts_push};
use crate::text_table::TextTable;
use vstd::prelude::*;

verus! {

/// What one screen of a module says of a shared entity.
pub struct EntityClaim {
    pub module: String,
    /// The module owns the entity.
    pub own: bool,
    pub entity: String,
    pub pk: String,
    pub fields: Vec<String>,
}

#[verifier::ext_equal]
pub struct ClaimView {
    pub module: Seq<char>,
    pub own: bool,
    pub entity: Seq<char>,
    pub pk: Seq<char>,
    pub fields: Seq<Seq<char>>,
}

impl View for EntityClaim {
    type V = ClaimView;

    open spec fn view(&self) -> ClaimView {
        ClaimView {
            module: self.module@,
            own: self.own,
            entity: self.entity@,
            pk: self.pk@,
            fields: texts(self.fields@),
        }
    }
}

pub open spec fn claim_views(claims: Seq<EntityClaim>) -> Seq<ClaimView> {
    claims.map_values(|c: EntityClaim| c@)
}

/// The owner of each shared entity.
pub open spec fn owner_pairs(shared: Seq<(String, SharedEntity)>) -> Seq<(Seq<char>, Seq<char>)> {
    shared.map_values(|p: (String, SharedEntity)| (p.0@, p.1.owner@))
}

/// The value kept for a key: the one of the first entry with that key.
pub open spec fn lookup(table: Seq<(Seq<char>, Seq<char>)>, key: Seq<char>) -> Option<Seq<char>>
    decreases table.len(),
{
    if table.len() == 0 {
        None
    } else if table[0].0 == key {
        Some(table[0].1)
    } else {
        lookup(table.drop_first(), key)
    }
}

pub open spec fn field_names(fields: Seq<FieldView>) -> Seq<Seq<char>> {
    fields.map_values(|f: FieldView| f.name)
}

/// An absent text counts as empty.
pub open spec fn or_empty(o: Option<Seq<char>>) -> Seq<char> {
    match o {
        Some(s) => s,
        None => Seq::empty(),
    }
}

/// The claims of the first `n` entities of a binding, in order.
pub open spec fn binding_claims(
    owners: Seq<(Seq<char>, Seq<char>)>,
    module: Seq<char>,
    binding: BindingView,
    n: nat,
) -> Seq<ClaimView>
    decreases n,
{
    if n == 0 {
        Seq::empty()
    } else {
        let before = binding_claims(owners, module, binding, (n - 1) as nat);
        let entity = binding.entities[n - 1];
        match lookup(owners, entity) {
            Some(owner) => before.push(
                ClaimView {
                    module,
                    own: owner == module,
                    entity,
                    pk: or_empty(binding.primary_key),
                    fields: field_names(binding.fields),
                },
            ),
            None => before,
        }
    }
}

/// The claims of the first `n` screens of a module, in order.
pub open spec fn screen_claims(
    owners: Seq<(Seq<char>, Seq<char>)>,
    module: Seq<char>,
    screens: Seq<ScreenView>,
    n: nat,
) -> Seq<ClaimView>
    decreases n,
{
    if n == 0 {
        Seq::empty()
    } else {
        let before = screen_claims(owners, module, screens, (n - 1) as nat);
        match screens[n - 1].data_binding {
            Some(binding) => before + binding_claims(
                owners,
                module,
                binding,
                binding.entities.len(),
            ),
            None => before,
        }
    }
}

/// The claims of the first `n` modules, in order.
pub open spec fn module_claims(
    owners: Seq<(Seq<char>, Seq<char>)>,
    modules: Seq<ModuleView>,
    n: nat,
) -> Seq<ClaimView>
    decreases n,
{
    if n == 0 {
        Seq::empty()
    } else {
        let m = modules[n - 1];
        module_claims(owners, modules, (n - 1) as nat) + screen_claims(
            owners,
            m.name,
            m.register.screen,
            m.register.screen.len(),
        )
    }
}

/// Two claims contradict each other: they speak of one entity and differ in its
/// key or its fields. What the owner says of the entity on several screens may
/// differ.
pub open spec fn clash(a: ClaimView, b: ClaimView) -> bool {
    &&& a.entity == b.entity
    &&& !(a.own && b.own)
    &&& a.pk != b.pk || a.fields != b.fields
}

/// The last of the first `n` claims that contradicts `claim`, or -1.
pub open spec fn last_clash(claims: Seq<ClaimView>, claim: ClaimView, n: nat) -> int
    decreases n,
{
    if n == 0 {
        -1
    } else if clash(claims[n - 1], claim) {
        n - 1
    } else {
        last_clash(claims, claim, (n - 1) as nat)
    }
}

/// Claim `i` contradicts an earlier one.
pub open spec fn conflict_at(claims: Seq<ClaimView>, i: int) -> bool {
    last_clash(claims, claims[i], i as nat) >= 0
}

/// What is reported of the conflict at claim `i`.
pub open spec fn conflict_text(claims: Seq<ClaimView>, i: int) -> Seq<char> {
    let now = claims[i];
    let prev = claims[last_clash(claims, now, i as nat)];
    if prev.pk != now.pk {
        "shared entity `"@ + now.entity + "` has conflicting primary keys: module `"@ + prev.module
            + "` says `"@ + prev.pk + "`, but module `"@ + now.module + "` says `"@ + now.pk + "`"@
    } else {
        "shared entity `"@ + now.entity + "` has conflicting field lists between module `"@
            + prev.module + "` and module `"@ + now.module + "`"@
    }
}

/// The modules agree, or the first conflict is reported.
pub open spec fn claims_verdict(claims: Seq<ClaimView>, r: Result<(), Seq<char>>) -> bool {
    match r {
        Ok(_) => forall|i: int| 0 <= i < claims.len() ==> !#[trigger] conflict_at(claims, i),
        Err(e) => exists|i: int|
            {
                &&& 0 <= i < claims.len()
                &&& #[trigger] conflict_at(claims, i)
                &&& forall|k: int| 0 <= k < i ==> !#[trigger] conflict_at(claims, k)
                &&& e == conflict_text(claims, i)
            },
    }
}

/// The text of an error, if there is one.
pub open spec fn verdict_text(r: Result<(), String>) -> Result<(), Seq<char>> {
    match r {
        Ok(_) => Ok(()),
        Err(e) => Err(e@),
    }
}

fn owner_of<'a>(shared: &'a TextTable<SharedEntity>, entity: &str) -> (out: Option<&'a String>)
    ensures
        match out {
            Some(owner) => lookup(owner_pairs(shared@), entity@) == Some(owner@),
            None => lookup(owner_pairs(shared@), entity@) is None,
        },
{
    let ghost table = owner_pairs(shared@);
    let mut i: usize = 0;
    assert(table.skip(0) =~= table);
    while i < shared.len()
        invariant
            i <= shared@.len(),
            table == owner_pairs(shared@),
            lookup(table, entity@) == lookup(table.skip(i as int), entity@),
        decreases shared@.len() - i,
    {
        assert(table.skip(i as int).drop_first() =~= table.skip(i as int + 1));
        assert(table.skip(i as int)[0] == table[i as int]);
        let entry: &(String, SharedEntity) = shared.entry(i);
        if same_text(entry.0.as_str(), entity) {
            return Some(&entry.1.owner);
        }
        i += 1;
    }
    None
}

fn names_of(fields: &Vec<FieldDecl>) -> (out: Vec<String>)
    ensures
        texts(out@) == field_names(fields@.map_values(|x: FieldDecl| x@)),
{
    broadcast use texts_push;

    let ghost all = field_names(fields@.map_values(|x: FieldDecl| x@));
    let mut out: Vec<String> = Vec::new();
    let mut i: usize = 0;
    assert(texts(out@) =~= all.take(0));
    while i < fields.len()
        invariant
            i <= fields@.len(),
            all == field_names(fields@.map_values(|x: FieldDecl| x@)),
            texts(out@) == all.take(i as int),
        decreases fields@.len() - i,
    {
        out.push(fields[i].name.clone());
        i += 1;
        assert(all.take(i as int) =~= all.take(i as int - 1).push(all[i as int - 1]));
    }
    assert(all.take(i as int) =~= all);
    out
}

fn claims_of_screen(
    shared: &TextTable<SharedEntity>,
    module: &str,
    screen: &ScreenDecl,
    out: &mut Vec<EntityClaim>,
)
    ensures
        claim_views(final(out)@) == claim_views(old(out)@) + (match screen@.data_binding {
            Some(b) => binding_claims(owner_pairs(shared@), module@, b, b.entities.len()),
            None => Seq::empty(),
        }),
{
    let ghost start = claim_views(out@);
    let ghost owners = owner_pairs(shared@);
    match &screen.data_binding {
        Some(binding) => {
            let mut i: usize = 0;
            assert(start + binding_claims(owners, module@, binding@, 0) =~= start);
            while i < binding.entities.len()
                invariant
                    i <= binding.entities@.len(),
                    owners == owner_pairs(shared@),
                    claim_views(out@) == start + binding_claims(
                        owners,
                        module@,
                        binding@,
                        i as nat,
                    ),
                decreases binding.entities@.len() - i,
            {
                let ghost before = claim_views(out@);
                let ghost made = binding_claims(owners, module@, binding@, i as nat);
                if let Some(owner) = owner_of(shared, binding.entities[i].as_str()) {
                    let pk: String = match &binding.primary_key {
                        Some(k) => k.clone(),
                        None => String::new(),
                    };
                    let claim: EntityClaim = EntityClaim {
                        module: module.to_owned(),
                        own: same_text(owner.as_str(), module),
                        entity: binding.entities[i].clone(),
                        pk,
                        fields: names_of(&binding.fields),
                    };
                    let ghost view = claim@;
                    out.push(claim);
                    assert(claim_views(out@) =~= before.push(view));
                    assert(before.push(view) =~= start + made.push(view));
                }
                i += 1;
            }
        },
        None => {
            assert(start + Seq::<ClaimView>::empty() =~= start);
        },
    }
}

/// Every claim that the modules make on shared entities, in the order in which
/// they are made.
pub fn entity_claims(shared: &TextTable<SharedEntity>, modules: &Vec<ModuleData>) -> (out: Vec<
    EntityClaim,
>)
    ensures
        claim_views(out@) == module_claims(
            owner_pairs(shared@),
            modules@.map_values(|m: ModuleData| m@),
            modules@.len(),
        ),
{
    let ghost owners = owner_pairs(shared@);
    let ghost views = modules@.map_values(|m: ModuleData| m@);
    let mut out: Vec<EntityClaim> = Vec::new();
    let mut m: usize = 0;
    assert(claim_views(out@) =~= Seq::<ClaimView>::empty());
    while m < modules.len()
        invariant
            m <= modules@.len(),
            owners == owner_pairs(shared@),
            views == modules@.map_values(|m: ModuleData| m@),
            claim_views(out@) == module_claims(owners, views, m as nat),
        decreases modules@.len() - m,
    {
        let module: &ModuleData = &modules[m];
        let screens: &Vec<ScreenDecl> = &module.register.screen;
        let ghost screen_views = module@.register.screen;
        let ghost start = claim_views(out@);
        let mut i: usize = 0;
        assert(start + screen_claims(owners, module.name@, screen_views, 0) =~= start);
        while i < screens.len()
            invariant
                i <= screens@.len(),
                screens@ == module.register.screen@,
                owners == owner_pairs(shared@),
                screen_views == module@.register.screen,
                claim_views(out@) == start + screen_claims(
                    owners,
                    module.name@,
                    screen_views,
                    i as nat,
                ),
            decreases screens@.len() - i,
        {
            let ghost made = screen_claims(owners, module.name@, screen_views, i as nat);
            assert(screen_views[i as int] == screens@[i as int]@);
            claims_of_screen(shared, module.name.as_str(), &screens[i], &mut out);
            proof {
                match screen_views[i as int].data_binding {
                    Some(b) => {
                        let more = binding_claims(owners, module.name@, b, b.entities.len());
                        assert((start + made) + more =~= start + (made + more));
                    },
                    None => {
                        assert((start + made) + Seq::<ClaimView>::empty() =~= start + made);
                    },
                }
            }
            i += 1;
        }
        assert(views[m as int] == module@);
        m += 1;
    }
    out
}

fn clashes(a: &EntityClaim, b: &EntityClaim) -> (r: bool)
    ensures
        r == clash(a@, b@),
{
    same_text(a.entity.as_str(), b.entity.as_str()) && !(a.own && b.own) && (!same_text(
        a.pk.as_str(),
        b.pk.as_str(),
    ) || !same_texts(&a.fields, &b.fields))
}

/// Whether the claims agree; the first conflict otherwise.
pub fn check_claims(claims: &Vec<EntityClaim>) -> (r: Result<(), String>)
    ensures
        claims_verdict(claim_views(claims@), verdict_text(r)),
{
    let ghost views = claim_views(claims@);
    let mut i: usize = 0;
    while i < claims.len()
        invariant
            i <= claims@.len(),
            views == claim_views(claims@),
            forall|k: int| 0 <= k < i ==> !#[trigger] conflict_at(views, k),
        decreases claims@.len() - i,
    {
        let now: &EntityClaim = &claims[i];
        assert(views[i as int] == now@);
        let mut n: usize = i;
        while n > 0 && !clashes(&claims[n - 1], now)
            invariant
                n <= i < claims@.len(),
                views == claim_views(claims@),
                now == claims@[i as int],
                last_clash(views, now@, i as nat) == last_clash(views, now@, n as nat),
            decreases n,
        {
            assert(views[n as int - 1] == claims@[n as int - 1]@);
            n -= 1;
        }
        if n > 0 {
            let prev: &EntityClaim = &claims[n - 1];
            assert(views[n as int - 1] == prev@);
            assert(conflict_at(views, i as int));
            let mut msg: String = "shared entity `".to_owned();
            msg.append(now.entity.as_str());
            if !same_text(prev.pk.as_str(), now.pk.as_str()) {
                msg.append("` has conflicting primary keys: module `");
                msg.append(prev.module.as_str());
                msg.append("` says `");
                msg.append(prev.pk.as_str());
                msg.append("`, but module `");
                msg.append(now.module.as_str());
                msg.append("` says `");
                msg.append(now.pk.as_str());
                msg.append("`");
            } else {
                msg.append("` has conflicting field lists between module `");
                msg.append(prev.module.as_str());
                msg.append("` and module `");
                msg.append(now.module.as_str());
                msg.append("`");
            }
            assert(msg@ == conflict_text(views, i as int));
            return Err(msg);
        }
        assert(!conflict_at(views, i as int));
        i += 1;
    }
    Ok(())
}

proof fn lemma_last_clash(claims: Seq<ClaimView>, claim: ClaimView, n: nat)
    requires
        n <= claims.len(),
    ensures
        -1 <= last_clash(claims, claim, n) < n,
        last_clash(claims, claim, n) >= 0 ==> clash(claims[last_clash(claims, claim, n)], claim),
        forall|j: int|
            last_clash(claims, claim, n) < j < n ==> !clash(#[trigger] claims[j], claim),
    decreases n,
{
    if n > 0 {
        lemma_last_clash(claims, claim, (n - 1) as nat);
    }
}

/// Where no conflict is found, any two claims on one shared entity, but for two
/// of its owner, name the same key and the same fields.
pub proof fn law_claims_agree(claims: Seq<ClaimView>, i: int, j: int)
    requires
        claims_verdict(claims, Ok(())),
        0 <= j < i < claims.len(),
        claims[i].entity == claims[j].entity,
        !(claims[i].own && claims[j].own),
    ensures
        claims[i].pk == claims[j].pk,
        claims[i].fields == claims[j].fields,
{
    lemma_last_clash(claims, claims[i], i as nat);
    assert(!conflict_at(claims, i));
    assert(!clash(claims[j], claims[i]));
}

proof fn lemma_lookup(table: Seq<(Seq<char>, Seq<char>)>, key: Seq<char>)
    ensures
        match lookup(table, key) {
            Some(value) => exists|i: int|
                {
                    &&& 0 <= i < table.len()
                    &&& #[trigger] table[i] == (key, value)
                    &&& forall|j: int| 0 <= j < i ==> (#[trigger] table[j]).0 != key
                },
            None => forall|i: int| 0 <= i < table.len() ==> (#[trigger] table[i]).0 != key,
        },
    decreases table.len(),
{
    if table.len() > 0 {
        if table[0].0 == key {
            assert(table[0] == (key, table[0].1));
        } else {
            let rest = table.drop_first();
            lemma_lookup(rest, key);
            match lookup(rest, key) {
                Some(value) => {
                    let i = choose|i: int|
                        {
                            &&& 0 <= i < rest.len()
                            &&& #[trigger] rest[i] == (key, value)
                            &&& forall|j: int| 0 <= j < i ==> (#[trigger] rest[j]).0 != key
                        };
                    assert(table[i + 1] == (key, value));
                    assert forall|j: int| 0 <= j < i + 1 implies (#[trigger] table[j]).0 != key by {
                        if j > 0 {
                            assert(rest[j - 1] == table[j]);
                        }
                    }
                },
                None => {
                    assert forall|i: int| 0 <= i < table.len() implies (#[trigger] table[i]).0
                        != key by {
                        if i > 0 {
                            assert(rest[i - 1] == table[i]);
                        }
                    }
                },
            }
        }
    }
}

/// The owner of an entity is the one that the table names for it; an entity that
/// the table does not name has none.
pub proof fn law_who_owns_an_entity(table: Seq<(Seq<char>, Seq<char>)>, key: Seq<char>)
    ensures
        lookup(table, key) is Some <==> exists|i: int|
            0 <= i < table.len() && (#[trigger] table[i]).0 == key,
        lookup(table, key) matches Some(value) ==> table.contains((key, value)),
{
    lemma_lookup(table, key);
    match lookup(table, key) {
        Some(value) => {
            let i = choose|i: int|
                {
                    &&& 0 <= i < table.len()
                    &&& #[trigger] table[i] == (key, value)
                    &&& forall|j: int| 0 <= j < i ==> (#[trigger] table[j]).0 != key
                };
            assert(table[i].0 == key);
        },
        None => {},
    }
}

/// What a module claims of a shared entity on a screen: nothing where the entity
/// has no owner.
pub open spec fn claim_of(
    owners: Seq<(Seq<char>, Seq<char>)>,
    module: Seq<char>,
    binding: BindingView,
) -> spec_fn(Seq<char>) -> Option<ClaimView> {
    |entity: Seq<char>|
        if lookup(owners, entity) is Some {
            Some(
                ClaimView {
                    module,
                    own: lookup(owners, entity) == Some(module),
                    entity,
                    pk: if binding.primary_key is Some {
                        binding.primary_key->Some_0
                    } else {
                        Seq::empty()
                    },
                    fields: binding.fields.map_values(|f: FieldView| f.name),
                },
            )
        } else {
            None
        }
}

/// The claims of a module on a screen.
pub open spec fn claims_on(
    owners: Seq<(Seq<char>, Seq<char>)>,
    module: Seq<char>,
) -> spec_fn(ScreenView) -> Seq<ClaimView> {
    |s: ScreenView|
        if s.data_binding is Some {
            s.data_binding->Some_0.entities.filter_map(
                claim_of(owners, module, s.data_binding->Some_0),
            )
        } else {
            Seq::empty()
        }
}

proof fn lemma_binding_claims(
    owners: Seq<(Seq<char>, Seq<char>)>,
    module: Seq<char>,
    binding: BindingView,
    n: nat,
)
    requires
        n <= binding.entities.len(),
    ensures
        binding_claims(owners, module, binding, n) == binding.entities.take(n as int).filter_map(
            claim_of(owners, module, binding),
        ),
    decreases n,
{
    if n > 0 {
        lemma_binding_claims(owners, module, binding, (n - 1) as nat);
        lemma_kept_next(binding.entities, claim_of(owners, module, binding), n - 1);
    }
}

proof fn lemma_screen_claims(
    owners: Seq<(Seq<char>, Seq<char>)>,
    module: Seq<char>,
    screens: Seq<ScreenView>,
    n: nat,
)
    requires
        n <= screens.len(),
    ensures
        screen_claims(owners, module, screens, n) == screens.map_values(
            claims_on(owners, module),
        ).take(n as int).flatten(),
    decreases n,
{
    let all = screens.map_values(claims_on(owners, module));
    if n > 0 {
        lemma_screen_claims(owners, module, screens, (n - 1) as nat);
        lemma_flat_next(all, n - 1);
        match screens[n - 1].data_binding {
            Some(binding) => {
                lemma_binding_claims(owners, module, binding, binding.entities.len());
                assert(binding.entities.take(binding.entities.len() as int) =~= binding.entities);
            },
            None => {
                assert(screen_claims(owners, module, screens, n) =~= all.take(n as int).flatten());
            },
        }
    } else {
        assert(all.take(0) =~= Seq::<Seq<ClaimView>>::empty());
    }
}

/// The claims are those of every module, on every screen of it that is bound to
/// data, of every entity there that is shared.
pub proof fn law_all_claims(
    owners: Seq<(Seq<char>, Seq<char>)>,
    modules: Seq<ModuleView>,
    n: nat,
)
    requires
        n <= modules.len(),
    ensures
        module_claims(owners, modules, n) == modules.map_values(
            |m: ModuleView| m.register.screen.map_values(claims_on(owners, m.name)).flatten(),
        ).take(n as int).flatten(),
    decreases n,
{
    let all = modules.map_values(
        |m: ModuleView| m.register.screen.map_values(claims_on(owners, m.name)).flatten(),
    );
    if n > 0 {
        let m = modules[n - 1];
        law_all_claims(owners, modules, (n - 1) as nat);
        lemma_screen_claims(owners, m.name, m.register.screen, m.register.screen.len());
        let on = m.register.screen.map_values(claims_on(owners, m.name));
        assert(on.take(m.register.screen.len() as int) =~= on);
        lemma_flat_next(all, n - 1);
    } else {
        assert(all.take(0) =~= Seq::<Seq<ClaimView>>::empty());
    }
}

/// The modules agree exactly where any two claims of one entity, other than two
/// of its owner, have one key and one list of fields.
pub proof fn law_when_modules_agree(claims: Seq<ClaimView>, r: Result<(), Seq<char>>)
    requires
        claims_verdict(claims, r),
    ensures
        r is Ok <==> forall|i: int, j: int|
            0 <= i < j < claims.len() && (#[trigger] claims[i]).entity == (
            #[trigger] claims[j]).entity && !(claims[i].own && claims[j].own) ==> claims[i].pk
                == claims[j].pk && claims[i].fields == claims[j].fields,
{
    match r {
        Ok(_) => {
            assert forall|i: int, j: int|
                0 <= i < j < claims.len() && (#[trigger] claims[i]).entity == (
                #[trigger] claims[j]).entity && !(claims[i].own && claims[j].own) implies claims[i].pk
                == claims[j].pk && claims[i].fields == claims[j].fields by {
                law_claims_agree(claims, j, i);
            }
        },
        Err(e) => {
            let j = choose|j: int|
                {
                    &&& 0 <= j < claims.len()
                    &&& #[trigger] conflict_at(claims, j)
                    &&& forall|k: int| 0 <= k < j ==> !#[trigger] conflict_at(claims, k)
                    &&& e == conflict_text(claims, j)
                };
            lemma_last_clash(claims, claims[j], j as nat);
            let i = last_clash(claims, claims[j], j as nat);
            assert(clash(claims[i], claims[j]));
        },
    }
}

/// A conflict is told with the entity, the two modules and, where they differ in
/// it, both keys.
pub proof fn law_what_is_told_of_a_conflict(claims: Seq<ClaimView>, i: int)
    requires
        0 <= i < claims.len(),
        conflict_at(claims, i),
    ensures
        exists|j: int|
            {
                &&& 0 <= j < i
                &&& (#[trigger] claims[j]).entity == claims[i].entity
                &&& claims[j].pk != claims[i].pk ==> conflict_text(claims, i) == "shared entity `"@
                    + claims[i].entity + "` has conflicting primary keys: module `"@
                    + claims[j].module + "` says `"@ + claims[j].pk + "`, but module `"@
                    + claims[i].module + "` says `"@ + claims[i].pk + "`"@
                &&& claims[j].pk == claims[i].pk ==> claims[j].fields != claims[i].fields
                    && conflict_text(claims, i) == "shared entity `"@ + claims[i].entity
                    + "` has conflicting field lists between module `"@ + claims[j].module
                    + "` and module `"@ + claims[i].module + "`"@
            },
{
    lemma_last_clash(claims, claims[i], i as nat);
    let j = last_clash(claims, claims[i], i as nat);
    assert(clash(claims[j], claims[i]));
    assert(claims[j].entity == claims[i].entity);
}

} // verus!
