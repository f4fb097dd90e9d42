//! Approval chains: a name belongs to one chain only.
use crate::composer::decl::{ApprovalChainDecl, ChainView, ModuleData, ModuleView};
use crate::lists::lemma_flat_next;
use crate::text::same_text;
use vstd::prelude::*;

verus! {

pub open spec fn chain_views(chains: Seq<ApprovalChainDecl>) -> Seq<ChainView> {
    chains.map_values(|c: ApprovalChainDecl| c@)
}

/// The chains of the first `n` modules, in order.
pub open spec fn all_chains(modules: Seq<ModuleView>, n: nat) -> Seq<ChainView>
    decreases n,
{
    if n == 0 {
        Seq::empty()
    } else {
        all_chains(modules, (n - 1) as nat) + modules[n - 1].register.approval_chain
    }
}

/// Chain `i` bears the name of an earlier chain.
pub open spec fn repeats(chains: Seq<ChainView>, i: int) -> bool {
    exists|j: int| 0 <= j < i && (#[trigger] chains[j]).name == chains[i].name
}

pub open spec fn repeat_text(chain: ChainView) -> Seq<char> {
    "approval chain name `"@ + chain.name
        + "` is declared in more than one module -- rename or merge"@
}

/// The chains of all modules, or a report of the first repeated name.
pub open spec fn chains_verdict(
    all: Seq<ChainView>,
    r: Result<Seq<ChainView>, Seq<char>>,
) -> bool {
    match r {
        Ok(chains) => {
            &&& chains == all
            &&& forall|i: int| 0 <= i < all.len() ==> !#[trigger] repeats(all, i)
        },
        Err(e) => exists|i: int|
            {
                &&& 0 <= i < all.len()
                &&& #[trigger] repeats(all, i)
                &&& forall|k: int| 0 <= k < i ==> !#[trigger] repeats(all, k)
                &&& e == repeat_text(all[i])
            },
    }
}

/// The chains of the modules, one after the other.
fn collect_chains(modules: &Vec<ModuleData>) -> (out: Vec<ApprovalChainDecl>)
    ensures
        chain_views(out@) == all_chains(
            modules@.map_values(|m: ModuleData| m@),
            modules@.len(),
        ),
{
    let ghost views = modules@.map_values(|m: ModuleData| m@);
    let mut out: Vec<ApprovalChainDecl> = Vec::new();
    let mut m: usize = 0;
    assert(chain_views(out@) =~= Seq::<ChainView>::empty());
    while m < modules.len()
        invariant
            m <= modules@.len(),
            views == modules@.map_values(|m: ModuleData| m@),
            chain_views(out@) == all_chains(views, m as nat),
        decreases modules@.len() - m,
    {
        let chains: &Vec<ApprovalChainDecl> = &modules[m].register.approval_chain;
        let ghost start = chain_views(out@);
        let mut i: usize = 0;
        assert(start + chain_views(chains@).take(0) =~= start);
        while i < chains.len()
            invariant
                i <= chains@.len(),
                chain_views(out@) == start + chain_views(chains@).take(i as int),
            decreases chains@.len() - i,
        {
            let ghost before = out@;
            out.push(chains[i].clone());
            i += 1;
            assert(chain_views(out@) =~= start + chain_views(chains@).take(i as int)) by {
                assert(chain_views(out@) =~= chain_views(before).push(chains@[i as int - 1]@));
                assert(chain_views(chains@).take(i as int) =~= chain_views(chains@).take(
                    i as int - 1,
                ).push(chains@[i as int - 1]@));
            }
        }
        assert(chain_views(chains@).take(i as int) =~= views[m as int].register.approval_chain);
        m += 1;
    }
    out
}

/// Merges the approval chains of all modules; their names must be unique.
pub fn merge_chains(modules: &Vec<ModuleData>) -> (r: Result<Vec<ApprovalChainDecl>, String>)
    ensures
        chains_verdict(
            all_chains(modules@.map_values(|m: ModuleData| m@), modules@.len()),
            match r {
                Ok(chains) => Ok(chain_views(chains@)),
                Err(e) => Err(e@),
            },
        ),
{
    let chains: Vec<ApprovalChainDecl> = collect_chains(modules);
    let ghost all = chain_views(chains@);
    let mut i: usize = 0;
    while i < chains.len()
        invariant
            i <= chains@.len(),
            all == chain_views(chains@),
            all == all_chains(modules@.map_values(|m: ModuleData| m@), modules@.len()),
            forall|k: int| 0 <= k < i ==> !#[trigger] repeats(all, k),
        decreases chains@.len() - i,
    {
        let mut j: usize = 0;
        while j < i
            invariant
                j <= i < chains@.len(),
                all == chain_views(chains@),
                all == all_chains(modules@.map_values(|m: ModuleData| m@), modules@.len()),
                forall|k: int| 0 <= k < i ==> !#[trigger] repeats(all, k),
                forall|k: int| 0 <= k < j ==> (#[trigger] all[k]).name != all[i as int].name,
            decreases i - j,
        {
            assert(all[j as int] == chains@[j as int]@ && all[i as int] == chains@[i as int]@);
            if same_text(chains[j].name.as_str(), chains[i].name.as_str()) {
                let mut msg: String = "approval chain name `".to_owned();
                msg.append(chains[i].name.as_str());
                msg.append("` is declared in more than one module -- rename or merge");
                assert(repeats(all, i as int));
                assert(msg@ == repeat_text(all[i as int]));
                return Err(msg);
            }
            j += 1;
        }
        assert(!repeats(all, i as int));
        i += 1;
    }
    Ok(chains)
}

/// The merged chains bear pairwise different names.
pub proof fn law_chain_names_unique(all: Seq<ChainView>, chains: Seq<ChainView>, i: int, j: int)
    requires
        chains_verdict(all, Ok(chains)),
        0 <= j < i < chains.len(),
    ensures
        chains[i].name != chains[j].name,
{
    assert(!repeats(all, i));
}

/// The approval chains of all modules are theirs one after the other; none is
/// left out.
pub proof fn law_all_chains(modules: Seq<ModuleView>, n: nat)
    requires
        n <= modules.len(),
    ensures
        all_chains(modules, n) == modules.map_values(
            |m: ModuleView| m.register.approval_chain,
        ).take(n as int).flatten(),
    decreases n,
{
    let all = modules.map_values(|m: ModuleView| m.register.approval_chain);
    if n > 0 {
        law_all_chains(modules, (n - 1) as nat);
        lemma_flat_next(all, n - 1);
    } else {
        assert(all.take(0) =~= Seq::<Seq<ChainView>>::empty());
    }
}

/// Approval chains merge exactly where no two bear one name, and then none is
/// lost; otherwise the name that comes back first is told.
pub proof fn law_when_chains_merge(all: Seq<ChainView>, r: Result<Seq<ChainView>, Seq<char>>)
    requires
        chains_verdict(all, r),
    ensures
        r is Ok <==> forall|i: int, j: int|
            0 <= i < j < all.len() ==> (#[trigger] all[i]).name != (#[trigger] all[j]).name,
        r matches Ok(chains) ==> chains == all,
        r matches Err(e) ==> exists|i: int, j: int|
            {
                &&& 0 <= i < j < all.len()
                &&& (#[trigger] all[i]).name == (#[trigger] all[j]).name
                &&& e == "approval chain name `"@ + all[j].name
                    + "` is declared in more than one module -- rename or merge"@
                &&& forall|a: int, b: int|
                    0 <= a < b < j ==> (#[trigger] all[a]).name != (#[trigger] all[b]).name
            },
{
    match r {
        Ok(_) => {
            assert forall|i: int, j: int| 0 <= i < j < all.len() implies (#[trigger] all[i]).name
                != (#[trigger] all[j]).name by {
                assert(!repeats(all, j));
            }
        },
        Err(e) => {
            let j = choose|j: int|
                {
                    &&& 0 <= j < all.len()
                    &&& #[trigger] repeats(all, j)
                    &&& forall|k: int| 0 <= k < j ==> !#[trigger] repeats(all, k)
                    &&& e == repeat_text(all[j])
                };
            let i = choose|i: int| 0 <= i < j && (#[trigger] all[i]).name == all[j].name;
            assert(all[i].name == all[j].name);
            assert forall|a: int, b: int| 0 <= a < b < j implies (#[trigger] all[a]).name != (
            #[trigger] all[b]).name by {
                assert(!repeats(all, b));
            }
        },
    }
}

} // verus!
