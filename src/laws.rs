//! Properties that relate several operations of the library.
use vstd::prelude::*;
use crate::abi::{Oop, ReferenceType};
use crate::code_cache::{CodeCacheView, has_nmethod, index_of, roots_of, without};
use crate::object_scanning::{
    discovers, lists_after_discovery, lists_after_scan, scan_visits,
};
use crate::reference_glue::{
    GcState, ReferenceListsView, reachable_pairs, referents, unreachable_pairs,
};
use crate::slot::Heap;

verus! {

/// How many pairs of `s` have `referrer` as their referrer.
pub open spec fn referrer_count(s: Seq<(usize, usize)>, referrer: usize) -> nat
    decreases s.len(),
{
    if s.len() == 0 {
        0
    } else {
        referrer_count(s.drop_last(), referrer) + if s.last().0 == referrer {
            1nat
        } else {
            0nat
        }
    }
}

proof fn lemma_referrer_count_absent(s: Seq<(usize, usize)>, referrer: usize)
    requires
        forall|i: int| 0 <= i < s.len() ==> (#[trigger] s[i]).0 != referrer,
    ensures
        referrer_count(s, referrer) == 0,
    decreases s.len(),
{
    if s.len() > 0 {
        assert(s.last() == s[s.len() - 1]);
        lemma_referrer_count_absent(s.drop_last(), referrer);
    }
}

/// Idempotence of scanning: a second scan of an object, made with a
/// visitor of the same kind against the lists the first scan left, hands
/// out the same slots as the first.
pub proof fn lemma_scan_idempotent(
    heap: Heap,
    gc: GcState,
    lists: ReferenceListsView,
    oop: Oop,
    discover: bool,
)
    ensures
        scan_visits(heap, gc, lists_after_scan(heap, gc, lists, oop, discover), oop, discover)
            == scan_visits(heap, gc, lists, oop, discover),
{
}

/// Discovery exclusivity: while discovery is closed, neither a discovery
/// attempt nor a scan changes the discovered lists.
pub proof fn lemma_no_discovery_while_closed(
    heap: Heap,
    gc: GcState,
    lists: ReferenceListsView,
    oop: Oop,
    rt: ReferenceType,
    discover: bool,
)
    requires
        !lists.allow_discover,
    ensures
        !discovers(heap, gc, lists, oop, rt),
        lists_after_discovery(heap, gc, lists, oop, rt) == lists,
        lists_after_scan(heap, gc, lists, oop, discover) == lists,
{
}

/// Final-reference dedup: discovering the same final reference twice in a
/// cycle leaves it on the final list once if the first attempt took it,
/// and not at all otherwise; the second attempt never takes it.
pub proof fn lemma_final_discovery_dedup(
    heap: Heap,
    gc: GcState,
    lists: ReferenceListsView,
    oop: Oop,
)
    requires
        !lists.is_discovered(oop.address),
    ensures
        ({
            let once = lists_after_discovery(heap, gc, lists, oop, ReferenceType::Final);
            let twice = lists_after_discovery(heap, gc, once, oop, ReferenceType::Final);
            &&& !discovers(heap, gc, once, oop, ReferenceType::Final)
            &&& twice == once
            &&& referrer_count(twice.finals, oop.address) == if discovers(
                heap,
                gc,
                lists,
                oop,
                ReferenceType::Final,
            ) {
                1nat
            } else {
                0nat
            }
        }),
{
    let once = lists_after_discovery(heap, gc, lists, oop, ReferenceType::Final);
    assert forall|i: int| 0 <= i < lists.finals.len() implies (
    #[trigger] lists.finals[i]).0 != oop.address by {}
    lemma_referrer_count_absent(lists.finals, oop.address);
    if discovers(heap, gc, lists, oop, ReferenceType::Final) {
        let n = lists.finals.len() as int;
        assert(once.finals[n].0 == oop.address);
        assert(once.is_discovered(oop.address));
        assert(once.finals.drop_last() =~= lists.finals);
    }
}

proof fn lemma_reachable_pairs_keeps(s: Seq<(usize, usize)>, reach: Set<usize>, p: (usize, usize))
    requires
        s.contains(p),
        reach.contains(p.1),
    ensures
        reachable_pairs(s, reach).contains(p),
        !unreachable_pairs(s, reach).contains(p),
    decreases s.len(),
{
    let i = choose|i: int| 0 <= i < s.len() && s[i] == p;
    if s.last() == p {
        assert(reachable_pairs(s, reach).last() == p);
    } else {
        assert(s.drop_last()[i] == p);
        lemma_reachable_pairs_keeps(s.drop_last(), reach, p);
        let r = reachable_pairs(s.drop_last(), reach);
        let j = choose|j: int| 0 <= j < r.len() && r[j] == p;
        if reach.contains(s.last().1) {
            assert(r.push(s.last())[j] == p);
        }
    }
    lemma_unreachable_pairs_subset(s, reach, p);
}

proof fn lemma_unreachable_pairs_subset(s: Seq<(usize, usize)>, reach: Set<usize>, p: (usize, usize))
    requires
        reach.contains(p.1),
    ensures
        !unreachable_pairs(s, reach).contains(p),
    decreases s.len(),
{
    if s.len() > 0 {
        lemma_unreachable_pairs_subset(s.drop_last(), reach, p);
        let r = unreachable_pairs(s.drop_last(), reach);
        if !reach.contains(s.last().1) {
            assert forall|j: int| 0 <= j < r.push(s.last()).len() implies r.push(s.last())[j]
                != p by {
                if j < r.len() {
                    assert(r.push(s.last())[j] == r[j]);
                }
            }
        }
    }
}

/// Resurrection ordering: the final phase makes every referent of a
/// discovered final reference reachable, so a reference processed after it
/// (phantom processing, which runs next) whose referent is such an object
/// is retained and not cleared.
pub proof fn lemma_final_resurrection_precedes_phantom(
    finals: Seq<(usize, usize)>,
    later: Seq<(usize, usize)>,
    reach: Set<usize>,
    p: (usize, usize),
)
    requires
        later.contains(p),
        referents(finals).contains(p.1),
    ensures
        reach.union(referents(finals)).contains(p.1),
        reachable_pairs(later, reach.union(referents(finals))).contains(p),
        !unreachable_pairs(later, reach.union(referents(finals))).contains(p),
{
    lemma_reachable_pairs_keeps(later, reach.union(referents(finals)), p);
}

/// Registering an nmethod that is not registered yet and then
/// unregistering it brings the root count back to its earlier value.
pub proof fn lemma_register_unregister_restores_size(
    v: CodeCacheView,
    nm: usize,
    roots: Seq<usize>,
)
    requires
        v.wf(),
        !v.contains(nm),
    ensures
        v.registered(nm, roots).unregistered(nm).size == v.size,
        v.registered(nm, roots).unregistered(nm).nursery == v.nursery,
        v.registered(nm, roots).unregistered(nm).mature == v.mature,
{
    let u = v.unregistered(nm);
    assert(u == v);
    if roots.len() > 0 {
        let w = v.registered(nm, roots);
        let n = v.nursery.len() as int;
        assert(w.nursery[n].0 == nm);
        assert(has_nmethod(w.nursery, nm));
        let i = index_of(w.nursery, nm);
        if i != n {
            assert(w.nursery[i] == v.nursery[i]);
            assert(has_nmethod(v.nursery, nm));
        }
        assert(roots_of(w.nursery, nm) == roots);
        assert(without(w.nursery, nm) =~= v.nursery);
    }
}

} // verus!
