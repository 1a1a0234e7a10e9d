//! The discovered-reference lists of one collection cycle and the phases
//! that process them once strong reachability is known.
use vstd::prelude::*;
use std::collections::HashSet;
use crate::abi::{ReferenceType, normalized};

verus! {

broadcast use vstd::std_specs::hash::group_hash_axioms;

/// Collector policy that switches discovery off for some strengths.
#[derive(Clone, Copy, Debug, PartialEq, Eq, Structural)]
pub struct ReferenceOptions {
    /// Final references are never discovered.
    pub no_finalizer: bool,
    /// Soft, weak and phantom references are never discovered.
    pub no_reference_types: bool,
}

/// What the active collection knows about objects: the policy flags, the
/// objects found strongly reachable so far, and the objects whose
/// references the active plan leaves for a later collection.
pub struct GcState {
    pub options: ReferenceOptions,
    pub reachable: HashSet<usize>,
    pub deferred: HashSet<usize>,
}

impl GcState {
    /// A collection state in which nothing is reachable or deferred yet.
    pub fn new(options: ReferenceOptions) -> (r: GcState)
        ensures
            r.options == options,
            r.reachable@ == Set::<usize>::empty(),
            r.deferred@ == Set::<usize>::empty(),
    {
        GcState { options, reachable: HashSet::new(), deferred: HashSet::new() }
    }

    /// Records that `object` is strongly reachable.
    pub fn mark_reachable(&mut self, object: usize)
        ensures
            final(self).options == old(self).options,
            final(self).reachable@ == old(self).reachable@.insert(object),
            final(self).deferred@ == old(self).deferred@,
    {
        self.reachable.insert(object);
    }

    /// Records that references to `object` are not processed this cycle.
    pub fn defer(&mut self, object: usize)
        ensures
            final(self).options == old(self).options,
            final(self).reachable@ == old(self).reachable@,
            final(self).deferred@ == old(self).deferred@.insert(object),
    {
        self.deferred.insert(object);
    }

    /// Whether `object` is strongly reachable in the active collection.
    pub fn is_reachable(&self, object: usize) -> (r: bool)
        ensures
            r == self.reachable@.contains(object),
    {
        self.reachable.contains(&object)
    }

    /// Whether the active plan processes a reference to `referent` now.
    pub fn should_process_reference(&self, referent: usize) -> (r: bool)
        ensures
            r == !self.deferred@.contains(referent),
    {
        !self.deferred.contains(&referent)
    }
}

/// The abstract content of the discovered lists: one sequence of
/// (referrer, referent) pairs per strength, and whether discovery is open.
pub struct ReferenceListsView {
    pub soft: Seq<(usize, usize)>,
    pub weak: Seq<(usize, usize)>,
    pub finals: Seq<(usize, usize)>,
    pub phantom: Seq<(usize, usize)>,
    pub allow_discover: bool,
}

impl ReferenceListsView {
    /// The list that a reference of strength `rt` is discovered into.
    pub open spec fn list(self, rt: ReferenceType) -> Seq<(usize, usize)> {
        match normalized(rt) {
            ReferenceType::Soft => self.soft,
            ReferenceType::Final => self.finals,
            ReferenceType::Phantom => self.phantom,
            _ => self.weak,
        }
    }

    /// The lists after `pair` is appended to the list of strength `rt`.
    pub open spec fn add(self, rt: ReferenceType, pair: (usize, usize)) -> ReferenceListsView {
        match normalized(rt) {
            ReferenceType::Soft => ReferenceListsView { soft: self.soft.push(pair), ..self },
            ReferenceType::Final => ReferenceListsView { finals: self.finals.push(pair), ..self },
            ReferenceType::Phantom => ReferenceListsView { phantom: self.phantom.push(pair), ..self },
            _ => ReferenceListsView { weak: self.weak.push(pair), ..self },
        }
    }

    /// Whether `reference` already stands in the final list.
    pub open spec fn is_discovered(self, reference: usize) -> bool {
        exists|i: int| 0 <= i < self.finals.len() && #[trigger] self.finals[i].0 == reference
    }
}

/// The pairs of `s` whose referent is in `reach`, in order.
pub open spec fn reachable_pairs(s: Seq<(usize, usize)>, reach: Set<usize>) -> Seq<(usize, usize)>
    decreases s.len(),
{
    if s.len() == 0 {
        Seq::empty()
    } else {
        let r = reachable_pairs(s.drop_last(), reach);
        if reach.contains(s.last().1) {
            r.push(s.last())
        } else {
            r
        }
    }
}

/// The pairs of `s` whose referent is not in `reach`, in order.
pub open spec fn unreachable_pairs(s: Seq<(usize, usize)>, reach: Set<usize>) -> Seq<(usize, usize)>
    decreases s.len(),
{
    if s.len() == 0 {
        Seq::empty()
    } else {
        let r = unreachable_pairs(s.drop_last(), reach);
        if reach.contains(s.last().1) {
            r
        } else {
            r.push(s.last())
        }
    }
}

/// The referents named by the pairs of `s`.
pub open spec fn referents(s: Seq<(usize, usize)>) -> Set<usize> {
    Set::new(|x: usize| exists|i: int| 0 <= i < s.len() && #[trigger] s[i].1 == x)
}

/// The discovered-reference lists shared by the workers of one cycle.
pub struct DiscoveredLists {
    soft: Vec<(usize, usize)>,
    weak: Vec<(usize, usize)>,
    finals: Vec<(usize, usize)>,
    phantom: Vec<(usize, usize)>,
    allow_discover: bool,
}

impl View for DiscoveredLists {
    type V = ReferenceListsView;

    closed spec fn view(&self) -> ReferenceListsView {
        ReferenceListsView {
            soft: self.soft@,
            weak: self.weak@,
            finals: self.finals@,
            phantom: self.phantom@,
            allow_discover: self.allow_discover,
        }
    }
}

/// What a processing phase decided for each pair it drained.
pub struct ProcessedRefs {
    /// Pairs whose referent is reachable: the reference stays intact.
    pub retained: Vec<(usize, usize)>,
    /// Pairs whose referent is unreachable: the reference is cleared.
    pub cleared: Vec<(usize, usize)>,
    /// Final pairs whose referent was unreachable and is kept alive for
    /// finalization.
    pub resurrected: Vec<(usize, usize)>,
}

/// Appends to `kept` the pairs of `list` whose referent is in `reach`, and
/// to `dropped` the others.
fn partition(
    list: &Vec<(usize, usize)>,
    reach: &HashSet<usize>,
    kept: &mut Vec<(usize, usize)>,
    dropped: &mut Vec<(usize, usize)>,
)
    ensures
        final(kept)@ == old(kept)@ + reachable_pairs(list@, reach@),
        final(dropped)@ == old(dropped)@ + unreachable_pairs(list@, reach@),
{
    let ghost k0 = kept@;
    let ghost d0 = dropped@;
    let mut i: usize = 0;
    while i < list.len()
        invariant
            0 <= i <= list.len(),
            kept@ == k0 + reachable_pairs(list@.take(i as int), reach@),
            dropped@ == d0 + unreachable_pairs(list@.take(i as int), reach@),
        decreases list.len() - i,
    {
        let pair = list[i];
        proof {
            assert(list@.take(i + 1).drop_last() =~= list@.take(i as int));
            assert(list@.take(i + 1).last() == pair);
        }
        if reach.contains(&pair.1) {
            kept.push(pair);
            assert(kept@ =~= k0 + reachable_pairs(list@.take(i + 1), reach@));
        } else {
            dropped.push(pair);
            assert(dropped@ =~= d0 + unreachable_pairs(list@.take(i + 1), reach@));
        }
        i += 1;
    }
    assert(list@.take(list@.len() as int) =~= list@);
}

impl DiscoveredLists {
    /// Empty lists with discovery open.
    pub fn new() -> (r: DiscoveredLists)
        ensures
            r@.soft.len() == 0,
            r@.weak.len() == 0,
            r@.finals.len() == 0,
            r@.phantom.len() == 0,
            r@.allow_discover,
    {
        DiscoveredLists {
            soft: Vec::new(),
            weak: Vec::new(),
            finals: Vec::new(),
            phantom: Vec::new(),
            allow_discover: true,
        }
    }

    /// Whether every list is empty, as it must be when a cycle starts.
    pub fn all_empty(&self) -> (r: bool)
        ensures
            r == (self@.soft.len() == 0 && self@.weak.len() == 0 && self@.finals.len() == 0
                && self@.phantom.len() == 0),
    {
        self.soft.len() == 0 && self.weak.len() == 0 && self.finals.len() == 0
            && self.phantom.len() == 0
    }

    /// Whether new references may be discovered now.
    pub fn allow_discover(&self) -> (r: bool)
        ensures
            r == self@.allow_discover,
    {
        self.allow_discover
    }

    /// Opens discovery, as the collector does when tracing starts.
    pub fn enable_discover(&mut self)
        ensures
            final(self)@ == (ReferenceListsView { allow_discover: true, ..old(self)@ }),
    {
        self.allow_discover = true;
    }

    /// Closes discovery, as the collector does before processing the lists.
    pub fn disable_discover(&mut self)
        ensures
            final(self)@ == (ReferenceListsView { allow_discover: false, ..old(self)@ }),
    {
        self.allow_discover = false;
    }

    /// The list that references of strength `rt` are discovered into.
    pub fn get(&self, rt: ReferenceType) -> (r: &Vec<(usize, usize)>)
        ensures
            r@ == self@.list(rt),
    {
        match rt {
            ReferenceType::Soft => &self.soft,
            ReferenceType::Final => &self.finals,
            ReferenceType::Phantom => &self.phantom,
            _ => &self.weak,
        }
    }

    /// Whether `reference` already stands in the final list.
    pub fn is_discovered(&self, reference: usize) -> (r: bool)
        ensures
            r == self@.is_discovered(reference),
    {
        let mut i: usize = 0;
        while i < self.finals.len()
            invariant
                0 <= i <= self.finals.len(),
                forall|j: int| 0 <= j < i ==> self.finals@[j].0 != reference,
            decreases self.finals.len() - i,
        {
            if self.finals[i].0 == reference {
                assert(self@.finals[i as int].0 == reference);
                return true;
            }
            i += 1;
        }
        false
    }

    /// Appends (`reference`, `referent`) to the list of strength `rt`.
    pub fn add(&mut self, rt: ReferenceType, reference: usize, referent: usize)
        ensures
            final(self)@ == old(self)@.add(rt, (reference, referent)),
    {
        match rt {
            ReferenceType::Soft => self.soft.push((reference, referent)),
            ReferenceType::Final => self.finals.push((reference, referent)),
            ReferenceType::Phantom => self.phantom.push((reference, referent)),
            _ => self.weak.push((reference, referent)),
        }
    }

    /// Drains the soft and weak lists: a pair whose referent is reachable is
    /// retained, any other is cleared.
    pub fn process_weak_refs(&mut self, gc: &GcState) -> (r: ProcessedRefs)
        requires
            !old(self)@.allow_discover,
        ensures
            final(self)@ == (ReferenceListsView {
                soft: Seq::empty(),
                weak: Seq::empty(),
                ..old(self)@
            }),
            r.retained@ == reachable_pairs(old(self)@.soft, gc.reachable@) + reachable_pairs(
                old(self)@.weak,
                gc.reachable@,
            ),
            r.cleared@ == unreachable_pairs(old(self)@.soft, gc.reachable@) + unreachable_pairs(
                old(self)@.weak,
                gc.reachable@,
            ),
            r.resurrected@.len() == 0,
    {
        let mut retained_refs: Vec<(usize, usize)> = Vec::new();
        let mut cleared: Vec<(usize, usize)> = Vec::new();
        partition(&self.soft, &gc.reachable, &mut retained_refs, &mut cleared);
        partition(&self.weak, &gc.reachable, &mut retained_refs, &mut cleared);
        self.soft = Vec::new();
        self.weak = Vec::new();
        proof {
            assert(self@.soft =~= Seq::<(usize, usize)>::empty());
            assert(self@.weak =~= Seq::<(usize, usize)>::empty());
        }
        ProcessedRefs { retained: retained_refs, cleared, resurrected: Vec::new() }
    }

    /// Drains the final list: a pair whose referent is unreachable has its
    /// referent resurrected (made reachable, queued for finalization), any
    /// other is retained.
    pub fn process_final_refs(&mut self, gc: &mut GcState) -> (r: ProcessedRefs)
        requires
            !old(self)@.allow_discover,
        ensures
            final(self)@ == (ReferenceListsView { finals: Seq::empty(), ..old(self)@ }),
            r.retained@ == reachable_pairs(old(self)@.finals, old(gc).reachable@),
            r.resurrected@ == unreachable_pairs(old(self)@.finals, old(gc).reachable@),
            r.cleared@.len() == 0,
            final(gc).reachable@ == old(gc).reachable@.union(referents(old(self)@.finals)),
            final(gc).options == old(gc).options,
            final(gc).deferred@ == old(gc).deferred@,
    {
        let mut retained_refs: Vec<(usize, usize)> = Vec::new();
        let mut resurrected: Vec<(usize, usize)> = Vec::new();
        partition(&self.finals, &gc.reachable, &mut retained_refs, &mut resurrected);
        let ghost reach0 = gc.reachable@;
        let ghost finals = self.finals@;
        let mut i: usize = 0;
        while i < self.finals.len()
            invariant
                0 <= i <= self.finals.len(),
                finals == self.finals@,
                gc.reachable@ == reach0.union(referents(finals.take(i as int))),
                gc.options == old(gc).options,
                gc.deferred@ == old(gc).deferred@,
            decreases self.finals.len() - i,
        {
            let referent = self.finals[i].1;
            gc.reachable.insert(referent);
            proof {
                let t = finals.take(i + 1);
                assert(referents(t) =~= referents(finals.take(i as int)).insert(referent)) by {
                    assert(t[i as int].1 == referent);
                    assert forall|x: usize| referents(t).contains(x) implies referents(
                        finals.take(i as int),
                    ).insert(referent).contains(x) by {
                        let j = choose|j: int| 0 <= j < t.len() && #[trigger] t[j].1 == x;
                        if j < i {
                            assert(finals.take(i as int)[j].1 == x);
                        }
                    }
                    assert forall|x: usize| referents(finals.take(i as int)).contains(x)
                        implies referents(t).contains(x) by {
                        let j = choose|j: int|
                            0 <= j < finals.take(i as int).len() && #[trigger] finals.take(
                                i as int,
                            )[j].1 == x;
                        assert(t[j].1 == x);
                    }
                }
                assert(gc.reachable@ =~= reach0.union(referents(t)));
            }
            i += 1;
        }
        assert(finals.take(finals.len() as int) =~= finals);
        self.finals = Vec::new();
        assert(self@.finals =~= Seq::<(usize, usize)>::empty());
        ProcessedRefs { retained: retained_refs, cleared: Vec::new(), resurrected }
    }

    /// Drains the phantom list: a pair whose referent is reachable is
    /// retained, any other is cleared.
    pub fn process_phantom_refs(&mut self, gc: &GcState) -> (r: ProcessedRefs)
        requires
            !old(self)@.allow_discover,
        ensures
            final(self)@ == (ReferenceListsView { phantom: Seq::empty(), ..old(self)@ }),
            r.retained@ == reachable_pairs(old(self)@.phantom, gc.reachable@),
            r.cleared@ == unreachable_pairs(old(self)@.phantom, gc.reachable@),
            r.resurrected@.len() == 0,
    {
        let mut retained_refs: Vec<(usize, usize)> = Vec::new();
        let mut cleared: Vec<(usize, usize)> = Vec::new();
        partition(&self.phantom, &gc.reachable, &mut retained_refs, &mut cleared);
        self.phantom = Vec::new();
        assert(self@.phantom =~= Seq::<(usize, usize)>::empty());
        ProcessedRefs { retained: retained_refs, cleared, resurrected: Vec::new() }
    }
}

} // verus!
