//! The registry of roots embedded in compiled code: for each registered
//! nmethod, the addresses of the reference slots inside it, split into a
//! nursery part (registered since the last root scan) and a mature part.
use vstd::prelude::*;
use crate::scanning::{
    ObjectGraphTraversal, WORK_PACKET_CAPACITY, batched, batches_view, concat, report_in_batches,
    root_slots,
};

verus! {

/// The root slots of one nmethod.
pub struct NmethodRoots {
    pub nmethod: usize,
    pub roots: Vec<usize>,
}

/// The (nmethod, roots) pairs of a sequence of registrations.
pub open spec fn entries_view(v: Seq<NmethodRoots>) -> Seq<(usize, Seq<usize>)> {
    v.map_values(|e: NmethodRoots| (e.nmethod, e.roots@))
}

/// All roots of the entries, entry after entry.
pub open spec fn all_roots(es: Seq<(usize, Seq<usize>)>) -> Seq<usize>
    decreases es.len(),
{
    if es.len() == 0 {
        Seq::empty()
    } else {
        all_roots(es.drop_last()) + es.last().1
    }
}

pub open spec fn has_nmethod(es: Seq<(usize, Seq<usize>)>, nm: usize) -> bool {
    exists|i: int| 0 <= i < es.len() && (#[trigger] es[i]).0 == nm
}

pub open spec fn index_of(es: Seq<(usize, Seq<usize>)>, nm: usize) -> int {
    choose|i: int| 0 <= i < es.len() && (#[trigger] es[i]).0 == nm
}

/// The entries without the one of `nm`.
pub open spec fn without(es: Seq<(usize, Seq<usize>)>, nm: usize) -> Seq<(usize, Seq<usize>)> {
    if has_nmethod(es, nm) {
        es.remove(index_of(es, nm))
    } else {
        es
    }
}

/// The roots registered for `nm`; none if it is not registered.
pub open spec fn roots_of(es: Seq<(usize, Seq<usize>)>, nm: usize) -> Seq<usize> {
    if has_nmethod(es, nm) {
        es[index_of(es, nm)].1
    } else {
        Seq::empty()
    }
}

/// No nmethod has two entries.
pub open spec fn unique(es: Seq<(usize, Seq<usize>)>) -> bool {
    forall|i: int, j: int|
        0 <= i < es.len() && 0 <= j < es.len() && i != j ==> (#[trigger] es[i]).0 != (
        #[trigger] es[j]).0
}

/// No nmethod has an entry in both sequences.
pub open spec fn disjoint(a: Seq<(usize, Seq<usize>)>, b: Seq<(usize, Seq<usize>)>) -> bool {
    forall|i: int, j: int|
        0 <= i < a.len() && 0 <= j < b.len() ==> (#[trigger] a[i]).0 != (#[trigger] b[j]).0
}

/// The abstract content of the registry.
pub struct CodeCacheView {
    pub nursery: Seq<(usize, Seq<usize>)>,
    pub mature: Seq<(usize, Seq<usize>)>,
    pub size: nat,
}

impl CodeCacheView {
    /// Each nmethod has at most one entry, and the size counter is the
    /// number of roots of all entries.
    pub open spec fn wf(self) -> bool {
        &&& unique(self.nursery)
        &&& unique(self.mature)
        &&& disjoint(self.nursery, self.mature)
        &&& self.size == all_roots(self.nursery).len() + all_roots(self.mature).len()
    }

    pub open spec fn contains(self, nm: usize) -> bool {
        has_nmethod(self.nursery, nm) || has_nmethod(self.mature, nm)
    }

    /// The registry after `nm` is unregistered.
    pub open spec fn unregistered(self, nm: usize) -> CodeCacheView {
        CodeCacheView {
            nursery: without(self.nursery, nm),
            mature: without(self.mature, nm),
            size: (self.size - roots_of(self.nursery, nm).len() - roots_of(
                self.mature,
                nm,
            ).len()) as nat,
        }
    }

    /// The registry after `nm` is registered with `roots`: nothing changes
    /// when no root was reported; otherwise the new entry replaces any
    /// earlier one and joins the nursery.
    pub open spec fn registered(self, nm: usize, roots: Seq<usize>) -> CodeCacheView {
        if roots.len() == 0 {
            self
        } else {
            let u = self.unregistered(nm);
            CodeCacheView {
                nursery: u.nursery.push((nm, roots)),
                mature: u.mature,
                size: u.size + roots.len(),
            }
        }
    }
}

pub proof fn lemma_all_roots_append(a: Seq<(usize, Seq<usize>)>, b: Seq<(usize, Seq<usize>)>)
    ensures
        all_roots(a + b) == all_roots(a) + all_roots(b),
    decreases b.len(),
{
    if b.len() == 0 {
        assert(a + b =~= a);
        assert(all_roots(a) + all_roots(b) =~= all_roots(a));
    } else {
        assert((a + b).drop_last() =~= a + b.drop_last());
        assert((a + b).last() == b.last());
        lemma_all_roots_append(a, b.drop_last());
        assert(all_roots(a + b) =~= all_roots(a) + all_roots(b));
    }
}

proof fn lemma_all_roots_remove(es: Seq<(usize, Seq<usize>)>, i: int)
    requires
        0 <= i < es.len(),
    ensures
        all_roots(es.remove(i)).len() + es[i].1.len() == all_roots(es).len(),
{
    let a = es.take(i);
    let one = seq![es[i]];
    let c = es.skip(i + 1);
    assert(es =~= a + one + c);
    assert(es.remove(i) =~= a + c);
    lemma_all_roots_append(a + one, c);
    lemma_all_roots_append(a, one);
    lemma_all_roots_append(a, c);
    assert(one.drop_last() =~= Seq::<(usize, Seq<usize>)>::empty());
    assert(all_roots(one.drop_last()) == Seq::<usize>::empty());
    assert(all_roots(one) =~= es[i].1);
}

/// Facts about removing the entry of `nm` from a sequence without
/// duplicates.
proof fn lemma_without(es: Seq<(usize, Seq<usize>)>, nm: usize)
    requires
        unique(es),
    ensures
        unique(without(es, nm)),
        !has_nmethod(without(es, nm), nm),
        forall|k: usize| has_nmethod(without(es, nm), k) ==> has_nmethod(es, k),
        all_roots(without(es, nm)).len() + roots_of(es, nm).len() == all_roots(es).len(),
{
    if has_nmethod(es, nm) {
        let i = index_of(es, nm);
        let w = es.remove(i);
        lemma_all_roots_remove(es, i);
        assert forall|k: usize| has_nmethod(w, k) implies has_nmethod(es, k) by {
            let j = choose|j: int| 0 <= j < w.len() && (#[trigger] w[j]).0 == k;
            if j < i {
                assert(es[j] == w[j]);
            } else {
                assert(es[j + 1] == w[j]);
            }
        }
        assert forall|a: int, b: int|
            0 <= a < w.len() && 0 <= b < w.len() && a != b implies (#[trigger] w[a]).0 != (
            #[trigger] w[b]).0 by {
            let ea = if a < i {
                a
            } else {
                a + 1
            };
            let eb = if b < i {
                b
            } else {
                b + 1
            };
            assert(w[a] == es[ea]);
            assert(w[b] == es[eb]);
        }
        if has_nmethod(w, nm) {
            let j = choose|j: int| 0 <= j < w.len() && (#[trigger] w[j]).0 == nm;
            let ej = if j < i {
                j
            } else {
                j + 1
            };
            assert(w[j] == es[ej]);
        }
    }
}

/// The index of the entry of `nm` in a sequence without duplicates.
proof fn lemma_index_of(es: Seq<(usize, Seq<usize>)>, nm: usize, i: int)
    requires
        unique(es),
        0 <= i < es.len(),
        es[i].0 == nm,
    ensures
        has_nmethod(es, nm),
        index_of(es, nm) == i,
{
    assert(has_nmethod(es, nm));
}

/// The root slots reported by the thread that is registering an nmethod,
/// collected before the registration.
pub struct NmethodOopBuffer {
    pub slots: Vec<usize>,
}

impl NmethodOopBuffer {
    pub fn new() -> (r: NmethodOopBuffer)
        ensures
            r.slots@.len() == 0,
    {
        NmethodOopBuffer { slots: Vec::new() }
    }

    /// Records one root slot of the nmethod about to be registered.
    pub fn add_nmethod_oop(&mut self, addr: usize)
        ensures
            final(self).slots@ == old(self).slots@.push(addr),
    {
        self.slots.push(addr);
    }
}

/// The registry of code-cache roots, guarded as one unit with its counter.
pub struct CodeCacheRoots {
    nursery: Vec<NmethodRoots>,
    mature: Vec<NmethodRoots>,
    size: usize,
}

impl View for CodeCacheRoots {
    type V = CodeCacheView;

    closed spec fn view(&self) -> CodeCacheView {
        CodeCacheView {
            nursery: entries_view(self.nursery@),
            mature: entries_view(self.mature@),
            size: self.size as nat,
        }
    }
}

/// Removes the entry of `nm` from `v`, returning how many roots it had.
fn remove_nmethod(v: &mut Vec<NmethodRoots>, nm: usize) -> (removed: usize)
    requires
        unique(entries_view(old(v)@)),
    ensures
        entries_view(final(v)@) == without(entries_view(old(v)@), nm),
        removed == roots_of(entries_view(old(v)@), nm).len(),
{
    let ghost es = entries_view(v@);
    let mut i: usize = 0;
    while i < v.len()
        invariant
            0 <= i <= v.len(),
            es == entries_view(v@),
            unique(es),
            v@ == old(v)@,
            forall|j: int| 0 <= j < i ==> (#[trigger] es[j]).0 != nm,
        decreases v.len() - i,
    {
        if v[i].nmethod == nm {
            proof {
                lemma_index_of(es, nm, i as int);
            }
            let e = v.remove(i);
            assert(entries_view(v@) =~= es.remove(i as int));
            return e.roots.len();
        }
        i += 1;
    }
    assert(!has_nmethod(es, nm));
    0
}

/// Appends to `out` every root of the entries of `v`, entry after entry.
fn append_roots(v: &Vec<NmethodRoots>, out: &mut Vec<usize>)
    ensures
        final(out)@ == old(out)@ + all_roots(entries_view(v@)),
{
    let ghost o0 = out@;
    let ghost es = entries_view(v@);
    let mut i: usize = 0;
    while i < v.len()
        invariant
            0 <= i <= v.len(),
            es == entries_view(v@),
            out@ == o0 + all_roots(es.take(i as int)),
        decreases v.len() - i,
    {
        let roots = &v[i].roots;
        let ghost mid = out@;
        let mut j: usize = 0;
        while j < roots.len()
            invariant
                0 <= j <= roots.len(),
                out@ == mid + roots@.take(j as int),
            decreases roots.len() - j,
        {
            out.push(roots[j]);
            assert(roots@.take(j + 1) =~= roots@.take(j as int).push(roots@[j as int]));
            j += 1;
        }
        proof {
            assert(roots@.take(roots@.len() as int) =~= roots@);
            assert(es.take(i + 1).drop_last() =~= es.take(i as int));
            assert(es.take(i + 1).last() == es[i as int]);
        }
        i += 1;
    }
    assert(es.take(v@.len() as int) =~= es);
}

impl CodeCacheRoots {
    /// The registry's invariant: its abstract content is well formed (see
    /// [`CodeCacheView::wf`]) and the counter is the view's size.
    pub closed spec fn wf(&self) -> bool {
        self@.wf() && self.size as nat == self@.size
    }

    /// An empty registry.
    pub fn new() -> (r: CodeCacheRoots)
        ensures
            r.wf(),
            r@.wf(),
            r@.nursery.len() == 0,
            r@.mature.len() == 0,
            r@.size == 0,
    {
        let r = CodeCacheRoots { nursery: Vec::new(), mature: Vec::new(), size: 0 };
        assert(r@.nursery =~= Seq::<(usize, Seq<usize>)>::empty());
        assert(r@.mature =~= Seq::<(usize, Seq<usize>)>::empty());
        r
    }

    /// The number of roots of all registered nmethods.
    pub fn size(&self) -> (r: usize)
        requires
            self.wf(),
        ensures
            r == self@.size,
    {
        self.size
    }

    /// Forgets the roots of `nm`, if it is registered.
    pub fn unregister_nmethod(&mut self, nm: usize)
        requires
            old(self).wf(),
        ensures
            final(self).wf(),
            final(self)@.wf(),
            final(self)@ == old(self)@.unregistered(nm),
    {
        let ghost v0 = self@;
        proof {
            lemma_without(v0.nursery, nm);
            lemma_without(v0.mature, nm);
        }
        let a = remove_nmethod(&mut self.nursery, nm);
        let b = remove_nmethod(&mut self.mature, nm);
        self.size = self.size - a - b;
        proof {
            let v = self@;
            assert forall|i: int, j: int|
                0 <= i < v.nursery.len() && 0 <= j < v.mature.len() implies (
                #[trigger] v.nursery[i]).0 != (#[trigger] v.mature[j]).0 by {
                assert(has_nmethod(v.nursery, v.nursery[i].0));
                assert(has_nmethod(v.mature, v.mature[j].0));
                if v.nursery[i].0 == v.mature[j].0 {
                    let k = v.nursery[i].0;
                    let x = choose|x: int| 0 <= x < v0.nursery.len() && (#[trigger] v0.nursery[x]).0 == k;
                    let y = choose|y: int| 0 <= y < v0.mature.len() && (#[trigger] v0.mature[y]).0 == k;
                    assert(v0.nursery[x].0 != v0.mature[y].0);
                }
            }
        }
    }

    /// Registers `nm` with the roots collected in `pending`, which is left
    /// empty. An nmethod with no reported root is not registered; an
    /// nmethod registered again replaces its earlier roots.
    pub fn register_nmethod(&mut self, pending: &mut NmethodOopBuffer, nm: usize)
        requires
            old(self).wf(),
            old(self)@.size + old(pending).slots@.len() <= usize::MAX,
        ensures
            final(self).wf(),
            final(self)@.wf(),
            final(self)@ == old(self)@.registered(nm, old(pending).slots@),
            final(pending).slots@.len() == 0,
    {
        if pending.slots.len() == 0 {
            return;
        }
        let mut slots: Vec<usize> = Vec::new();
        slots.append(&mut pending.slots);
        let ghost v0 = self@;
        self.unregister_nmethod(nm);
        proof {
            lemma_without(v0.nursery, nm);
            lemma_without(v0.mature, nm);
        }
        let ghost v1 = self@;
        let n = slots.len();
        self.size = self.size + n;
        self.nursery.push(NmethodRoots { nmethod: nm, roots: slots });
        proof {
            let v = self@;
            assert(v.nursery =~= v1.nursery.push((nm, slots@)));
            assert(v.nursery.drop_last() =~= v1.nursery);
            assert forall|i: int, j: int|
                0 <= i < v.nursery.len() && 0 <= j < v.nursery.len() && i != j implies (
                #[trigger] v.nursery[i]).0 != (#[trigger] v.nursery[j]).0 by {
                if i == v1.nursery.len() {
                    assert(v.nursery[j] == v1.nursery[j]);
                } else if j == v1.nursery.len() {
                    assert(v.nursery[i] == v1.nursery[i]);
                }
            }
            assert forall|i: int, j: int|
                0 <= i < v.nursery.len() && 0 <= j < v.mature.len() implies (
                #[trigger] v.nursery[i]).0 != (#[trigger] v.mature[j]).0 by {
                if i == v1.nursery.len() {
                    assert(has_nmethod(v1.mature, v.mature[j].0));
                } else {
                    assert(v.nursery[i] == v1.nursery[i]);
                }
            }
        }
    }

    /// Reports the code-cache roots to a single-threaded traversal, in
    /// batches of at most `WORK_PACKET_CAPACITY` slots: the mature roots
    /// first, unless this is a nursery collection, then the nursery
    /// roots. The nursery entries then join the mature ones. Returns the
    /// numbers of nursery and of mature roots reported.
    pub fn scan_roots(&mut self, is_current_gc_nursery: bool, closure: &mut ObjectGraphTraversal) -> (r: (
        usize,
        usize,
    ))
        requires
            old(self).wf(),
        ensures
            final(self).wf(),
            final(self)@.wf(),
            final(self)@ == (CodeCacheView {
                nursery: Seq::empty(),
                mature: old(self)@.mature + old(self)@.nursery,
                size: old(self)@.size,
            }),
            batches_view(final(closure).reported@) == batches_view(old(closure).reported@)
                + batches_view(final(closure).reported@).skip(old(closure).reported@.len() as int),
            concat(
                batches_view(final(closure).reported@).skip(old(closure).reported@.len() as int),
            ) == root_slots(
                if is_current_gc_nursery {
                    all_roots(old(self)@.nursery)
                } else {
                    all_roots(old(self)@.mature) + all_roots(old(self)@.nursery)
                },
            ),
            batched(
                batches_view(final(closure).reported@).skip(old(closure).reported@.len() as int),
                WORK_PACKET_CAPACITY as nat,
            ),
            r.0 == all_roots(old(self)@.nursery).len(),
            r.1 == if is_current_gc_nursery {
                0
            } else {
                all_roots(old(self)@.mature).len()
            },
    {
        let ghost v0 = self@;
        let mut emitted: Vec<usize> = Vec::new();
        let mut mature_slots: usize = 0;
        // Mature roots are scanned only in full-heap collections.
        if !is_current_gc_nursery {
            append_roots(&self.mature, &mut emitted);
            mature_slots = emitted.len();
        }
        let before = emitted.len();
        append_roots(&self.nursery, &mut emitted);
        let nursery_slots = emitted.len() - before;
        report_in_batches(&emitted, closure);
        self.mature.append(&mut self.nursery);
        proof {
            let v = self@;
            assert(emitted@ =~= if is_current_gc_nursery {
                all_roots(v0.nursery)
            } else {
                all_roots(v0.mature) + all_roots(v0.nursery)
            });
            assert(v.nursery =~= Seq::<(usize, Seq<usize>)>::empty());
            assert(v.mature =~= v0.mature + v0.nursery);
            lemma_all_roots_append(v0.mature, v0.nursery);
            assert(all_roots(v.nursery) =~= Seq::<usize>::empty());
            assert forall|i: int, j: int|
                0 <= i < v.mature.len() && 0 <= j < v.mature.len() && i != j implies (
                #[trigger] v.mature[i]).0 != (#[trigger] v.mature[j]).0 by {
                let m = v0.mature.len() as int;
                if i < m && j >= m {
                    assert(v.mature[j] == v0.nursery[j - m]);
                    assert(v0.mature[i].0 != v0.nursery[j - m].0);
                } else if i >= m && j < m {
                    assert(v.mature[i] == v0.nursery[i - m]);
                    assert(v0.mature[j].0 != v0.nursery[i - m].0);
                } else if i >= m && j >= m {
                    assert(v.mature[i] == v0.nursery[i - m]);
                    assert(v.mature[j] == v0.nursery[j - m]);
                }
            }
        }
        (nursery_slots, mature_slots)
    }
}

} // verus!
