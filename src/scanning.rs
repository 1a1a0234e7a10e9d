//! Root reporting: the bridge that takes filled root buffers from the VM
//! and hands back fresh ones, the consumers the roots go to, and the
//! root-scanning entry points of the binding.
use vstd::prelude::*;
use crate::abi::{KlassID, Oop};
use crate::code_cache::CodeCacheRoots;
use crate::object_scanning::{
    SlotVisitor, lists_after_scan, scan_visits, scannable,
};
use crate::reference_glue::{DiscoveredLists, GcState};
use crate::slot::{Heap, OpenJDKSlot};

verus! {

/// The fixed number of slots a root buffer holds.
pub const WORK_PACKET_CAPACITY: usize = 4096;

/// The concatenation of a sequence of batches, in order.
pub open spec fn concat(batches: Seq<Seq<OpenJDKSlot>>) -> Seq<OpenJDKSlot>
    decreases batches.len(),
{
    if batches.len() == 0 {
        Seq::empty()
    } else {
        concat(batches.drop_last()) + batches.last()
    }
}

/// The contents of a sequence of buffers.
pub open spec fn batches_view(v: Seq<Vec<OpenJDKSlot>>) -> Seq<Seq<OpenJDKSlot>> {
    v.map_values(|b: Vec<OpenJDKSlot>| b@)
}

/// Each batch is non-empty and at most `cap` long, and every batch but the
/// last is full.
pub open spec fn batched(batches: Seq<Seq<OpenJDKSlot>>, cap: nat) -> bool {
    forall|i: int|
        0 <= i < batches.len() ==> {
            &&& 0 < (#[trigger] batches[i]).len() <= cap
            &&& i < batches.len() - 1 ==> batches[i].len() == cap
        }
}

/// A buffer handed to the VM to fill with root slots.
pub struct NewBuffer {
    pub buf: Vec<OpenJDKSlot>,
    pub capacity: usize,
}

impl NewBuffer {
    /// An empty buffer of the fixed capacity.
    pub fn fresh() -> (r: NewBuffer)
        ensures
            r.buf@.len() == 0,
            r.capacity == WORK_PACKET_CAPACITY,
    {
        NewBuffer { buf: Vec::with_capacity(WORK_PACKET_CAPACITY), capacity: WORK_PACKET_CAPACITY }
    }
}

/// The collector side of parallel root scanning: each delivered buffer
/// becomes one unit of root-processing work.
pub struct RootsWorkFactory {
    pub packets: Vec<Vec<OpenJDKSlot>>,
}

impl RootsWorkFactory {
    pub fn new() -> (r: RootsWorkFactory)
        ensures
            r.packets@.len() == 0,
    {
        RootsWorkFactory { packets: Vec::new() }
    }

    /// Turns `slots` into one unit of work.
    pub fn create_process_roots_work(&mut self, slots: Vec<OpenJDKSlot>)
        ensures
            batches_view(final(self).packets@) == batches_view(old(self).packets@).push(slots@),
    {
        self.packets.push(slots);
        assert(batches_view(self.packets@) =~= batches_view(old(self).packets@).push(slots@));
    }
}

/// The collector side of a single-threaded traversal: delivered roots go
/// straight to the traversal, batch by batch.
pub struct ObjectGraphTraversal {
    pub reported: Vec<Vec<OpenJDKSlot>>,
}

impl ObjectGraphTraversal {
    pub fn new() -> (r: ObjectGraphTraversal)
        ensures
            r.reported@.len() == 0,
    {
        ObjectGraphTraversal { reported: Vec::new() }
    }

    /// Hands one batch of root slots to the traversal.
    pub fn report_roots(&mut self, slots: Vec<OpenJDKSlot>)
        ensures
            batches_view(final(self).reported@) == batches_view(old(self).reported@).push(slots@),
    {
        self.reported.push(slots);
        assert(batches_view(self.reported@) =~= batches_view(old(self).reported@).push(slots@));
    }
}

/// One step of the bridge for parallel root scanning: a delivered buffer
/// (`None` on the first call) becomes one unit of work, and a fresh empty
/// buffer of the fixed capacity is handed back.
pub fn report_slots_and_renew_buffer(
    delivered: Option<Vec<OpenJDKSlot>>,
    factory: &mut RootsWorkFactory,
) -> (r: NewBuffer)
    ensures
        batches_view(final(factory).packets@) == match delivered {
            Some(b) => batches_view(old(factory).packets@).push(b@),
            None => batches_view(old(factory).packets@),
        },
        concat(batches_view(final(factory).packets@)) == concat(
            batches_view(old(factory).packets@),
        ) + match delivered {
            Some(b) => b@,
            None => Seq::empty(),
        },
        r.buf@.len() == 0,
        r.capacity == WORK_PACKET_CAPACITY,
{
    match delivered {
        Some(buf) => {
            factory.create_process_roots_work(buf);
            assert(batches_view(factory.packets@).drop_last() == batches_view(
                old(factory).packets@,
            ));
        },
        None => {
            assert(concat(batches_view(factory.packets@)) + Seq::<OpenJDKSlot>::empty()
                =~= concat(batches_view(factory.packets@)));
        },
    }
    NewBuffer::fresh()
}

/// One step of the bridge for a single-threaded traversal: a delivered
/// buffer goes to the traversal, and a fresh empty buffer is handed back.
pub fn object_graph_traversal_report_roots(
    delivered: Option<Vec<OpenJDKSlot>>,
    closure: &mut ObjectGraphTraversal,
) -> (r: NewBuffer)
    ensures
        batches_view(final(closure).reported@) == match delivered {
            Some(b) => batches_view(old(closure).reported@).push(b@),
            None => batches_view(old(closure).reported@),
        },
        r.buf@.len() == 0,
        r.capacity == WORK_PACKET_CAPACITY,
{
    match delivered {
        Some(buf) => closure.report_roots(buf),
        None => {},
    }
    NewBuffer::fresh()
}

/// Reports `roots` to `closure` in batches: every batch but the last holds
/// exactly `WORK_PACKET_CAPACITY` slots, and no batch is empty.
pub fn report_in_batches(roots: &Vec<usize>, closure: &mut ObjectGraphTraversal)
    ensures
        batches_view(final(closure).reported@) == batches_view(old(closure).reported@)
            + batches_view(final(closure).reported@).skip(old(closure).reported@.len() as int),
        concat(
            batches_view(final(closure).reported@).skip(old(closure).reported@.len() as int),
        ) == root_slots(roots@),
        batched(
            batches_view(final(closure).reported@).skip(old(closure).reported@.len() as int),
            WORK_PACKET_CAPACITY as nat,
        ),
{
    let ghost r0 = batches_view(closure.reported@);
    let ghost n0 = closure.reported@.len() as int;
    let mut slots: Vec<OpenJDKSlot> = Vec::with_capacity(WORK_PACKET_CAPACITY);
    let mut i: usize = 0;
    while i < roots.len()
        invariant
            0 <= i <= roots.len(),
            n0 == r0.len(),
            batches_view(closure.reported@).take(n0) == r0,
            batches_view(closure.reported@).len() >= n0,
            concat(batches_view(closure.reported@).skip(n0)) + slots@ == root_slots(
                roots@.take(i as int),
            ),
            slots@.len() < WORK_PACKET_CAPACITY,
            forall|j: int|
                n0 <= j < batches_view(closure.reported@).len() ==> (#[trigger] batches_view(
                    closure.reported@,
                )[j]).len() == WORK_PACKET_CAPACITY,
        decreases roots.len() - i,
    {
        let ghost before = batches_view(closure.reported@);
        slots.push(OpenJDKSlot { addr: roots[i] });
        assert(root_slots(roots@.take(i + 1)) =~= root_slots(roots@.take(i as int)).push(
            OpenJDKSlot { addr: roots@[i as int] },
        ));
        if slots.len() >= WORK_PACKET_CAPACITY {
            let ghost full = slots@;
            closure.report_roots(slots);
            slots = Vec::with_capacity(WORK_PACKET_CAPACITY);
            proof {
                let after = batches_view(closure.reported@);
                assert(after.skip(n0).drop_last() =~= before.skip(n0));
                assert(after.skip(n0).last() == full);
                assert(after.take(n0) =~= r0);
            }
        }
        i += 1;
    }
    assert(roots@.take(roots@.len() as int) =~= roots@);
    let ghost before = batches_view(closure.reported@);
    if slots.len() > 0 {
        closure.report_roots(slots);
        proof {
            let after = batches_view(closure.reported@);
            assert(after.skip(n0).drop_last() =~= before.skip(n0));
            assert(after.take(n0) =~= r0);
        }
    } else {
        assert(concat(before.skip(n0)) + Seq::<OpenJDKSlot>::empty() =~= concat(before.skip(n0)));
    }
    let ghost fin = batches_view(closure.reported@);
    assert(fin =~= r0 + fin.skip(n0));
}

/// The slots at the given root addresses, in order.
pub open spec fn root_slots(roots: Seq<usize>) -> Seq<OpenJDKSlot> {
    roots.map_values(|a: usize| OpenJDKSlot { addr: a })
}

/// The sources of VM-specific roots, each scanned by its own work packet
/// in a parallel collection.
#[derive(Clone, Copy, Debug, PartialEq, Eq, Structural)]
pub enum VmRoots {
    Universe,
    JniHandles,
    ObjectSynchronizer,
    Management,
    JvmtiExport,
    AotLoader,
    SystemDictionary,
    CodeCache,
    StringTable,
    ClassLoaderDataGraph,
    WeakProcessor,
    VmThread,
}

/// The binding's scanning entry points.
pub struct VMScanning {}

impl VMScanning {
    /// Scans one object; see [`crate::object_scanning::scan_object`].
    pub fn scan_object(
        object: &Oop,
        heap: &Heap,
        gc: &GcState,
        lists: &mut DiscoveredLists,
        slot_visitor: &mut SlotVisitor,
    )
        requires
            scannable(*heap, *object),
        ensures
            final(slot_visitor).visited@ == old(slot_visitor).visited@ + scan_visits(
                *heap,
                *gc,
                old(lists)@,
                *object,
                old(slot_visitor).discover_references,
            ),
            final(lists)@ == lists_after_scan(
                *heap,
                *gc,
                old(lists)@,
                *object,
                old(slot_visitor).discover_references,
            ),
            final(slot_visitor).discover_references == old(slot_visitor).discover_references,
    {
        crate::object_scanning::scan_object(object, heap, gc, lists, slot_visitor);
    }

    /// The work packets a parallel collection schedules for VM-specific
    /// roots, in scheduling order.
    pub fn scan_vm_specific_roots() -> (r: Vec<VmRoots>)
        ensures
            r@ == seq![
                VmRoots::Universe,
                VmRoots::JniHandles,
                VmRoots::ObjectSynchronizer,
                VmRoots::Management,
                VmRoots::JvmtiExport,
                VmRoots::AotLoader,
                VmRoots::SystemDictionary,
                VmRoots::CodeCache,
                VmRoots::StringTable,
                VmRoots::ClassLoaderDataGraph,
                VmRoots::WeakProcessor,
                VmRoots::VmThread,
            ],
    {
        let r = vec![
            VmRoots::Universe,
            VmRoots::JniHandles,
            VmRoots::ObjectSynchronizer,
            VmRoots::Management,
            VmRoots::JvmtiExport,
            VmRoots::AotLoader,
            VmRoots::SystemDictionary,
            VmRoots::CodeCache,
            VmRoots::StringTable,
            VmRoots::ClassLoaderDataGraph,
            VmRoots::WeakProcessor,
            VmRoots::VmThread,
        ];
        assert(r@ =~= seq![
            VmRoots::Universe,
            VmRoots::JniHandles,
            VmRoots::ObjectSynchronizer,
            VmRoots::Management,
            VmRoots::JvmtiExport,
            VmRoots::AotLoader,
            VmRoots::SystemDictionary,
            VmRoots::CodeCache,
            VmRoots::StringTable,
            VmRoots::ClassLoaderDataGraph,
            VmRoots::WeakProcessor,
            VmRoots::VmThread,
        ]);
        r
    }
}

} // verus!
