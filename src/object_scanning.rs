//! The traversal dispatcher: enumerates the reference slots of an object
//! by its kind, and routes reference objects through discovery.
use vstd::prelude::*;
use vstd::arithmetic::mul::{lemma_mul_inequality, lemma_mul_is_distributive_add_other_way};
use crate::abi::{KlassID, Oop, OopMapBlock, ReferenceType, SlotEncoding, VmLayout, normalized};
use crate::field_map::{
    FieldMapEntry, block_entry, entry_fits, entry_slots, entries_slots, field_map,
    instance_entries, oop_fits, reference_entries,
};
use crate::reference_glue::{DiscoveredLists, GcState, ReferenceListsView, ReferenceOptions};
use crate::slot::{Heap, OpenJDKSlot, slot_bytes};

verus! {

/// A visitor that records, in order, every slot it is handed.
pub struct SlotVisitor {
    pub visited: Vec<OpenJDKSlot>,
    /// Whether reference objects met by this visitor may be discovered.
    pub discover_references: bool,
}

impl SlotVisitor {
    /// A visitor that has seen no slot yet.
    pub fn new(discover_references: bool) -> (r: SlotVisitor)
        ensures
            r.visited@.len() == 0,
            r.discover_references == discover_references,
    {
        SlotVisitor { visited: Vec::new(), discover_references }
    }

    pub fn visit_slot(&mut self, slot: OpenJDKSlot)
        ensures
            final(self).visited@ == old(self).visited@.push(slot),
            final(self).discover_references == old(self).discover_references,
    {
        self.visited.push(slot);
    }

    pub fn should_discover_references(&self) -> (r: bool)
        ensures
            r == self.discover_references,
    {
        self.discover_references
    }
}

/// Whether a reference of strength `rt` is eligible for discovery under
/// the policy flags, unless discovery is disabled for this visit.
pub open spec fn should_discover_refs_spec(
    rt: ReferenceType,
    disable_discovery: bool,
    options: ReferenceOptions,
) -> bool {
    let rt = normalized(rt);
    &&& !disable_discovery
    &&& !(options.no_finalizer && rt == ReferenceType::Final)
    &&& !(options.no_reference_types && rt != ReferenceType::Final)
}

/// The slot of the referent field of a reference object.
pub open spec fn referent_slot(oop: Oop, layout: VmLayout) -> OpenJDKSlot {
    OpenJDKSlot { addr: (oop.address + layout.referent_offset) as usize }
}

/// The slot of the discovered-link field of a reference object.
pub open spec fn discovered_slot(oop: Oop, layout: VmLayout) -> OpenJDKSlot {
    OpenJDKSlot { addr: (oop.address + layout.discovered_offset) as usize }
}

/// Whether discovery takes a reference object: discovery is open, the
/// referent is non-null, not reachable, processed by the active plan now,
/// and, for a final reference, the referrer is not listed yet.
pub open spec fn discovers(
    heap: Heap,
    gc: GcState,
    lists: ReferenceListsView,
    oop: Oop,
    rt: ReferenceType,
) -> bool {
    &&& lists.allow_discover
    &&& heap.load_spec(referent_slot(oop, heap.layout)) matches Some(referent)
    &&& !gc.reachable@.contains(referent)
    &&& !gc.deferred@.contains(referent)
    &&& !(rt == ReferenceType::Final && lists.is_discovered(oop.address))
}

/// The lists after a discovery attempt on a reference object.
pub open spec fn lists_after_discovery(
    heap: Heap,
    gc: GcState,
    lists: ReferenceListsView,
    oop: Oop,
    rt: ReferenceType,
) -> ReferenceListsView {
    if discovers(heap, gc, lists, oop, rt) {
        lists.add(rt, (oop.address, heap.load_spec(referent_slot(oop, heap.layout))->0))
    } else {
        lists
    }
}

/// Whether scanning `oop` with a visitor that allows discovery when
/// `discover` holds puts it on a discovered list.
pub open spec fn ref_is_discovered(
    heap: Heap,
    gc: GcState,
    lists: ReferenceListsView,
    oop: Oop,
    discover: bool,
) -> bool {
    let rt = oop.klass.reference_type;
    &&& oop.kind() == Some(KlassID::InstanceRef)
    &&& should_discover_refs_spec(rt, !discover, gc.options)
    &&& discovers(heap, gc, lists, oop, rt)
}

/// Whether scanning `oop` with a visitor that allows discovery when
/// `discover` holds takes the discovery path: it is a reference object whose
/// strength is eligible for discovery. Otherwise a reference object falls
/// back to strong visits of its referent and discovered-link fields.
pub open spec fn takes_discovery_path(gc: GcState, oop: Oop, discover: bool) -> bool {
    &&& oop.kind() == Some(KlassID::InstanceRef)
    &&& should_discover_refs_spec(oop.klass.reference_type, !discover, gc.options)
}

/// The slots a scan hands to the visitor: those of the field map, except
/// that a reference object on the discovery path leaves out its referent
/// and discovered-link fields, whether it is then discovered or skipped.
pub open spec fn scan_slots(oop: Oop, layout: VmLayout, discovery_path: bool) -> Seq<
    OpenJDKSlot,
> {
    let sb = slot_bytes(layout.encoding);
    if discovery_path {
        entries_slots(oop.address, instance_entries(oop.klass), sb)
    } else {
        entries_slots(oop.address, field_map(oop, layout), sb)
    }
}

/// The slots a scan of `oop` hands to a visitor that allows discovery
/// when `discover` holds, made while the discovered lists are `lists`.
pub open spec fn scan_visits(
    heap: Heap,
    gc: GcState,
    lists: ReferenceListsView,
    oop: Oop,
    discover: bool,
) -> Seq<OpenJDKSlot> {
    scan_slots(oop, heap.layout, takes_discovery_path(gc, oop, discover))
}

/// The lists after scanning `oop`.
pub open spec fn lists_after_scan(
    heap: Heap,
    gc: GcState,
    lists: ReferenceListsView,
    oop: Oop,
    discover: bool,
) -> ReferenceListsView {
    if ref_is_discovered(heap, gc, lists, oop, discover) {
        lists.add(
            oop.klass.reference_type,
            (oop.address, heap.load_spec(referent_slot(oop, heap.layout))->0),
        )
    } else {
        lists
    }
}

/// What an object needs to be scanned: a valid kind tag, a field map
/// inside the address space, and a strength if it is a reference object.
pub open spec fn scannable(heap: Heap, oop: Oop) -> bool {
    &&& heap.wf()
    &&& oop.kind().is_some()
    &&& oop_fits(oop, heap.layout)
    &&& oop.kind() == Some(KlassID::InstanceRef) ==> oop.klass.reference_type
        != ReferenceType::NotReference
}

/// Every instance entry of the object lies within the address space.
pub open spec fn instance_fits(oop: Oop, layout: VmLayout) -> bool {
    forall|i: int|
        0 <= i < instance_entries(oop.klass).len() ==> entry_fits(
            oop.address,
            #[trigger] instance_entries(oop.klass)[i],
            slot_bytes(layout.encoding),
        )
}

pub proof fn lemma_entries_slots_append(
    addr: usize,
    a: Seq<FieldMapEntry>,
    b: Seq<FieldMapEntry>,
    sb: nat,
)
    ensures
        entries_slots(addr, a + b, sb) == entries_slots(addr, a, sb) + entries_slots(addr, b, sb),
    decreases b.len(),
{
    if b.len() == 0 {
        assert(a + b =~= a);
        assert(entries_slots(addr, a, sb) + entries_slots(addr, b, sb) =~= entries_slots(
            addr,
            a,
            sb,
        ));
    } else {
        assert((a + b).drop_last() =~= a + b.drop_last());
        assert((a + b).last() == b.last());
        lemma_entries_slots_append(addr, a, b.drop_last(), sb);
        assert(entries_slots(addr, a + b, sb) =~= entries_slots(addr, a, sb) + entries_slots(
            addr,
            b,
            sb,
        ));
    }
}

proof fn lemma_entries_slots_one(addr: usize, es: Seq<FieldMapEntry>, sb: nat)
    requires
        es.len() == 1,
    ensures
        entries_slots(addr, es, sb) == entry_slots(addr, es[0], sb),
{
    assert(es.drop_last() =~= Seq::<FieldMapEntry>::empty());
    assert(entries_slots(addr, es.drop_last(), sb) == Seq::<OpenJDKSlot>::empty());
    assert(entries_slots(addr, es, sb) =~= entry_slots(addr, es[0], sb));
}

/// The parts of a field map that the per-kind walks visit lie within the
/// address space.
proof fn lemma_fits_parts(oop: Oop, layout: VmLayout)
    requires
        oop_fits(oop, layout),
        oop.kind() == Some(KlassID::Instance) || oop.kind() == Some(
            KlassID::InstanceClassLoader,
        ) || oop.kind() == Some(KlassID::InstanceMirror) || oop.kind() == Some(
            KlassID::InstanceRef,
        ),
    ensures
        instance_fits(oop, layout),
        oop.kind() == Some(KlassID::InstanceMirror) ==> entry_fits(
            oop.address,
            field_map(oop, layout).last(),
            slot_bytes(layout.encoding),
        ),
        oop.kind() == Some(KlassID::InstanceRef) ==> {
            &&& entry_fits(
                oop.address,
                reference_entries(layout)[0],
                slot_bytes(layout.encoding),
            )
            &&& entry_fits(
                oop.address,
                reference_entries(layout)[1],
                slot_bytes(layout.encoding),
            )
        },
{
    let ie = instance_entries(oop.klass);
    let fm = field_map(oop, layout);
    assert forall|i: int| 0 <= i < ie.len() implies entry_fits(
        oop.address,
        #[trigger] ie[i],
        slot_bytes(layout.encoding),
    ) by {
        assert(fm[i] == ie[i]);
    }
    if oop.kind() == Some(KlassID::InstanceRef) {
        assert(fm[ie.len() as int] == reference_entries(layout)[0]);
        assert(fm[ie.len() as int + 1] == reference_entries(layout)[1]);
    }
    if oop.kind() == Some(KlassID::InstanceMirror) {
        assert(fm[fm.len() - 1] == fm.last());
    }
}

/// Visits the slots of one entry of the object at `addr`, in ascending
/// address order.
fn visit_entry(addr: usize, e: FieldMapEntry, enc: SlotEncoding, closure: &mut SlotVisitor)
    requires
        entry_fits(addr, e, slot_bytes(enc)),
    ensures
        final(closure).visited@ == old(closure).visited@ + entry_slots(addr, e, slot_bytes(enc)),
        final(closure).discover_references == old(closure).discover_references,
{
    let ghost v0 = closure.visited@;
    let ghost sb = slot_bytes(enc);
    let step = enc.slot_bytes();
    let start = addr + e.offset;
    let mut i: usize = 0;
    while i < e.count
        invariant
            0 <= i <= e.count,
            step == sb,
            start == addr + e.offset,
            entry_fits(addr, e, sb),
            closure.visited@ == v0 + entry_slots(addr, e, sb).take(i as int),
            closure.discover_references == old(closure).discover_references,
        decreases e.count - i,
    {
        proof {
            lemma_mul_inequality(i as int, e.count as int, step as int);
        }
        let slot = OpenJDKSlot { addr: start + i * step };
        closure.visit_slot(slot);
        proof {
            assert(entry_slots(addr, e, sb).take(i + 1) =~= entry_slots(addr, e, sb).take(
                i as int,
            ).push(slot));
        }
        i += 1;
    }
    assert(entry_slots(addr, e, sb).take(e.count as int) =~= entry_slots(addr, e, sb));
}

impl OopMapBlock {
    /// Visits the slots of this block of the object `oop`.
    pub fn oop_iterate(&self, oop: &Oop, layout: &VmLayout, closure: &mut SlotVisitor)
        requires
            entry_fits(oop.address, block_entry(*self), slot_bytes(layout.encoding)),
        ensures
            final(closure).visited@ == old(closure).visited@ + entry_slots(
                oop.address,
                block_entry(*self),
                slot_bytes(layout.encoding),
            ),
            final(closure).discover_references == old(closure).discover_references,
    {
        let e = FieldMapEntry { offset: self.offset as usize, count: self.count as usize };
        visit_entry(oop.address, e, layout.encoding, closure);
    }
}

/// Ordinary instances.
pub struct InstanceKlass;

impl InstanceKlass {
    /// Visits the slots of every oop-map block of the object, in order.
    pub fn oop_iterate(oop: &Oop, layout: &VmLayout, closure: &mut SlotVisitor)
        requires
            instance_fits(*oop, *layout),
        ensures
            final(closure).visited@ == old(closure).visited@ + entries_slots(
                oop.address,
                instance_entries(oop.klass),
                slot_bytes(layout.encoding),
            ),
            final(closure).discover_references == old(closure).discover_references,
    {
        let ghost v0 = closure.visited@;
        let ghost sb = slot_bytes(layout.encoding);
        let ghost ie = instance_entries(oop.klass);
        let maps = &oop.klass.nonstatic_oop_maps;
        let mut i: usize = 0;
        while i < maps.len()
            invariant
                0 <= i <= maps.len(),
                maps@ == oop.klass.nonstatic_oop_maps@,
                ie == instance_entries(oop.klass),
                sb == slot_bytes(layout.encoding),
                instance_fits(*oop, *layout),
                closure.visited@ == v0 + entries_slots(oop.address, ie.take(i as int), sb),
                closure.discover_references == old(closure).discover_references,
            decreases maps.len() - i,
        {
            assert(ie[i as int] == block_entry(maps@[i as int]));
            let ghost before = closure.visited@;
            maps[i].oop_iterate(oop, layout, closure);
            proof {
                assert(closure.visited@ == before + entry_slots(oop.address, ie[i as int], sb));
                assert(ie.take(i + 1).drop_last() =~= ie.take(i as int));
                assert(ie.take(i + 1).last() == ie[i as int]);
                assert(entries_slots(oop.address, ie.take(i + 1), sb) == entries_slots(
                    oop.address,
                    ie.take(i as int),
                    sb,
                ) + entry_slots(oop.address, ie[i as int], sb));
                assert(closure.visited@ =~= v0 + entries_slots(oop.address, ie.take(i + 1), sb));
            }
            i += 1;
        }
        assert(ie.take(maps.len() as int) =~= ie);
    }
}

/// Instances of `java.lang.ClassLoader`: scanned as ordinary instances.
pub struct InstanceClassLoaderKlass;

impl InstanceClassLoaderKlass {
    pub fn oop_iterate(oop: &Oop, layout: &VmLayout, closure: &mut SlotVisitor)
        requires
            instance_fits(*oop, *layout),
        ensures
            final(closure).visited@ == old(closure).visited@ + entries_slots(
                oop.address,
                instance_entries(oop.klass),
                slot_bytes(layout.encoding),
            ),
            final(closure).discover_references == old(closure).discover_references,
    {
        InstanceKlass::oop_iterate(oop, layout, closure);
    }
}

/// Class mirrors (`java.lang.Class` instances), which also hold the
/// static fields of the class they describe.
pub struct InstanceMirrorKlass;

impl InstanceMirrorKlass {
    /// Visits the instance fields, then the static reference fields.
    pub fn oop_iterate(oop: &Oop, layout: &VmLayout, closure: &mut SlotVisitor)
        requires
            oop.kind() == Some(KlassID::InstanceMirror),
            oop_fits(*oop, *layout),
        ensures
            final(closure).visited@ == old(closure).visited@ + entries_slots(
                oop.address,
                field_map(*oop, *layout),
                slot_bytes(layout.encoding),
            ),
            final(closure).discover_references == old(closure).discover_references,
    {
        proof {
            lemma_fits_parts(*oop, *layout);
        }
        InstanceKlass::oop_iterate(oop, layout, closure);
        let statics = FieldMapEntry {
            offset: layout.static_field_offset,
            count: oop.static_oop_field_count,
        };
        assert(field_map(*oop, *layout) == instance_entries(oop.klass).push(statics));
        visit_entry(oop.address, statics, layout.encoding, closure);
        assert(instance_entries(oop.klass).push(statics).drop_last() =~= instance_entries(
            oop.klass,
        ));
    }
}

/// Arrays of references.
pub struct ObjArrayKlass;

impl ObjArrayKlass {
    /// Visits every element slot, from index 0 upwards.
    pub fn oop_iterate(oop: &Oop, layout: &VmLayout, closure: &mut SlotVisitor)
        requires
            oop.kind() == Some(KlassID::ObjArray),
            oop_fits(*oop, *layout),
        ensures
            final(closure).visited@ == old(closure).visited@ + entries_slots(
                oop.address,
                field_map(*oop, *layout),
                slot_bytes(layout.encoding),
            ),
            final(closure).discover_references == old(closure).discover_references,
    {
        let data = FieldMapEntry { offset: layout.array_base_offset, count: oop.array_length };
        assert(field_map(*oop, *layout)[0] == data);
        visit_entry(oop.address, data, layout.encoding, closure);
        proof {
            lemma_entries_slots_one(
                oop.address,
                field_map(*oop, *layout),
                slot_bytes(layout.encoding),
            );
        }
    }
}

/// Arrays of primitives: they hold no reference, so nothing is visited.
pub struct TypeArrayKlass;

impl TypeArrayKlass {
    pub fn oop_iterate(_oop: &Oop, _layout: &VmLayout, closure: &mut SlotVisitor)
        ensures
            final(closure).visited@ == old(closure).visited@,
            final(closure).discover_references == old(closure).discover_references,
    {
    }
}

/// Instances of `java.lang.ref.Reference` subclasses.
pub struct InstanceRefKlass;

impl InstanceRefKlass {
    /// The slot of the referent field.
    pub fn referent_address(oop: &Oop, layout: &VmLayout) -> (r: OpenJDKSlot)
        requires
            oop.address + layout.referent_offset <= usize::MAX,
        ensures
            r == referent_slot(*oop, *layout),
    {
        OpenJDKSlot { addr: oop.address + layout.referent_offset }
    }

    /// The slot of the discovered-link field.
    pub fn discovered_address(oop: &Oop, layout: &VmLayout) -> (r: OpenJDKSlot)
        requires
            oop.address + layout.discovered_offset <= usize::MAX,
        ensures
            r == discovered_slot(*oop, *layout),
    {
        OpenJDKSlot { addr: oop.address + layout.discovered_offset }
    }

    /// Whether a reference of strength `rt` may be discovered: never while
    /// discovery is disabled, never a final one under `no_finalizer`, and
    /// never a soft, weak or phantom one under `no_reference_types`.
    pub fn should_discover_refs(
        rt: ReferenceType,
        disable_discovery: bool,
        options: &ReferenceOptions,
    ) -> (r: bool)
        ensures
            r == should_discover_refs_spec(rt, disable_discovery, *options),
    {
        let mut rt = rt;
        if rt == ReferenceType::Other {
            rt = ReferenceType::Weak;
        }
        if disable_discovery {
            return false;
        }
        if options.no_finalizer && rt == ReferenceType::Final {
            return false;
        }
        if options.no_reference_types && rt != ReferenceType::Final {
            return false;
        }
        true
    }

    /// Visits the referent field and then the discovered-link field as
    /// ordinary strong edges.
    pub fn process_ref_as_strong(oop: &Oop, layout: &VmLayout, closure: &mut SlotVisitor)
        requires
            entry_fits(oop.address, reference_entries(*layout)[0], slot_bytes(layout.encoding)),
            entry_fits(oop.address, reference_entries(*layout)[1], slot_bytes(layout.encoding)),
        ensures
            final(closure).visited@ == old(closure).visited@ + entries_slots(
                oop.address,
                reference_entries(*layout),
                slot_bytes(layout.encoding),
            ),
            final(closure).discover_references == old(closure).discover_references,
    {
        let ghost sb = slot_bytes(layout.encoding);
        let referent_addr = Self::referent_address(oop, layout);
        closure.visit_slot(referent_addr);
        let discovered_addr = Self::discovered_address(oop, layout);
        closure.visit_slot(discovered_addr);
        proof {
            let re = reference_entries(*layout);
            assert(re.drop_last() =~= seq![re[0]]);
            lemma_entries_slots_one(oop.address, re.drop_last(), sb);
            assert(entry_slots(oop.address, re[0], sb) =~= seq![referent_addr]);
            assert(entry_slots(oop.address, re[1], sb) =~= seq![discovered_addr]);
            assert(entries_slots(oop.address, re, sb) =~= seq![referent_addr, discovered_addr]);
        }
    }

    /// Tries to put the reference object `oop` of strength `rt` on the
    /// discovered list of its strength. It is skipped (and `false`
    /// returned) while discovery is closed, when its referent is null,
    /// reachable or deferred by the plan, and when a final reference is
    /// already listed.
    pub fn discover_reference(
        oop: &Oop,
        rt: ReferenceType,
        heap: &Heap,
        gc: &GcState,
        lists: &mut DiscoveredLists,
    ) -> (r: bool)
        requires
            heap.wf(),
            oop.address + heap.layout.referent_offset <= usize::MAX,
        ensures
            r == discovers(*heap, *gc, old(lists)@, *oop, rt),
            final(lists)@ == lists_after_discovery(*heap, *gc, old(lists)@, *oop, rt),
    {
        // New references are not discovered while the lists are processed.
        if !lists.allow_discover() {
            return false;
        }
        let addr = Self::referent_address(oop, &heap.layout);
        let referent = match addr.load(heap) {
            Some(referent) => referent,
            None => return false,
        };
        // A reachable referent needs no discovery.
        if gc.is_reachable(referent) {
            return false;
        }
        if !gc.should_process_reference(referent) {
            return false;
        }
        if rt == ReferenceType::Final && lists.is_discovered(oop.address) {
            return false;
        }
        lists.add(rt, oop.address, referent);
        true
    }

    /// Visits the instance fields. If the reference's strength is eligible
    /// for discovery it then attempts discovery and visits nothing more;
    /// otherwise it visits the referent and discovered-link fields as
    /// strong edges.
    pub fn oop_iterate(
        oop: &Oop,
        heap: &Heap,
        gc: &GcState,
        lists: &mut DiscoveredLists,
        closure: &mut SlotVisitor,
    )
        requires
            scannable(*heap, *oop),
            oop.kind() == Some(KlassID::InstanceRef),
        ensures
            final(closure).visited@ == old(closure).visited@ + scan_visits(
                *heap,
                *gc,
                old(lists)@,
                *oop,
                old(closure).discover_references,
            ),
            final(lists)@ == lists_after_scan(
                *heap,
                *gc,
                old(lists)@,
                *oop,
                old(closure).discover_references,
            ),
            final(closure).discover_references == old(closure).discover_references,
    {
        let ghost sb = slot_bytes(heap.layout.encoding);
        proof {
            lemma_fits_parts(*oop, heap.layout);
            lemma_entries_slots_append(
                oop.address,
                instance_entries(oop.klass),
                reference_entries(heap.layout),
                sb,
            );
        }
        InstanceKlass::oop_iterate(oop, &heap.layout, closure);
        let rt = oop.klass.reference_type;
        let discovery_disabled = !closure.should_discover_references();
        if Self::should_discover_refs(rt, discovery_disabled, &gc.options) {
            // Discovered or skipped, the reference fields get no strong visit.
            Self::discover_reference(oop, rt, heap, gc, lists);
        } else {
            Self::process_ref_as_strong(oop, &heap.layout, closure);
        }
    }
}

/// Visits every reference slot of `oop` by the field map of its kind,
/// routing a reference object through discovery.
pub fn oop_iterate(
    oop: &Oop,
    heap: &Heap,
    gc: &GcState,
    lists: &mut DiscoveredLists,
    closure: &mut SlotVisitor,
)
    requires
        scannable(*heap, *oop),
    ensures
        final(closure).visited@ == old(closure).visited@ + scan_visits(
            *heap,
            *gc,
            old(lists)@,
            *oop,
            old(closure).discover_references,
        ),
        final(lists)@ == lists_after_scan(
            *heap,
            *gc,
            old(lists)@,
            *oop,
            old(closure).discover_references,
        ),
        final(closure).discover_references == old(closure).discover_references,
{
    let kind = KlassID::from_raw(oop.klass.id);
    let layout = &heap.layout;
    match kind {
        Some(KlassID::Instance) => {
            proof {
                lemma_fits_parts(*oop, *layout);
            }
            InstanceKlass::oop_iterate(oop, layout, closure);
        },
        Some(KlassID::InstanceClassLoader) => {
            proof {
                lemma_fits_parts(*oop, *layout);
            }
            InstanceClassLoaderKlass::oop_iterate(oop, layout, closure);
        },
        Some(KlassID::InstanceMirror) => {
            InstanceMirrorKlass::oop_iterate(oop, layout, closure);
        },
        Some(KlassID::ObjArray) => {
            ObjArrayKlass::oop_iterate(oop, layout, closure);
        },
        Some(KlassID::TypeArray) => {
            // Primitive arrays hold no reference field.
            assert(scan_slots(*oop, *layout, false) =~= Seq::<OpenJDKSlot>::empty());
        },
        Some(KlassID::InstanceRef) => {
            InstanceRefKlass::oop_iterate(oop, heap, gc, lists, closure);
        },
        None => {},
    }
}

/// Scans `object`: hands each of its reference slots to `closure` and
/// records a discovered reference object in `lists`.
pub fn scan_object(
    object: &Oop,
    heap: &Heap,
    gc: &GcState,
    lists: &mut DiscoveredLists,
    closure: &mut SlotVisitor,
)
    requires
        scannable(*heap, *object),
    ensures
        final(closure).visited@ == old(closure).visited@ + scan_visits(
            *heap,
            *gc,
            old(lists)@,
            *object,
            old(closure).discover_references,
        ),
        final(lists)@ == lists_after_scan(
            *heap,
            *gc,
            old(lists)@,
            *object,
            old(closure).discover_references,
        ),
        final(closure).discover_references == old(closure).discover_references,
{
    oop_iterate(object, heap, gc, lists, closure);
}

} // verus!
