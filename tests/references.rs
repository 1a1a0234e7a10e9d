use mmtk_openjdk::abi::{Klass, Oop, ReferenceType, SlotEncoding, VmLayout};
use mmtk_openjdk::object_scanning::{scan_object, InstanceRefKlass, SlotVisitor};
use mmtk_openjdk::reference_glue::{DiscoveredLists, GcState, ReferenceOptions};
use mmtk_openjdk::slot::{Heap, HeapMemory};

const REFERENT_OFFSET: usize = 16;

fn heap_with_referent(reference: usize, referent: usize) -> Heap {
    let layout = VmLayout {
        encoding: SlotEncoding { compressed: false, base: 0, shift: 0 },
        static_field_offset: 96,
        array_base_offset: 16,
        referent_offset: REFERENT_OFFSET,
        discovered_offset: 24,
    };
    let mut memory = HeapMemory::new();
    memory.store(reference + REFERENT_OFFSET, referent);
    Heap { layout, memory }
}

fn reference(address: usize, rt: ReferenceType) -> Oop {
    Oop {
        address,
        klass: Klass { id: 5, nonstatic_oop_maps: vec![], reference_type: rt },
        static_oop_field_count: 0,
        array_length: 0,
    }
}

fn options(no_finalizer: bool, no_reference_types: bool) -> ReferenceOptions {
    ReferenceOptions { no_finalizer, no_reference_types }
}

#[test]
fn should_discover_refs_truth_table() {
    let none = options(false, false);
    let no_fin = options(true, false);
    let no_refs = options(false, true);
    assert!(InstanceRefKlass::should_discover_refs(ReferenceType::Weak, false, &none));
    assert!(!InstanceRefKlass::should_discover_refs(ReferenceType::Weak, true, &none));
    assert!(!InstanceRefKlass::should_discover_refs(ReferenceType::Final, false, &no_fin));
    assert!(InstanceRefKlass::should_discover_refs(ReferenceType::Soft, false, &no_fin));
    assert!(!InstanceRefKlass::should_discover_refs(ReferenceType::Phantom, false, &no_refs));
    assert!(!InstanceRefKlass::should_discover_refs(ReferenceType::Other, false, &no_refs));
    assert!(InstanceRefKlass::should_discover_refs(ReferenceType::Final, false, &no_refs));
}

#[test]
fn discovery_closed_never_appends() {
    let h = heap_with_referent(0x1000, 0x9000);
    let gc = GcState::new(options(false, false));
    let mut lists = DiscoveredLists::new();
    lists.disable_discover();
    for rt in [ReferenceType::Soft, ReferenceType::Weak, ReferenceType::Final, ReferenceType::Phantom] {
        let o = reference(0x1000, rt);
        assert!(!InstanceRefKlass::discover_reference(&o, rt, &h, &gc, &mut lists));
        let mut v = SlotVisitor::new(true);
        scan_object(&o, &h, &gc, &mut lists, &mut v);
        assert!(v.visited.is_empty());
    }
    for rt in [ReferenceType::Soft, ReferenceType::Weak, ReferenceType::Final, ReferenceType::Phantom] {
        assert!(lists.get(rt).is_empty());
    }
    assert!(!lists.allow_discover());
}

#[test]
fn final_reference_discovered_twice_is_listed_once() {
    let h = heap_with_referent(0x1000, 0x9000);
    let gc = GcState::new(options(false, false));
    let mut lists = DiscoveredLists::new();
    let o = reference(0x1000, ReferenceType::Final);
    assert!(InstanceRefKlass::discover_reference(&o, ReferenceType::Final, &h, &gc, &mut lists));
    assert!(lists.is_discovered(0x1000));
    assert!(!InstanceRefKlass::discover_reference(&o, ReferenceType::Final, &h, &gc, &mut lists));
    assert_eq!(lists.get(ReferenceType::Final), &vec![(0x1000, 0x9000)]);
}

#[test]
fn weak_reference_discovered_twice_is_listed_twice() {
    let h = heap_with_referent(0x1000, 0x9000);
    let gc = GcState::new(options(false, false));
    let mut lists = DiscoveredLists::new();
    let o = reference(0x1000, ReferenceType::Weak);
    assert!(InstanceRefKlass::discover_reference(&o, ReferenceType::Weak, &h, &gc, &mut lists));
    assert!(InstanceRefKlass::discover_reference(&o, ReferenceType::Weak, &h, &gc, &mut lists));
    assert_eq!(lists.get(ReferenceType::Weak).len(), 2);
}

#[test]
fn other_reference_goes_to_the_weak_list() {
    let h = heap_with_referent(0x1000, 0x9000);
    let gc = GcState::new(options(false, false));
    let mut lists = DiscoveredLists::new();
    let o = reference(0x1000, ReferenceType::Other);
    assert!(InstanceRefKlass::discover_reference(&o, ReferenceType::Other, &h, &gc, &mut lists));
    assert_eq!(lists.get(ReferenceType::Weak), &vec![(0x1000, 0x9000)]);
}

#[test]
fn null_reachable_and_deferred_referents_are_skipped() {
    let gc0 = GcState::new(options(false, false));
    let mut lists = DiscoveredLists::new();
    let null_heap = heap_with_referent(0x1000, 0);
    let o = reference(0x1000, ReferenceType::Soft);
    assert!(!InstanceRefKlass::discover_reference(&o, ReferenceType::Soft, &null_heap, &gc0, &mut lists));

    let h = heap_with_referent(0x1000, 0x9000);
    let mut reachable = GcState::new(options(false, false));
    reachable.mark_reachable(0x9000);
    assert!(!InstanceRefKlass::discover_reference(&o, ReferenceType::Soft, &h, &reachable, &mut lists));

    let mut deferred = GcState::new(options(false, false));
    deferred.defer(0x9000);
    assert!(!deferred.should_process_reference(0x9000));
    assert!(!InstanceRefKlass::discover_reference(&o, ReferenceType::Soft, &h, &deferred, &mut lists));
    assert!(lists.get(ReferenceType::Soft).is_empty());
}

#[test]
fn policy_flags_make_references_strong() {
    let h = heap_with_referent(0x1000, 0x9000);
    let gc = GcState::new(options(true, true));
    let mut lists = DiscoveredLists::new();
    for rt in [ReferenceType::Weak, ReferenceType::Final] {
        let o = reference(0x1000, rt);
        let mut v = SlotVisitor::new(true);
        scan_object(&o, &h, &gc, &mut lists, &mut v);
        let addrs: Vec<usize> = v.visited.iter().map(|s| s.addr).collect();
        assert_eq!(addrs, vec![0x1010, 0x1018]);
        assert!(lists.get(rt).is_empty());
    }
}

#[test]
fn weak_processing_retains_reachable_and_clears_the_rest() {
    let mut gc = GcState::new(options(false, false));
    let mut lists = DiscoveredLists::new();
    lists.add(ReferenceType::Soft, 0x100, 0x900);
    lists.add(ReferenceType::Weak, 0x200, 0xa00);
    lists.add(ReferenceType::Weak, 0x300, 0xb00);
    lists.add(ReferenceType::Phantom, 0x400, 0xc00);
    gc.mark_reachable(0xa00);
    lists.disable_discover();
    let r = lists.process_weak_refs(&gc);
    assert_eq!(r.retained, vec![(0x200, 0xa00)]);
    assert_eq!(r.cleared, vec![(0x100, 0x900), (0x300, 0xb00)]);
    assert!(r.resurrected.is_empty());
    assert!(lists.get(ReferenceType::Soft).is_empty());
    assert!(lists.get(ReferenceType::Weak).is_empty());
    assert_eq!(lists.get(ReferenceType::Phantom).len(), 1);
    assert!(!lists.allow_discover());
}

#[test]
fn final_resurrection_keeps_phantom_referent_alive() {
    let mut gc = GcState::new(options(false, false));
    let mut lists = DiscoveredLists::new();
    lists.add(ReferenceType::Final, 0x100, 0x900);
    lists.add(ReferenceType::Final, 0x200, 0xa00);
    lists.add(ReferenceType::Phantom, 0x300, 0x900);
    lists.add(ReferenceType::Phantom, 0x400, 0xb00);
    gc.mark_reachable(0xa00);
    lists.disable_discover();
    let weak = lists.process_weak_refs(&gc);
    assert!(weak.retained.is_empty() && weak.cleared.is_empty());
    let fin = lists.process_final_refs(&mut gc);
    assert_eq!(fin.retained, vec![(0x200, 0xa00)]);
    assert_eq!(fin.resurrected, vec![(0x100, 0x900)]);
    assert!(fin.cleared.is_empty());
    assert!(gc.is_reachable(0x900));
    let phantom = lists.process_phantom_refs(&gc);
    assert_eq!(phantom.retained, vec![(0x300, 0x900)]);
    assert_eq!(phantom.cleared, vec![(0x400, 0xb00)]);
    assert!(lists.get(ReferenceType::Final).is_empty());
    assert!(lists.get(ReferenceType::Phantom).is_empty());
    assert!(lists.all_empty());
}

#[test]
fn discovery_can_be_reopened() {
    let mut lists = DiscoveredLists::new();
    assert!(lists.all_empty());
    assert!(lists.allow_discover());
    lists.disable_discover();
    assert!(!lists.allow_discover());
    lists.enable_discover();
    assert!(lists.allow_discover());
}
