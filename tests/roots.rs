use mmtk_openjdk::code_cache::{CodeCacheRoots, NmethodOopBuffer};
use mmtk_openjdk::scanning::{
    object_graph_traversal_report_roots, report_in_batches, report_slots_and_renew_buffer,
    NewBuffer, ObjectGraphTraversal, RootsWorkFactory, VMScanning, VmRoots, WORK_PACKET_CAPACITY,
};
use mmtk_openjdk::slot::OpenJDKSlot;

fn slots(range: std::ops::Range<usize>) -> Vec<OpenJDKSlot> {
    range.map(OpenJDKSlot::from_address).collect()
}

fn register(cache: &mut CodeCacheRoots, nm: usize, roots: &[usize]) {
    let mut pending = NmethodOopBuffer::new();
    for r in roots {
        pending.add_nmethod_oop(*r);
    }
    cache.register_nmethod(&mut pending, nm);
    assert!(pending.slots.is_empty());
}

#[test]
fn first_call_delivers_nothing_and_gets_a_fresh_buffer() {
    let mut factory = RootsWorkFactory::new();
    let b = report_slots_and_renew_buffer(None, &mut factory);
    assert!(factory.packets.is_empty());
    assert!(b.buf.is_empty());
    assert_eq!(b.capacity, 4096);
}

#[test]
fn delivered_slots_all_reach_the_factory() {
    for n in [0usize, 1, 17, WORK_PACKET_CAPACITY] {
        let mut factory = RootsWorkFactory::new();
        let delivered = slots(100..100 + n);
        let b = report_slots_and_renew_buffer(Some(delivered.clone()), &mut factory);
        assert_eq!(factory.packets, vec![delivered]);
        assert_eq!(factory.packets.iter().map(|p| p.len()).sum::<usize>(), n);
        assert!(b.buf.is_empty());
        assert_eq!(b.capacity, WORK_PACKET_CAPACITY);
    }
}

#[test]
fn traversal_bridge_hands_buffers_to_the_traversal() {
    let mut t = ObjectGraphTraversal::new();
    let b = object_graph_traversal_report_roots(None, &mut t);
    assert!(t.reported.is_empty());
    assert_eq!(b.capacity, WORK_PACKET_CAPACITY);
    let b = object_graph_traversal_report_roots(Some(slots(0..3)), &mut t);
    assert_eq!(t.reported, vec![slots(0..3)]);
    assert!(b.buf.is_empty());
    let f = NewBuffer::fresh();
    assert_eq!(f.capacity, WORK_PACKET_CAPACITY);
}

#[test]
fn roots_are_reported_in_full_batches() {
    let roots: Vec<usize> = (0..5000).collect();
    let mut t = ObjectGraphTraversal::new();
    report_in_batches(&roots, &mut t);
    assert_eq!(t.reported.len(), 2);
    assert_eq!(t.reported[0], slots(0..4096));
    assert_eq!(t.reported[1], slots(4096..5000));
    let mut empty = ObjectGraphTraversal::new();
    report_in_batches(&vec![], &mut empty);
    assert!(empty.reported.is_empty());
}

#[test]
fn register_then_unregister_restores_root_count() {
    let mut cache = CodeCacheRoots::new();
    register(&mut cache, 0x500, &[1, 2]);
    let before = cache.size();
    register(&mut cache, 0xa000, &[10, 11, 12, 13, 14]);
    assert_eq!(cache.size(), before + 5);
    cache.unregister_nmethod(0xa000);
    assert_eq!(cache.size(), before);
}

#[test]
fn registering_without_roots_changes_nothing() {
    let mut cache = CodeCacheRoots::new();
    register(&mut cache, 0xa000, &[]);
    assert_eq!(cache.size(), 0);
    cache.unregister_nmethod(0xa000);
    assert_eq!(cache.size(), 0);
}

#[test]
fn registering_again_replaces_earlier_roots() {
    let mut cache = CodeCacheRoots::new();
    register(&mut cache, 0xa000, &[1, 2, 3]);
    register(&mut cache, 0xa000, &[4]);
    assert_eq!(cache.size(), 1);
    let mut t = ObjectGraphTraversal::new();
    cache.scan_roots(false, &mut t);
    assert_eq!(t.reported, vec![slots(4..5)]);
}

#[test]
fn nursery_collection_reports_only_new_roots_then_merges() {
    let mut cache = CodeCacheRoots::new();
    register(&mut cache, 0xa000, &[1, 2]);
    let mut t = ObjectGraphTraversal::new();
    assert_eq!(cache.scan_roots(true, &mut t), (2, 0));
    assert_eq!(t.reported, vec![slots(1..3)]);
    register(&mut cache, 0xb000, &[7]);
    let mut nursery = ObjectGraphTraversal::new();
    assert_eq!(cache.scan_roots(true, &mut nursery), (1, 0));
    assert_eq!(nursery.reported, vec![slots(7..8)]);
    let mut full = ObjectGraphTraversal::new();
    assert_eq!(cache.scan_roots(false, &mut full), (0, 3));
    assert_eq!(full.reported, vec![vec![
        OpenJDKSlot::from_address(1),
        OpenJDKSlot::from_address(2),
        OpenJDKSlot::from_address(7),
    ]]);
    assert_eq!(cache.size(), 3);
    cache.unregister_nmethod(0xa000);
    assert_eq!(cache.size(), 1);
}

#[test]
fn vm_specific_roots_are_scheduled_in_order() {
    let r = VMScanning::scan_vm_specific_roots();
    assert_eq!(r.len(), 12);
    assert_eq!(r[0], VmRoots::Universe);
    assert_eq!(r[7], VmRoots::CodeCache);
    assert_eq!(r[11], VmRoots::VmThread);
}
