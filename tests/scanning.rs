use mmtk_openjdk::abi::{Klass, KlassID, Oop, OopMapBlock, ReferenceType, SlotEncoding, VmLayout};
use mmtk_openjdk::field_map::{field_map_of, FieldMapEntry};
use mmtk_openjdk::object_model::VMObjectModel;
use mmtk_openjdk::object_scanning::{scan_object, InstanceRefKlass, SlotVisitor};
use mmtk_openjdk::reference_glue::{DiscoveredLists, GcState, ReferenceOptions};
use mmtk_openjdk::scanning::VMScanning;
use mmtk_openjdk::slot::{Heap, HeapMemory, OpenJDKSlot};

fn layout(compressed: bool) -> VmLayout {
    VmLayout {
        encoding: SlotEncoding { compressed, base: 0x8_0000_0000, shift: 3 },
        static_field_offset: 96,
        array_base_offset: 16,
        referent_offset: 16,
        discovered_offset: 32,
    }
}

fn heap(compressed: bool) -> Heap {
    Heap { layout: layout(compressed), memory: HeapMemory::new() }
}

fn oop(address: usize, id: i32, maps: Vec<OopMapBlock>, rt: ReferenceType) -> Oop {
    Oop {
        address,
        klass: Klass { id, nonstatic_oop_maps: maps, reference_type: rt },
        static_oop_field_count: 0,
        array_length: 0,
    }
}

fn no_policy() -> ReferenceOptions {
    ReferenceOptions { no_finalizer: false, no_reference_types: false }
}

fn addrs(v: &SlotVisitor) -> Vec<usize> {
    v.visited.iter().map(|s| s.addr).collect()
}

fn scan(h: &Heap, o: &Oop, discover: bool) -> (Vec<usize>, DiscoveredLists) {
    let gc = GcState::new(no_policy());
    let mut lists = DiscoveredLists::new();
    let mut v = SlotVisitor::new(discover);
    scan_object(o, h, &gc, &mut lists, &mut v);
    (addrs(&v), lists)
}

#[test]
fn instance_slots_follow_oop_maps_in_order() {
    let h = heap(false);
    let maps = vec![OopMapBlock { offset: 16, count: 2 }, OopMapBlock { offset: 48, count: 1 }];
    let o = oop(0x1000, 0, maps, ReferenceType::NotReference);
    let (slots, _) = scan(&h, &o, true);
    assert_eq!(slots, vec![0x1010, 0x1018, 0x1030]);
}

#[test]
fn compressed_instance_slots_are_four_bytes_apart() {
    let h = heap(true);
    let o = oop(0x1000, 0, vec![OopMapBlock { offset: 12, count: 3 }], ReferenceType::NotReference);
    let (slots, _) = scan(&h, &o, true);
    assert_eq!(slots, vec![0x100c, 0x1010, 0x1014]);
}

#[test]
fn class_loader_scans_as_instance() {
    let h = heap(false);
    let o = oop(0x2000, 1, vec![OopMapBlock { offset: 24, count: 2 }], ReferenceType::NotReference);
    let (slots, _) = scan(&h, &o, true);
    assert_eq!(slots, vec![0x2018, 0x2020]);
}

#[test]
fn mirror_visits_instance_fields_then_statics() {
    let h = heap(false);
    let mut o = oop(0x3000, 2, vec![OopMapBlock { offset: 16, count: 1 }], ReferenceType::NotReference);
    o.static_oop_field_count = 2;
    let (slots, _) = scan(&h, &o, true);
    assert_eq!(slots, vec![0x3010, 0x3060, 0x3068]);
}

#[test]
fn object_array_visits_every_element() {
    let h = heap(true);
    let mut o = oop(0x4000, 3, vec![], ReferenceType::NotReference);
    o.array_length = 3;
    let (slots, _) = scan(&h, &o, true);
    assert_eq!(slots, vec![0x4010, 0x4014, 0x4018]);
}

#[test]
fn type_array_of_length_1000_emits_zero_slots() {
    let h = heap(false);
    let mut o = oop(0x5000, 4, vec![], ReferenceType::NotReference);
    o.array_length = 1000;
    let (slots, lists) = scan(&h, &o, true);
    assert!(slots.is_empty());
    assert!(lists.get(ReferenceType::Weak).is_empty());
}

#[test]
fn reference_with_discovery_disabled_visits_referent_and_link() {
    let mut h = heap(false);
    h.memory.store(0x6010, 0x9000);
    let o = oop(0x6000, 5, vec![OopMapBlock { offset: 8, count: 1 }], ReferenceType::Weak);
    let (slots, lists) = scan(&h, &o, false);
    assert_eq!(slots, vec![0x6008, 0x6010, 0x6020]);
    assert!(lists.get(ReferenceType::Weak).is_empty());
}

#[test]
fn weak_reference_to_unreached_referent_is_discovered_without_strong_visits() {
    let mut h = heap(false);
    h.memory.store(0x6010, 0x9000);
    let o = oop(0x6000, 5, vec![OopMapBlock { offset: 8, count: 1 }], ReferenceType::Weak);
    let (slots, lists) = scan(&h, &o, true);
    assert_eq!(slots, vec![0x6008]);
    assert_eq!(lists.get(ReferenceType::Weak), &vec![(0x6000, 0x9000)]);
    assert!(lists.get(ReferenceType::Final).is_empty());
}

#[test]
fn skipped_reference_gets_no_strong_visit() {
    let mut h = heap(false);
    h.memory.store(0x6010, 0x9000);
    let mut gc = GcState::new(no_policy());
    gc.mark_reachable(0x9000);
    let mut lists = DiscoveredLists::new();
    let o = oop(0x6000, 5, vec![OopMapBlock { offset: 8, count: 1 }], ReferenceType::Weak);
    let mut v = SlotVisitor::new(true);
    scan_object(&o, &h, &gc, &mut lists, &mut v);
    assert_eq!(addrs(&v), vec![0x6008]);
    assert!(lists.all_empty());
}

#[test]
fn scanning_twice_yields_identical_slots() {
    let mut h = heap(false);
    h.memory.store(0x6010, 0x9000);
    let gc = GcState::new(no_policy());
    let mut lists = DiscoveredLists::new();
    let o = oop(0x6000, 5, vec![OopMapBlock { offset: 8, count: 2 }], ReferenceType::Soft);
    let mut first = SlotVisitor::new(true);
    let mut second = SlotVisitor::new(true);
    scan_object(&o, &h, &gc, &mut lists, &mut first);
    scan_object(&o, &h, &gc, &mut lists, &mut second);
    assert_eq!(addrs(&first), addrs(&second));
    let m = oop(0x7000, 2, vec![OopMapBlock { offset: 16, count: 3 }], ReferenceType::NotReference);
    let mut third = SlotVisitor::new(true);
    let mut fourth = SlotVisitor::new(false);
    scan_object(&m, &h, &gc, &mut lists, &mut third);
    scan_object(&m, &h, &gc, &mut lists, &mut fourth);
    assert_eq!(addrs(&third), addrs(&fourth));
}

#[test]
fn scanned_final_reference_is_listed_once_and_skipped_afterwards() {
    let mut h = heap(false);
    h.memory.store(0x6010, 0x9000);
    let gc = GcState::new(no_policy());
    let mut lists = DiscoveredLists::new();
    let o = oop(0x6000, 5, vec![], ReferenceType::Final);
    let mut first = SlotVisitor::new(true);
    let mut second = SlotVisitor::new(true);
    scan_object(&o, &h, &gc, &mut lists, &mut first);
    scan_object(&o, &h, &gc, &mut lists, &mut second);
    assert!(addrs(&first).is_empty());
    assert_eq!(addrs(&first), addrs(&second));
    assert_eq!(lists.get(ReferenceType::Final).len(), 1);
}

#[test]
fn vm_scanning_forwards_to_scan_object() {
    let h = heap(false);
    let gc = GcState::new(no_policy());
    let mut lists = DiscoveredLists::new();
    let o = oop(0x1000, 0, vec![OopMapBlock { offset: 16, count: 1 }], ReferenceType::NotReference);
    let mut v = SlotVisitor::new(true);
    VMScanning::scan_object(&o, &h, &gc, &mut lists, &mut v);
    assert_eq!(v.visited, vec![OpenJDKSlot::from_address(0x1010)]);
}

#[test]
fn field_map_lists_base_entries_before_derived_ones() {
    let l = layout(false);
    let o = oop(0x6000, 5, vec![OopMapBlock { offset: 8, count: 2 }], ReferenceType::Weak);
    assert_eq!(
        field_map_of(&o, &l),
        vec![
            FieldMapEntry { offset: 8, count: 2 },
            FieldMapEntry { offset: 16, count: 1 },
            FieldMapEntry { offset: 32, count: 1 },
        ]
    );
    let mut a = oop(0x4000, 4, vec![], ReferenceType::NotReference);
    a.array_length = 1000;
    assert!(field_map_of(&a, &l).is_empty());
    let mut m = oop(0x3000, 2, vec![], ReferenceType::NotReference);
    m.static_oop_field_count = 4;
    assert_eq!(field_map_of(&m, &l), vec![FieldMapEntry { offset: 96, count: 4 }]);
}

#[test]
fn kind_tags_outside_the_six_kinds_are_rejected() {
    assert_eq!(KlassID::from_raw(0), Some(KlassID::Instance));
    assert_eq!(KlassID::from_raw(5), Some(KlassID::InstanceRef));
    assert_eq!(KlassID::from_raw(6), None);
    assert_eq!(KlassID::from_raw(-1), None);
    let good = oop(0x1000, 3, vec![], ReferenceType::NotReference);
    let bad = oop(0x1000, 7, vec![], ReferenceType::NotReference);
    assert!(VMObjectModel::is_object_sane(&good));
    assert!(!VMObjectModel::is_object_sane(&bad));
}

#[test]
fn object_model_constants() {
    assert_eq!(VMObjectModel::ref_to_object_start(0x1234), 0x1234);
    assert_eq!(VMObjectModel::ref_to_header(0x1234), 0x1234);
    assert_eq!(VMObjectModel::get_reference_when_copied_to(0x40), 0x40);
    assert_eq!(VMObjectModel::get_align_when_copied(), 8);
    assert_eq!(VMObjectModel::get_align_offset_when_copied(), 0);
    assert_eq!(VMObjectModel::null_slot().addr, 0);
}

#[test]
fn native_slot_load_reads_the_stored_address() {
    let mut h = heap(false);
    h.memory.store(0x100, 0xdead_0000);
    assert_eq!(OpenJDKSlot::from_address(0x100).load(&h), Some(0xdead_0000));
    assert_eq!(OpenJDKSlot::from_address(0x108).load(&h), None);
}

#[test]
fn compressed_slot_load_rebases_the_narrow_value() {
    let mut h = heap(true);
    h.memory.store(0x100, 0x10);
    h.memory.store(0x104, 0x1_0000_0000);
    assert_eq!(OpenJDKSlot::from_address(0x100).load(&h), Some(0x8_0000_0000 + 0x80));
    assert_eq!(OpenJDKSlot::from_address(0x104).load(&h), None);
    assert_eq!(OpenJDKSlot::from_address(0x200).load(&h), None);
}

#[test]
fn slot_addresses_of_reference_fields() {
    let l = layout(false);
    let o = oop(0x6000, 5, vec![], ReferenceType::Weak);
    assert_eq!(InstanceRefKlass::referent_address(&o, &l).addr, 0x6010);
    assert_eq!(InstanceRefKlass::discovered_address(&o, &l).addr, 0x6020);
}
