//! The type-directed field map: for each kind of object, the ordered runs
//! of reference slots it holds, and the slots each run denotes.
use vstd::prelude::*;
use crate::abi::{KlassID, Klass, Oop, OopMapBlock, VmLayout};
use crate::slot::{OpenJDKSlot, slot_bytes};

verus! {

/// A run of `count` consecutive reference slots starting `offset` bytes
/// after the object's start.
#[derive(Clone, Copy, Debug, PartialEq, Eq, Structural)]
pub struct FieldMapEntry {
    pub offset: usize,
    pub count: usize,
}

/// The entry an oop-map block describes.
pub open spec fn block_entry(b: OopMapBlock) -> FieldMapEntry {
    FieldMapEntry { offset: b.offset as usize, count: b.count as usize }
}

/// The slots of one entry of the object at `addr`, in ascending address
/// order, each `sb` bytes after the previous one.
pub open spec fn entry_slots(addr: usize, e: FieldMapEntry, sb: nat) -> Seq<OpenJDKSlot> {
    Seq::new(e.count as nat, |i: int| OpenJDKSlot { addr: (addr + e.offset + i * sb) as usize })
}

/// The slots of a sequence of entries, entry after entry.
pub open spec fn entries_slots(addr: usize, es: Seq<FieldMapEntry>, sb: nat) -> Seq<OpenJDKSlot>
    decreases es.len(),
{
    if es.len() == 0 {
        Seq::empty()
    } else {
        entries_slots(addr, es.drop_last(), sb) + entry_slots(addr, es.last(), sb)
    }
}

/// The last slot of the entry lies within the address space.
pub open spec fn entry_fits(addr: usize, e: FieldMapEntry, sb: nat) -> bool {
    addr + e.offset + e.count * sb <= usize::MAX
}

/// The entries of the instance part of a klass, base class first.
pub open spec fn instance_entries(k: Klass) -> Seq<FieldMapEntry> {
    k.nonstatic_oop_maps@.map_values(|b: OopMapBlock| block_entry(b))
}

/// The referent field and the discovered-link field of a reference object.
pub open spec fn reference_entries(layout: VmLayout) -> Seq<FieldMapEntry> {
    seq![
        FieldMapEntry { offset: layout.referent_offset, count: 1 },
        FieldMapEntry { offset: layout.discovered_offset, count: 1 },
    ]
}

/// The field map of an object: the base-kind entries first, then those
/// its own kind adds. A primitive array has none.
pub open spec fn field_map(oop: Oop, layout: VmLayout) -> Seq<FieldMapEntry> {
    match oop.kind() {
        Some(KlassID::Instance) => instance_entries(oop.klass),
        Some(KlassID::InstanceClassLoader) => instance_entries(oop.klass),
        Some(KlassID::InstanceMirror) => instance_entries(oop.klass).push(
            FieldMapEntry { offset: layout.static_field_offset, count: oop.static_oop_field_count },
        ),
        Some(KlassID::ObjArray) => seq![
            FieldMapEntry { offset: layout.array_base_offset, count: oop.array_length },
        ],
        Some(KlassID::InstanceRef) => instance_entries(oop.klass) + reference_entries(layout),
        _ => Seq::empty(),
    }
}

/// Every slot of the object's field map lies within the address space.
pub open spec fn oop_fits(oop: Oop, layout: VmLayout) -> bool {
    forall|i: int|
        0 <= i < field_map(oop, layout).len() ==> entry_fits(
            oop.address,
            #[trigger] field_map(oop, layout)[i],
            slot_bytes(layout.encoding),
        )
}

/// Builds the field map of an object with a valid kind tag.
pub fn field_map_of(oop: &Oop, layout: &VmLayout) -> (r: Vec<FieldMapEntry>)
    requires
        oop.kind().is_some(),
    ensures
        r@ == field_map(*oop, *layout),
{
    let kind = KlassID::from_raw(oop.klass.id);
    let mut r: Vec<FieldMapEntry> = Vec::new();
    match kind {
        Some(KlassID::ObjArray) => {
            r.push(FieldMapEntry { offset: layout.array_base_offset, count: oop.array_length });
            assert(r@ =~= field_map(*oop, *layout));
            return r;
        },
        Some(KlassID::TypeArray) => {
            assert(r@ =~= field_map(*oop, *layout));
            return r;
        },
        _ => {},
    }
    let maps = &oop.klass.nonstatic_oop_maps;
    let mut i: usize = 0;
    while i < maps.len()
        invariant
            0 <= i <= maps.len(),
            maps@ == oop.klass.nonstatic_oop_maps@,
            r@ =~= instance_entries(oop.klass).take(i as int),
        decreases maps.len() - i,
    {
        r.push(FieldMapEntry { offset: maps[i].offset as usize, count: maps[i].count as usize });
        assert(instance_entries(oop.klass)[i as int] == block_entry(maps@[i as int]));
        assert(r@ =~= instance_entries(oop.klass).take(i + 1));
        i += 1;
    }
    assert(instance_entries(oop.klass).take(maps.len() as int) =~= instance_entries(oop.klass));
    match kind {
        Some(KlassID::InstanceMirror) => {
            r.push(
                FieldMapEntry {
                    offset: layout.static_field_offset,
                    count: oop.static_oop_field_count,
                },
            );
        },
        Some(KlassID::InstanceRef) => {
            r.push(FieldMapEntry { offset: layout.referent_offset, count: 1 });
            r.push(FieldMapEntry { offset: layout.discovered_offset, count: 1 });
        },
        _ => {},
    }
    assert(r@ =~= field_map(*oop, *layout));
    r
}

} // verus!
