//! Plain descriptions of the runtime's object layout: kind tags, reference
//! strengths, oop-map blocks and the per-object facts the scanner reads.
use vstd::prelude::*;

verus! {

/// The six layouts an object of the managed heap can have.
#[derive(Clone, Copy, Debug, PartialEq, Eq, Structural)]
pub enum KlassID {
    Instance,
    InstanceClassLoader,
    InstanceMirror,
    ObjArray,
    TypeArray,
    InstanceRef,
}

/// The kind named by a raw tag as the runtime stores it in a klass; `None`
/// for a tag outside the six valid values.
pub open spec fn klass_id_of(raw: i32) -> Option<KlassID> {
    if raw == 0 {
        Some(KlassID::Instance)
    } else if raw == 1 {
        Some(KlassID::InstanceClassLoader)
    } else if raw == 2 {
        Some(KlassID::InstanceMirror)
    } else if raw == 3 {
        Some(KlassID::ObjArray)
    } else if raw == 4 {
        Some(KlassID::TypeArray)
    } else if raw == 5 {
        Some(KlassID::InstanceRef)
    } else {
        None
    }
}

impl KlassID {
    /// Decodes a raw kind tag; tags outside `0..6` denote heap corruption.
    pub fn from_raw(raw: i32) -> (r: Option<KlassID>)
        ensures
            r == klass_id_of(raw),
            r.is_some() <==> 0 <= raw < 6,
    {
        match raw {
            0 => Some(KlassID::Instance),
            1 => Some(KlassID::InstanceClassLoader),
            2 => Some(KlassID::InstanceMirror),
            3 => Some(KlassID::ObjArray),
            4 => Some(KlassID::TypeArray),
            5 => Some(KlassID::InstanceRef),
            _ => None,
        }
    }
}

/// The strength of a `java.lang.ref.Reference` subclass.
#[derive(Clone, Copy, Debug, PartialEq, Eq, Structural)]
pub enum ReferenceType {
    /// The klass is not a reference klass.
    NotReference,
    Other,
    Soft,
    Weak,
    Final,
    Phantom,
}

/// The strength a reference is treated with: an unspecified (`Other`)
/// reference counts as weak.
pub open spec fn normalized(rt: ReferenceType) -> ReferenceType {
    if rt == ReferenceType::Other {
        ReferenceType::Weak
    } else {
        rt
    }
}

/// One run of consecutive reference fields of an instance: a byte offset
/// from the object's start and a number of slots.
#[derive(Clone, Copy, Debug, PartialEq, Eq, Structural)]
pub struct OopMapBlock {
    pub offset: u32,
    pub count: u32,
}

/// The type metadata the scanner reads from an object's klass.
pub struct Klass {
    /// The raw kind tag (valid tags are `0..6`, see [`KlassID`]).
    pub id: i32,
    /// The reference-field blocks of the instance part, base class first.
    pub nonstatic_oop_maps: Vec<OopMapBlock>,
    /// The strength of a reference object; `NotReference` for other klasses.
    pub reference_type: ReferenceType,
}

/// An object as the scanner sees it: where it lives, its klass, and the
/// two lengths that the runtime stores in the object itself.
pub struct Oop {
    pub address: usize,
    pub klass: Klass,
    /// For a class mirror: how many static reference fields it holds.
    pub static_oop_field_count: usize,
    /// For an array: its number of elements.
    pub array_length: usize,
}

/// How the runtime encodes a compressed reference: `base + (narrow << shift)`.
#[derive(Clone, Copy, Debug, PartialEq, Eq, Structural)]
pub struct SlotEncoding {
    pub compressed: bool,
    pub base: usize,
    pub shift: u32,
}

/// Process-wide layout constants that the runtime reports once.
#[derive(Clone, Copy, Debug, PartialEq, Eq, Structural)]
pub struct VmLayout {
    pub encoding: SlotEncoding,
    /// Offset of the first static reference field inside a class mirror.
    pub static_field_offset: usize,
    /// Offset of element 0 inside an object array.
    pub array_base_offset: usize,
    /// Offset of `Reference.referent`.
    pub referent_offset: usize,
    /// Offset of `Reference.discovered`.
    pub discovered_offset: usize,
}

impl Oop {
    /// The kind of this object, if its tag is valid.
    pub open spec fn kind(&self) -> Option<KlassID> {
        klass_id_of(self.klass.id)
    }
}

} // verus!
