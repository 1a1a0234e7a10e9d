//! The binding's object model: header and alignment facts, and the sanity
//! check of an object's kind tag.
use vstd::prelude::*;
use crate::abi::Oop;
use crate::slot::OpenJDKSlot;

verus! {

/// Objects are aligned to the size of a machine word when copied.
pub const ALIGNMENT_WHEN_COPIED: usize = 8;

/// The binding's object model.
pub struct VMObjectModel {}

impl VMObjectModel {
    /// Whether the object's kind tag is one of the six valid kinds; a
    /// corrupt tag means the object must not be scanned.
    pub fn is_object_sane(object: &Oop) -> (r: bool)
        ensures
            r == object.kind().is_some(),
            r <==> 0 <= object.klass.id < 6,
    {
        0 <= object.klass.id && object.klass.id < 6
    }

    /// An object reference is the address of the object's first byte.
    pub fn ref_to_object_start(object: usize) -> (r: usize)
        ensures
            r == object,
    {
        object
    }

    /// The header starts at the object's first byte.
    pub fn ref_to_header(object: usize) -> (r: usize)
        ensures
            r == object,
    {
        object
    }

    /// The reference an object copied to address `to` gets.
    pub fn get_reference_when_copied_to(to: usize) -> (r: usize)
        requires
            to != 0,
        ensures
            r == to,
    {
        to
    }

    pub fn get_align_when_copied() -> (r: usize)
        ensures
            r == ALIGNMENT_WHEN_COPIED,
    {
        ALIGNMENT_WHEN_COPIED
    }

    pub fn get_align_offset_when_copied() -> (r: usize)
        ensures
            r == 0,
    {
        0
    }

    /// The slot that stands for "no slot".
    pub fn null_slot() -> (r: OpenJDKSlot)
        ensures
            r.addr == 0,
    {
        OpenJDKSlot { addr: 0 }
    }
}

} // verus!
