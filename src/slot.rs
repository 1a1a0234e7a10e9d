//! Slots: locations that hold a reference, in full-width or compressed
//! form, and a word-addressed model of the memory they are read from.
use vstd::prelude::*;
use vstd::arithmetic::power2::pow2;
use vstd::arithmetic::mul::lemma_mul_inequality;
use vstd::bits::lemma_usize_shl_is_mul;
use std::collections::HashMap;
use crate::abi::{SlotEncoding, VmLayout};

verus! {

broadcast use vstd::std_specs::hash::group_hash_axioms;

/// A location that holds a reference to another object.
#[derive(Clone, Copy, Debug, PartialEq, Eq, Structural)]
pub struct OpenJDKSlot {
    pub addr: usize,
}

impl OpenJDKSlot {
    /// The slot at address `addr`.
    pub fn from_address(addr: usize) -> (r: OpenJDKSlot)
        ensures
            r.addr == addr,
    {
        OpenJDKSlot { addr }
    }
}

/// Bytes occupied by one reference slot under an encoding.
pub open spec fn slot_bytes(enc: SlotEncoding) -> nat {
    if enc.compressed {
        4
    } else {
        8
    }
}

/// Every 32-bit compressed value decodes to an address that fits in `usize`.
pub open spec fn encoding_wf(enc: SlotEncoding) -> bool {
    enc.compressed ==> {
        &&& enc.shift < 32
        &&& enc.base + 0xFFFF_FFFF * pow2(enc.shift as nat) <= usize::MAX
    }
}

/// The object a raw slot value refers to: zero is null; a compressed value
/// keeps its low 32 bits and is rebased against the heap base.
pub open spec fn decode(enc: SlotEncoding, raw: usize) -> Option<usize> {
    if enc.compressed {
        let narrow = raw as int % 0x1_0000_0000;
        if narrow == 0 {
            None
        } else {
            Some((enc.base + narrow * pow2(enc.shift as nat)) as usize)
        }
    } else if raw == 0 {
        None
    } else {
        Some(raw)
    }
}

/// The word stored at `addr`; memory never written reads as zero.
pub open spec fn read_word(m: Map<usize, usize>, addr: usize) -> usize {
    if m.contains_key(addr) {
        m[addr]
    } else {
        0
    }
}

impl SlotEncoding {
    /// The number of bytes one slot occupies under this encoding.
    pub fn slot_bytes(&self) -> (r: usize)
        ensures
            r == slot_bytes(*self),
    {
        if self.compressed {
            4
        } else {
            8
        }
    }
}

/// The contents of the slots of the heap, by slot address.
pub struct HeapMemory {
    pub words: HashMap<usize, usize>,
}

impl HeapMemory {
    /// Memory in which every slot holds null.
    pub fn new() -> (r: HeapMemory)
        ensures
            r.words@ == Map::<usize, usize>::empty(),
    {
        HeapMemory { words: HashMap::new() }
    }

    /// Stores the raw value `value` at `addr`.
    pub fn store(&mut self, addr: usize, value: usize)
        ensures
            final(self).words@ == old(self).words@.insert(addr, value),
    {
        self.words.insert(addr, value);
    }

    /// The raw value stored at `addr`.
    pub fn read(&self, addr: usize) -> (r: usize)
        ensures
            r == read_word(self.words@, addr),
    {
        match self.words.get(&addr) {
            Some(v) => *v,
            None => 0,
        }
    }
}

/// The heap as the scanner reads it: layout constants and slot contents.
pub struct Heap {
    pub layout: VmLayout,
    pub memory: HeapMemory,
}

impl Heap {
    pub open spec fn wf(&self) -> bool {
        encoding_wf(self.layout.encoding)
    }

    /// What a load of `slot` returns.
    pub open spec fn load_spec(&self, slot: OpenJDKSlot) -> Option<usize> {
        decode(self.layout.encoding, read_word(self.memory.words@, slot.addr))
    }
}

impl OpenJDKSlot {
    /// Reads the slot: the object it refers to, or `None` for null.
    pub fn load(&self, heap: &Heap) -> (r: Option<usize>)
        requires
            heap.wf(),
        ensures
            r == heap.load_spec(*self),
    {
        let raw = heap.memory.read(self.addr);
        let enc = heap.layout.encoding;
        if enc.compressed {
            let low: u64 = (raw as u64) % 0x1_0000_0000;
            let narrow: usize = low as usize;
            if narrow == 0 {
                None
            } else {
                let shift: usize = enc.shift as usize;
                proof {
                    lemma_mul_inequality(narrow as int, 0xFFFF_FFFF, pow2(shift as nat) as int);
                    lemma_usize_shl_is_mul(narrow, shift);
                }
                Some(enc.base + (narrow << shift))
            }
        } else if raw == 0 {
            None
        } else {
            Some(raw)
        }
    }
}

} // verus!
