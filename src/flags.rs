//! Method access flags and frame modifiers, as bit sets.
use vstd::prelude::*;

verus! {

pub const PUBLIC: u16 = 0x0001;
pub const PRIVATE: u16 = 0x0002;
pub const PROTECTED: u16 = 0x0004;
pub const STATIC: u16 = 0x0008;
pub const FINAL: u16 = 0x0010;
pub const SYNCHRONIZED: u16 = 0x0020;
pub const BRIDGE: u16 = 0x0040;
pub const VARARGS: u16 = 0x0080;
pub const NATIVE: u16 = 0x0100;
pub const ABSTRACT: u16 = 0x0400;
pub const STRICT: u16 = 0x0800;
/// Host-only: self tail calls reuse the current frame.
pub const TAIL_RECURSION: u16 = 0x1000;
/// Host-only: results are memoized per argument tuple.
pub const MEM: u16 = 0x2000;
/// Host-only: objects allocated by the frame are freed on return.
pub const AUTO_FREE: u16 = 0x4000;

/// Frame modifier: the frame waits for the result of a memo lookup.
pub const MEM_LOAD: u16 = 0x0001;
/// Frame modifier: the frame's result is stored in the memo list on return.
pub const MEM_SAVE: u16 = 0x0002;
/// Frame modifier: the frame frees what it allocated on return.
pub const FRAME_AUTO_FREE: u16 = 0x0004;

/// Whether every bit of `flag` is set in `bits`.
pub open spec fn has_bits(bits: u16, flag: u16) -> bool {
    bits & flag == flag
}

/// Access flags of a method or field.
#[derive(Clone, Copy, Debug, PartialEq, Eq, Structural)]
pub struct AccessFlags {
    pub bits: u16,
}

/// Modifiers of a stack frame.
#[derive(Clone, Copy, Debug, PartialEq, Eq, Structural)]
pub struct FrameModifiers {
    pub bits: u16,
}

proof fn lemma_insert_has(bits: u16, flag: u16)
    ensures
        has_bits(bits | flag, flag),
{
    assert((bits | flag) & flag == flag) by (bit_vector);
}

proof fn lemma_remove_has_not(bits: u16, flag: u16)
    ensures
        flag != 0 ==> !has_bits(bits & !flag, flag),
{
    assert(flag != 0 ==> (bits & !flag) & flag != flag) by (bit_vector);
}

/// Clearing the bits of `MEM_LOAD` keeps those of `MEM_SAVE`.
pub(crate) proof fn lemma_remove_keeps_other(bits: u16, flag: u16, other: u16)
    requires
        flag == MEM_LOAD,
        other == MEM_SAVE,
    ensures
        has_bits(bits, other) ==> has_bits(bits & !flag, other),
{
    assert(bits & 2u16 == 2u16 ==> (bits & !1u16) & 2u16 == 2u16) by (bit_vector);
}

impl AccessFlags {
    /// No flag set.
    pub fn empty() -> (r: AccessFlags)
        ensures
            r.bits == 0,
    {
        AccessFlags { bits: 0 }
    }

    /// The flags of the given bit word, kept as they are.
    pub fn from_bits(bits: u16) -> (r: AccessFlags)
        ensures
            r.bits == bits,
    {
        AccessFlags { bits }
    }

    /// Whether every bit of `flag` is set.
    pub fn contains(&self, flag: u16) -> (r: bool)
        ensures
            r == has_bits(self.bits, flag),
    {
        self.bits & flag == flag
    }

    /// Sets the bits of `flag`.
    pub fn insert(&mut self, flag: u16)
        ensures
            final(self).bits == old(self).bits | flag,
            has_bits(final(self).bits, flag),
    {
        proof {
            lemma_insert_has(self.bits, flag);
        }
        self.bits = self.bits | flag;
    }
}

impl FrameModifiers {
    /// No modifier set.
    pub fn empty() -> (r: FrameModifiers)
        ensures
            r.bits == 0,
    {
        FrameModifiers { bits: 0 }
    }

    /// Whether every bit of `flag` is set.
    pub fn contains(&self, flag: u16) -> (r: bool)
        ensures
            r == has_bits(self.bits, flag),
    {
        self.bits & flag == flag
    }

    /// Sets the bits of `flag`.
    pub fn insert(&mut self, flag: u16)
        ensures
            final(self).bits == old(self).bits | flag,
            has_bits(final(self).bits, flag),
    {
        proof {
            lemma_insert_has(self.bits, flag);
        }
        self.bits = self.bits | flag;
    }

    /// Clears the bits of `flag`.
    pub fn remove(&mut self, flag: u16)
        ensures
            final(self).bits == old(self).bits & !flag,
            flag != 0 ==> !has_bits(final(self).bits, flag),
    {
        proof {
            lemma_remove_has_not(self.bits, flag);
        }
        self.bits = self.bits & !flag;
    }
}

} // verus!
