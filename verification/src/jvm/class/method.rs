//! The methods that a class declares.

use super::attribute::{AttributeEntry, AttributeEntryView};
use super::{
    be16, from_arr, has_bytes, spec_array, ClassBuilderError, ClassFileIter, Decoded,
    FromClassFileIter,
};
use vstd::prelude::*;

verus! {

/// The access flags of a method: sixteen bits, some of them named. The bits
/// without a name are kept as they were read.
#[derive(Debug, Clone, Copy, PartialEq, Eq, Structural)]
pub struct AccessFlags(u16);

impl View for AccessFlags {
    type V = u16;

    closed spec fn view(&self) -> u16 {
        self.0
    }
}

impl AccessFlags {
    pub const PUBLIC: u16 = 0x0001;

    pub const PRIVATE: u16 = 0x0002;

    pub const PROTECTED: u16 = 0x0004;

    pub const STATIC: u16 = 0x0008;

    pub const FINAL: u16 = 0x0010;

    pub const SYNCRONIZED: u16 = 0x0020;

    pub const BRIDGE: u16 = 0x0040;

    pub const NATIVE: u16 = 0x0080;

    pub const ABSTRACT: u16 = 0x0200;

    pub const STRICT: u16 = 0x0400;

    pub const SYNTHETIC: u16 = 0x0800;

    /// The flags whose sixteen bits are `bits`.
    pub closed spec fn spec_from_bits(bits: u16) -> AccessFlags {
        AccessFlags(bits)
    }

    /// The flags whose sixteen bits are `bits`, named or not.
    pub fn from_bits(bits: u16) -> (flags: Self)
        ensures
            flags == Self::spec_from_bits(bits),
            flags@ == bits,
    {
        AccessFlags(bits)
    }

    /// The flags with no bit set.
    pub fn new() -> (flags: Self)
        ensures
            flags@ == 0,
    {
        AccessFlags(0)
    }

    /// All sixteen bits of these flags.
    pub fn bits(self) -> (bits: u16)
        ensures
            bits == self@,
    {
        self.0
    }

    /// Whether a bit of the mask `flag` is set.
    pub fn get(self, flag: u16) -> (set: bool)
        ensures
            set == (self@ & flag != 0),
    {
        self.0 & flag != 0
    }

    /// These flags with the bits of the mask `flag` set or cleared, and every
    /// other bit as it was.
    pub fn with(self, flag: u16, value: bool) -> (flags: Self)
        ensures
            flags@ == (if value {
                self@ | flag
            } else {
                self@ & !flag
            }),
    {
        if value {
            AccessFlags(self.0 | flag)
        } else {
            AccessFlags(self.0 & !flag)
        }
    }

    /// Flags made from any sixteen bits give those bits back, the unnamed
    /// ones included, and flags made from the bits of others are the same
    /// flags.
    pub proof fn lemma_bits_round_trip(bits: u16, flags: AccessFlags)
        ensures
            Self::spec_from_bits(bits)@ == bits,
            Self::spec_from_bits(flags@) == flags,
    {
    }
}

/// One method of a class.
#[derive(Debug)]
pub struct MethodEntry {
    pub access_flags: AccessFlags,
    pub name_index: u16,
    pub descriptor_index: u16,
    pub attributes: Vec<AttributeEntry>,
}

/// The mathematical value of a [`MethodEntry`]; the flags stand as their bits.
pub struct MethodEntryView {
    pub access_flags: u16,
    pub name_index: u16,
    pub descriptor_index: u16,
    pub attributes: Seq<AttributeEntryView>,
}

impl View for MethodEntry {
    type V = MethodEntryView;

    open spec fn view(&self) -> MethodEntryView {
        MethodEntryView {
            access_flags: self.access_flags@,
            name_index: self.name_index,
            descriptor_index: self.descriptor_index,
            attributes: super::views(self.attributes@),
        }
    }
}

impl FromClassFileIter for MethodEntry {
    /// Three 16-bit fields (flags, name, descriptor), then the counted array
    /// of attributes.
    open spec fn spec_from_iter(bytes: Seq<u8>, at: int) -> Decoded<MethodEntryView> {
        if !has_bytes(bytes, at, 6) {
            Err(ClassBuilderError::EndOfInput)
        } else {
            match spec_array::<AttributeEntry>(bytes, at + 6) {
                Err(e) => Err(e),
                Ok((attributes, next)) => Ok(
                    (
                        MethodEntryView {
                            access_flags: be16(bytes, at) as u16,
                            name_index: be16(bytes, at + 2) as u16,
                            descriptor_index: be16(bytes, at + 4) as u16,
                            attributes,
                        },
                        next,
                    ),
                ),
            }
        }
    }

    fn from_iter(iter: &mut ClassFileIter) -> (r: Result<Self, ClassBuilderError>) {
        let access_flags: AccessFlags = AccessFlags::from_bits(iter.next_u16()?);
        let name_index: u16 = iter.next_u16()?;
        let descriptor_index: u16 = iter.next_u16()?;
        let attributes: Vec<AttributeEntry> = from_arr(iter)?;
        Ok(MethodEntry { access_flags, name_index, descriptor_index, attributes })
    }
}

} // verus!
