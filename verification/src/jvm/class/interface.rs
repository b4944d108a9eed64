//! The interfaces that a class names.

use super::{be16, has_bytes, ClassBuilderError, ClassFileIter, Decoded, FromClassFileIter};
use vstd::prelude::*;

verus! {

/// A reference to the pool entry of an interface, written as the tag of a
/// `Class` constant followed by the entry's index.
#[derive(Debug, Clone, Copy, PartialEq, Eq, Structural)]
pub struct InterfaceEntry {
    pub name_index: u16,
}

impl View for InterfaceEntry {
    type V = InterfaceEntry;

    open spec fn view(&self) -> InterfaceEntry {
        *self
    }
}

impl FromClassFileIter for InterfaceEntry {
    /// A tag byte, which must be that of a `Class` constant (7), then the
    /// 16-bit index. Another tag is rejected before the index is read.
    open spec fn spec_from_iter(bytes: Seq<u8>, at: int) -> Decoded<InterfaceEntry> {
        if !has_bytes(bytes, at, 1) {
            Err(ClassBuilderError::EndOfInput)
        } else if bytes[at] != 0x07 {
            Err(ClassBuilderError::InvalidConstantTag(bytes[at]))
        } else if !has_bytes(bytes, at + 1, 2) {
            Err(ClassBuilderError::EndOfInput)
        } else {
            Ok((InterfaceEntry { name_index: be16(bytes, at + 1) as u16 }, at + 3))
        }
    }

    fn from_iter(iter: &mut ClassFileIter) -> (r: Result<Self, ClassBuilderError>) {
        let c: u8 = iter.next_u8()?;
        if c != 0x07 {
            return Err(ClassBuilderError::InvalidConstantTag(c));
        }
        Ok(InterfaceEntry { name_index: iter.next_u16()? })
    }
}

} // verus!
