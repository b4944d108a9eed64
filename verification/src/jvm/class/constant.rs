//! The constant pool: its entries, their decoding from bytes (modified UTF-8
//! strings included) and the lookups the rest of the runtime goes through.

use super::{
    array_decodes_as, as_signed32, as_signed64, be16, be32, be64, decodes_as, extend_decoded,
    has_bytes, views, ClassBuilderError, ClassFileIter, Decoded,
};
use vstd::prelude::*;

verus! {

/// What a method handle does with the member it refers to.
#[derive(Debug, Clone, Copy, PartialEq, Eq, PartialOrd, Ord, Structural)]
pub enum ReferenceKind {
    GetField,
    GetStatic,
    PutField,
    PutStatic,
    InvokeVirtual,
    InvokeStatic,
    InvokeSpecial,
    NewInvokeSpecial,
    InvokeInterface,
}

impl ReferenceKind {
    /// The kind that the tag `val` stands for; only `1..=9` stand for one.
    pub open spec fn spec_from_u8(val: u8) -> Option<ReferenceKind> {
        if val == 1 {
            Some(ReferenceKind::GetField)
        } else if val == 2 {
            Some(ReferenceKind::GetStatic)
        } else if val == 3 {
            Some(ReferenceKind::PutField)
        } else if val == 4 {
            Some(ReferenceKind::PutStatic)
        } else if val == 5 {
            Some(ReferenceKind::InvokeVirtual)
        } else if val == 6 {
            Some(ReferenceKind::InvokeStatic)
        } else if val == 7 {
            Some(ReferenceKind::InvokeSpecial)
        } else if val == 8 {
            Some(ReferenceKind::NewInvokeSpecial)
        } else if val == 9 {
            Some(ReferenceKind::InvokeInterface)
        } else {
            None
        }
    }

    /// The kind that the tag `val` stands for, if it stands for one.
    pub fn from_u8(val: u8) -> (kind: Option<Self>)
        ensures
            kind == Self::spec_from_u8(val),
            kind is Some <==> 1 <= val <= 9,
    {
        Some(
            match val {
                1 => Self::GetField,
                2 => Self::GetStatic,
                3 => Self::PutField,
                4 => Self::PutStatic,
                5 => Self::InvokeVirtual,
                6 => Self::InvokeStatic,
                7 => Self::InvokeSpecial,
                8 => Self::NewInvokeSpecial,
                9 => Self::InvokeInterface,
                _ => { return None; },
            },
        )
    }
}

/// Whether a `char` can hold the code point `cp`: surrogates and values above
/// `0x10FFFF` have no character.
pub open spec fn is_scalar_value(cp: int) -> bool {
    0 <= cp <= 0xD7FF || 0xE000 <= cp <= 0x10FFFF
}

/// `char::from_u32` of the standard library: the character with code point
/// `i` when `i` is a Unicode scalar value, nothing otherwise.
pub assume_specification[ char::from_u32 ](i: u32) -> (r: Option<char>)
    ensures
        r == (if is_scalar_value(i as int) {
            Some(i as char)
        } else {
            None::<char>
        }),
;

/// `String::push` of the standard library: appends `ch` to the string.
pub assume_specification[ std::string::String::push ](s: &mut std::string::String, ch: char)
    ensures
        final(s)@ == old(s)@.push(ch),
;

/// The code point of a two-byte sequence.
pub open spec fn two_byte_code_point(lead: u8, cont: u8) -> u32 {
    ((lead as u32 & 0x1F) << 6) | (cont as u32 & 0x3F)
}

/// The code point of a three-byte sequence.
pub open spec fn three_byte_code_point(lead: u8, c1: u8, c2: u8) -> u32 {
    ((lead as u32 & 0x0F) << 12) | ((c1 as u32 & 0x3F) << 6) | (c2 as u32 & 0x3F)
}

/// `c` in front of what the rest decoded to, if the rest decoded at all.
pub open spec fn prepend_char(c: char, rest: Option<Seq<char>>) -> Option<Seq<char>> {
    match rest {
        Some(tail) => Some(seq![c] + tail),
        None => None,
    }
}

/// The characters that `bytes[at..]` spell in modified UTF-8, or `None` where
/// a lead byte is not allowed, a sequence is cut short by the end of `bytes`,
/// or a code point has no character.
pub open spec fn modified_utf8_from(bytes: Seq<u8>, at: int) -> Option<Seq<char>>
    decreases bytes.len() - at,
{
    if at < 0 || at >= bytes.len() {
        Some(Seq::empty())
    } else {
        let lead = bytes[at];
        if 0x01 <= lead <= 0x7F {
            prepend_char(lead as char, modified_utf8_from(bytes, at + 1))
        } else if 0xC0 <= lead <= 0xDF {
            if at + 1 < bytes.len() && is_scalar_value(
                two_byte_code_point(lead, bytes[at + 1]) as int,
            ) {
                prepend_char(
                    two_byte_code_point(lead, bytes[at + 1]) as char,
                    modified_utf8_from(bytes, at + 2),
                )
            } else {
                None
            }
        } else if 0xE0 <= lead <= 0xEF {
            if at + 2 < bytes.len() && is_scalar_value(
                three_byte_code_point(lead, bytes[at + 1], bytes[at + 2]) as int,
            ) {
                prepend_char(
                    three_byte_code_point(lead, bytes[at + 1], bytes[at + 2]) as char,
                    modified_utf8_from(bytes, at + 3),
                )
            } else {
                None
            }
        } else {
            None
        }
    }
}

/// The characters that the whole of `bytes` spells in modified UTF-8.
pub open spec fn modified_utf8(bytes: Seq<u8>) -> Option<Seq<char>> {
    modified_utf8_from(bytes, 0)
}

/// What was decoded so far, followed by what the rest decodes to.
pub open spec fn append_decoded(done: Seq<char>, rest: Option<Seq<char>>) -> Option<Seq<char>> {
    match rest {
        Some(tail) => Some(done + tail),
        None => None,
    }
}

/// Decodes a whole byte string as modified UTF-8.
///
/// Every byte is consumed by exactly one character; nothing is skipped and
/// nothing is substituted.
pub fn decode_modified_utf8(bytes: &[u8]) -> (r: Result<String, ClassBuilderError>)
    ensures
        match r {
            Ok(s) => modified_utf8(bytes@) == Some(s@),
            Err(e) => modified_utf8(bytes@) is None && e == ClassBuilderError::InvalidUtf8Encoding,
        },
{
    let mut string: String = String::new();
    let mut i: usize = 0;
    while i < bytes.len()
        invariant
            i <= bytes.len(),
            modified_utf8(bytes@) == append_decoded(string@, modified_utf8_from(bytes@, i as int)),
        decreases bytes.len() - i,
    {
        let ghost done = string@;
        let x: u8 = bytes[i];
        if 0x01 <= x && x <= 0x7F {
            let c: char = x as char;
            string.push(c);
            i = i + 1;
            proof {
                let rest = modified_utf8_from(bytes@, i as int);
                if rest is Some {
                    assert(done + (seq![c] + rest->0) =~= done.push(c) + rest->0);
                }
            }
        } else if 0xC0 <= x && x <= 0xDF {
            if bytes.len() - i < 2 {
                return Err(ClassBuilderError::InvalidUtf8Encoding);
            }
            let y: u8 = bytes[i + 1];
            let cp: u32 = ((x as u32 & 0x1F) << 6) | (y as u32 & 0x3F);
            match char::from_u32(cp) {
                Some(c) => {
                    string.push(c);
                    i = i + 2;
                    proof {
                        let rest = modified_utf8_from(bytes@, i as int);
                        if rest is Some {
                            assert(done + (seq![c] + rest->0) =~= done.push(c) + rest->0);
                        }
                    }
                },
                None => {
                    return Err(ClassBuilderError::InvalidUtf8Encoding);
                },
            }
        } else if 0xE0 <= x && x <= 0xEF {
            if bytes.len() - i < 3 {
                return Err(ClassBuilderError::InvalidUtf8Encoding);
            }
            let y: u8 = bytes[i + 1];
            let z: u8 = bytes[i + 2];
            let cp: u32 = ((x as u32 & 0x0F) << 12) | ((y as u32 & 0x3F) << 6) | (z as u32 & 0x3F);
            match char::from_u32(cp) {
                Some(c) => {
                    string.push(c);
                    i = i + 3;
                    proof {
                        let rest = modified_utf8_from(bytes@, i as int);
                        if rest is Some {
                            assert(done + (seq![c] + rest->0) =~= done.push(c) + rest->0);
                        }
                    }
                },
                None => {
                    return Err(ClassBuilderError::InvalidUtf8Encoding);
                },
            }
        } else {
            return Err(ClassBuilderError::InvalidUtf8Encoding);
        }
    }
    proof {
        assert(string@ + Seq::<char>::empty() =~= string@);
    }
    Ok(string)
}

/// One slot of the constant pool.
///
/// `Float` and `Double` hold the IEEE 754 bit pattern of their value.
#[derive(Debug)]
pub enum ConstantPoolEntry {
    /// The unusable second slot of a `Long` or `Double`.
    Empty,
    Class { name_index: u16 },
    Fieldref { class_index: u16, name_and_type_index: u16 },
    Methodref { class_index: u16, name_and_type_index: u16 },
    InterfaceMethodref { class_index: u16, name_and_type_index: u16 },
    String { string_index: u16 },
    Integer(i32),
    Float(u32),
    Long(i64),
    Double(u64),
    NameAndType { name_index: u16, descriptor_index: u16 },
    Utf8(String),
    MethodHandle { reference_kind: ReferenceKind, reference_index: u16 },
    MethodType { descriptor_index: u16 },
    InvokeDynamic { bootstrap_method_attr_index: u16, name_and_type_index: u16 },
}

/// The mathematical value of a [`ConstantPoolEntry`]: the same variants, with
/// the string of a `Utf8` entry as a sequence of characters.
pub enum ConstantPoolEntryView {
    Empty,
    Class { name_index: u16 },
    Fieldref { class_index: u16, name_and_type_index: u16 },
    Methodref { class_index: u16, name_and_type_index: u16 },
    InterfaceMethodref { class_index: u16, name_and_type_index: u16 },
    String { string_index: u16 },
    Integer(i32),
    Float(u32),
    Long(i64),
    Double(u64),
    NameAndType { name_index: u16, descriptor_index: u16 },
    Utf8(Seq<char>),
    MethodHandle { reference_kind: ReferenceKind, reference_index: u16 },
    MethodType { descriptor_index: u16 },
    InvokeDynamic { bootstrap_method_attr_index: u16, name_and_type_index: u16 },
}

impl ConstantPoolEntryView {
    /// Whether the entry takes two slots of the pool.
    pub open spec fn is_wide(self) -> bool {
        self is Long || self is Double
    }
}

impl View for ConstantPoolEntry {
    type V = ConstantPoolEntryView;

    open spec fn view(&self) -> ConstantPoolEntryView {
        match *self {
            ConstantPoolEntry::Empty => ConstantPoolEntryView::Empty,
            ConstantPoolEntry::Class { name_index } => ConstantPoolEntryView::Class { name_index },
            ConstantPoolEntry::Fieldref {
                class_index,
                name_and_type_index,
            } => ConstantPoolEntryView::Fieldref { class_index, name_and_type_index },
            ConstantPoolEntry::Methodref {
                class_index,
                name_and_type_index,
            } => ConstantPoolEntryView::Methodref { class_index, name_and_type_index },
            ConstantPoolEntry::InterfaceMethodref {
                class_index,
                name_and_type_index,
            } => ConstantPoolEntryView::InterfaceMethodref { class_index, name_and_type_index },
            ConstantPoolEntry::String { string_index } => ConstantPoolEntryView::String {
                string_index,
            },
            ConstantPoolEntry::Integer(v) => ConstantPoolEntryView::Integer(v),
            ConstantPoolEntry::Float(bits) => ConstantPoolEntryView::Float(bits),
            ConstantPoolEntry::Long(v) => ConstantPoolEntryView::Long(v),
            ConstantPoolEntry::Double(bits) => ConstantPoolEntryView::Double(bits),
            ConstantPoolEntry::NameAndType {
                name_index,
                descriptor_index,
            } => ConstantPoolEntryView::NameAndType { name_index, descriptor_index },
            ConstantPoolEntry::Utf8(s) => ConstantPoolEntryView::Utf8(s@),
            ConstantPoolEntry::MethodHandle {
                reference_kind,
                reference_index,
            } => ConstantPoolEntryView::MethodHandle { reference_kind, reference_index },
            ConstantPoolEntry::MethodType { descriptor_index } => ConstantPoolEntryView::MethodType {
                descriptor_index,
            },
            ConstantPoolEntry::InvokeDynamic {
                bootstrap_method_attr_index,
                name_and_type_index,
            } => ConstantPoolEntryView::InvokeDynamic {
                bootstrap_method_attr_index,
                name_and_type_index,
            },
        }
    }
}

/// The entry whose body is the single 16-bit index at `at`.
pub open spec fn spec_one_index(
    bytes: Seq<u8>,
    at: int,
    make: spec_fn(u16) -> ConstantPoolEntryView,
) -> Decoded<ConstantPoolEntryView> {
    if has_bytes(bytes, at, 2) {
        Ok((make(be16(bytes, at) as u16), at + 2))
    } else {
        Err(ClassBuilderError::EndOfInput)
    }
}

/// The entry whose body is the two 16-bit indices at `at`.
pub open spec fn spec_two_indices(
    bytes: Seq<u8>,
    at: int,
    make: spec_fn(u16, u16) -> ConstantPoolEntryView,
) -> Decoded<ConstantPoolEntryView> {
    if has_bytes(bytes, at, 4) {
        Ok((make(be16(bytes, at) as u16, be16(bytes, at + 2) as u16), at + 4))
    } else {
        Err(ClassBuilderError::EndOfInput)
    }
}

/// The `Utf8` entry whose body starts at `at`: a 16-bit byte count, then that
/// many bytes of modified UTF-8.
pub open spec fn spec_utf8_body(bytes: Seq<u8>, at: int) -> Decoded<ConstantPoolEntryView> {
    if !has_bytes(bytes, at, 2) {
        Err(ClassBuilderError::EndOfInput)
    } else if !has_bytes(bytes, at + 2, be16(bytes, at)) {
        Err(ClassBuilderError::EndOfInput)
    } else {
        let end = at + 2 + be16(bytes, at);
        match modified_utf8(bytes.subrange(at + 2, end)) {
            Some(chars) => Ok((ConstantPoolEntryView::Utf8(chars), end)),
            None => Err(ClassBuilderError::InvalidUtf8Encoding),
        }
    }
}

/// The `MethodHandle` entry whose body starts at `at`: a kind byte, checked
/// before anything else is read, then a 16-bit index.
pub open spec fn spec_method_handle_body(bytes: Seq<u8>, at: int) -> Decoded<
    ConstantPoolEntryView,
> {
    if !has_bytes(bytes, at, 1) {
        Err(ClassBuilderError::EndOfInput)
    } else {
        match ReferenceKind::spec_from_u8(bytes[at]) {
            None => Err(ClassBuilderError::InvalidReferenceKind),
            Some(reference_kind) => if has_bytes(bytes, at + 1, 2) {
                Ok(
                    (
                        ConstantPoolEntryView::MethodHandle {
                            reference_kind,
                            reference_index: be16(bytes, at + 1) as u16,
                        },
                        at + 3,
                    ),
                )
            } else {
                Err(ClassBuilderError::EndOfInput)
            },
        }
    }
}

/// The body of the entry that the tag byte `tag` announces, read at `at`.
pub open spec fn spec_entry_body(bytes: Seq<u8>, tag: u8, at: int) -> Decoded<
    ConstantPoolEntryView,
> {
    if tag == 7 {
        spec_one_index(bytes, at, |name_index: u16| ConstantPoolEntryView::Class { name_index })
    } else if tag == 9 {
        spec_two_indices(
            bytes,
            at,
            |class_index: u16, name_and_type_index: u16|
                ConstantPoolEntryView::Fieldref { class_index, name_and_type_index },
        )
    } else if tag == 10 {
        spec_two_indices(
            bytes,
            at,
            |class_index: u16, name_and_type_index: u16|
                ConstantPoolEntryView::Methodref { class_index, name_and_type_index },
        )
    } else if tag == 11 {
        spec_two_indices(
            bytes,
            at,
            |class_index: u16, name_and_type_index: u16|
                ConstantPoolEntryView::InterfaceMethodref { class_index, name_and_type_index },
        )
    } else if tag == 8 {
        spec_one_index(
            bytes,
            at,
            |string_index: u16| ConstantPoolEntryView::String { string_index },
        )
    } else if tag == 3 {
        if has_bytes(bytes, at, 4) {
            Ok((ConstantPoolEntryView::Integer(as_signed32(be32(bytes, at)) as i32), at + 4))
        } else {
            Err(ClassBuilderError::EndOfInput)
        }
    } else if tag == 4 {
        if has_bytes(bytes, at, 4) {
            Ok((ConstantPoolEntryView::Float(be32(bytes, at) as u32), at + 4))
        } else {
            Err(ClassBuilderError::EndOfInput)
        }
    } else if tag == 5 {
        if has_bytes(bytes, at, 8) {
            Ok((ConstantPoolEntryView::Long(as_signed64(be64(bytes, at)) as i64), at + 8))
        } else {
            Err(ClassBuilderError::EndOfInput)
        }
    } else if tag == 6 {
        if has_bytes(bytes, at, 8) {
            Ok((ConstantPoolEntryView::Double(be64(bytes, at) as u64), at + 8))
        } else {
            Err(ClassBuilderError::EndOfInput)
        }
    } else if tag == 12 {
        spec_two_indices(
            bytes,
            at,
            |name_index: u16, descriptor_index: u16|
                ConstantPoolEntryView::NameAndType { name_index, descriptor_index },
        )
    } else if tag == 1 {
        spec_utf8_body(bytes, at)
    } else if tag == 15 {
        spec_method_handle_body(bytes, at)
    } else if tag == 16 {
        spec_one_index(
            bytes,
            at,
            |descriptor_index: u16| ConstantPoolEntryView::MethodType { descriptor_index },
        )
    } else if tag == 18 {
        spec_two_indices(
            bytes,
            at,
            |bootstrap_method_attr_index: u16, name_and_type_index: u16|
                ConstantPoolEntryView::InvokeDynamic {
                    bootstrap_method_attr_index,
                    name_and_type_index,
                },
        )
    } else {
        Err(ClassBuilderError::InvalidConstantTag(tag))
    }
}

/// The pool entry encoded at `at`: a tag byte, then the body that the tag
/// announces.
pub open spec fn spec_entry(bytes: Seq<u8>, at: int) -> Decoded<ConstantPoolEntryView> {
    if has_bytes(bytes, at, 1) {
        spec_entry_body(bytes, bytes[at], at + 1)
    } else {
        Err(ClassBuilderError::EndOfInput)
    }
}

impl ConstantPoolEntry {
    /// The string of a `Utf8` entry; nothing for any other kind.
    pub fn get_utf8(&self) -> (r: Option<&str>)
        ensures
            match r {
                Some(s) => self@ == ConstantPoolEntryView::Utf8(s@),
                None => self@ !is Utf8,
            },
    {
        match self {
            Self::Utf8(s) => Some(s.as_str()),
            _ => None,
        }
    }

    /// Decodes one pool entry at the cursor: the tag byte, then its body.
    pub fn from_iter(iter: &mut ClassFileIter) -> (r: Result<Self, ClassBuilderError>)
        ensures
            final(iter).bytes() == old(iter).bytes(),
            decodes_as(
                r,
                final(iter).position(),
                spec_entry(old(iter).bytes(), old(iter).position()),
            ),
    {
        let tag: u8 = iter.next_u8()?;
        match tag {
            7 => Ok(ConstantPoolEntry::Class { name_index: iter.next_u16()? }),
            9 => {
                let class_index: u16 = iter.next_u16()?;
                let name_and_type_index: u16 = iter.next_u16()?;
                Ok(ConstantPoolEntry::Fieldref { class_index, name_and_type_index })
            },
            10 => {
                let class_index: u16 = iter.next_u16()?;
                let name_and_type_index: u16 = iter.next_u16()?;
                Ok(ConstantPoolEntry::Methodref { class_index, name_and_type_index })
            },
            11 => {
                let class_index: u16 = iter.next_u16()?;
                let name_and_type_index: u16 = iter.next_u16()?;
                Ok(ConstantPoolEntry::InterfaceMethodref { class_index, name_and_type_index })
            },
            8 => Ok(ConstantPoolEntry::String { string_index: iter.next_u16()? }),
            3 => {
                let bits: u32 = iter.next_u32()?;
                assert(bits as i32 == as_signed32(bits as int)) by (bit_vector);
                Ok(ConstantPoolEntry::Integer(bits as i32))
            },
            4 => Ok(ConstantPoolEntry::Float(iter.next_u32()?)),
            5 => {
                let bits: u64 = iter.next_u64()?;
                assert(bits as i64 == as_signed64(bits as int)) by (bit_vector);
                Ok(ConstantPoolEntry::Long(bits as i64))
            },
            6 => Ok(ConstantPoolEntry::Double(iter.next_u64()?)),
            12 => {
                let name_index: u16 = iter.next_u16()?;
                let descriptor_index: u16 = iter.next_u16()?;
                Ok(ConstantPoolEntry::NameAndType { name_index, descriptor_index })
            },
            1 => {
                let len: u16 = iter.next_u16()?;
                let raw: Vec<u8> = iter.next_n_u8(len as usize)?;
                let string: String = decode_modified_utf8(raw.as_slice())?;
                Ok(ConstantPoolEntry::Utf8(string))
            },
            15 => {
                let kind: u8 = iter.next_u8()?;
                let reference_kind: ReferenceKind = match ReferenceKind::from_u8(kind) {
                    Some(k) => k,
                    None => { return Err(ClassBuilderError::InvalidReferenceKind); },
                };
                let reference_index: u16 = iter.next_u16()?;
                Ok(ConstantPoolEntry::MethodHandle { reference_kind, reference_index })
            },
            16 => Ok(ConstantPoolEntry::MethodType { descriptor_index: iter.next_u16()? }),
            18 => {
                let bootstrap_method_attr_index: u16 = iter.next_u16()?;
                let name_and_type_index: u16 = iter.next_u16()?;
                Ok(
                    ConstantPoolEntry::InvokeDynamic {
                        bootstrap_method_attr_index,
                        name_and_type_index,
                    },
                )
            },
            c => Err(ClassBuilderError::InvalidConstantTag(c)),
        }
    }
}

/// The slots that one decoded entry fills: itself, and after a `Long` or a
/// `Double` the `Empty` placeholder.
pub open spec fn slots_of(entry: ConstantPoolEntryView) -> Seq<ConstantPoolEntryView> {
    if entry.is_wide() {
        seq![entry, ConstantPoolEntryView::Empty]
    } else {
        seq![entry]
    }
}

/// The pool slots decoded from `at` on while `slots` logical slots are still
/// owed. An entry is decoded only while a slot is owed; a `Long` or `Double`
/// in the last owed slot still brings its placeholder.
pub open spec fn spec_entries(bytes: Seq<u8>, at: int, slots: nat) -> Decoded<
    Seq<ConstantPoolEntryView>,
>
    decreases slots,
{
    if slots == 0 {
        Ok((Seq::empty(), at))
    } else {
        match spec_entry(bytes, at) {
            Err(e) => Err(e),
            Ok((entry, next)) => extend_decoded(
                slots_of(entry),
                spec_entries(
                    bytes,
                    next,
                    if slots_of(entry).len() <= slots {
                        (slots - slots_of(entry).len()) as nat
                    } else {
                        0
                    },
                ),
            ),
        }
    }
}

/// The constant pool encoded at `at`: a 16-bit count `n`, then the entries of
/// the logical slots `1..n`. A count of zero announces no slot, as a count of
/// one does.
pub open spec fn spec_pool(bytes: Seq<u8>, at: int) -> Decoded<Seq<ConstantPoolEntryView>> {
    if has_bytes(bytes, at, 2) {
        spec_entries(
            bytes,
            at + 2,
            if be16(bytes, at) >= 1 {
                (be16(bytes, at) - 1) as nat
            } else {
                0
            },
        )
    } else {
        Err(ClassBuilderError::EndOfInput)
    }
}

impl ConstantPoolEntry {
    /// Decodes a whole constant pool at the cursor: the count, then the
    /// entries, each `Long` and `Double` followed by its placeholder.
    pub fn from_arr(iter: &mut ClassFileIter) -> (r: Result<Vec<Self>, ClassBuilderError>)
        ensures
            final(iter).bytes() == old(iter).bytes(),
            array_decodes_as(
                r,
                final(iter).position(),
                spec_pool(old(iter).bytes(), old(iter).position()),
            ),
    {
        let count: u16 = iter.next_u16()?;
        let mut owed: u16 = if count >= 1 {
            count - 1
        } else {
            0
        };
        let ghost bytes = iter.bytes();
        let ghost whole = spec_pool(old(iter).bytes(), old(iter).position());
        let mut vec: Vec<Self> = Vec::new();
        assert(views(vec@) =~= Seq::empty());
        while owed > 0
            invariant
                iter.bytes() == bytes,
                bytes == old(iter).bytes(),
                whole == spec_pool(old(iter).bytes(), old(iter).position()),
                whole == extend_decoded(
                    views(vec@),
                    spec_entries(bytes, iter.position(), owed as nat),
                ),
            decreases owed,
        {
            let ghost before = views(vec@);
            let ghost rest_before = spec_entries(bytes, iter.position(), owed as nat);
            let item: Self = match Self::from_iter(iter) {
                Ok(item) => item,
                Err(e) => { return Err(e); },
            };
            let two: bool = match item {
                ConstantPoolEntry::Long(_) => true,
                ConstantPoolEntry::Double(_) => true,
                _ => false,
            };
            let ghost item_view = item@;
            vec.push(item);
            owed = owed - 1;
            if two {
                vec.push(ConstantPoolEntry::Empty);
                if owed > 0 {
                    owed = owed - 1;
                }
            }
            proof {
                assert(views(vec@) =~= before + slots_of(item_view));
                let rest = spec_entries(bytes, iter.position(), owed as nat);
                assert(rest_before == extend_decoded(slots_of(item_view), rest));
                if rest is Ok {
                    assert(before + (slots_of(item_view) + rest->Ok_0.0) =~= (before + slots_of(
                        item_view,
                    )) + rest->Ok_0.0);
                }
            }
        }
        proof {
            assert(views(vec@) + Seq::<ConstantPoolEntryView>::empty() =~= views(
                vec@,
            ));
        }
        Ok(vec)
    }
}

/// The slot with the 1-based index `index`; index 0 and indices past the
/// last slot name none.
pub open spec fn spec_get(pool: Seq<ConstantPoolEntryView>, index: u16) -> Option<
    ConstantPoolEntryView,
> {
    if 1 <= index <= pool.len() {
        Some(pool[index - 1])
    } else {
        None
    }
}

/// The string of the `Utf8` entry at `index`, if that slot holds one.
pub open spec fn spec_utf8(pool: Seq<ConstantPoolEntryView>, index: u16) -> Option<Seq<char>> {
    match spec_get(pool, index) {
        Some(ConstantPoolEntryView::Utf8(s)) => Some(s),
        _ => None,
    }
}

/// The name of the `Class` entry at `index`: the string of the `Utf8` entry
/// that it points to.
pub open spec fn spec_class_name(pool: Seq<ConstantPoolEntryView>, index: u16) -> Option<
    Seq<char>,
> {
    match spec_get(pool, index) {
        Some(ConstantPoolEntryView::Class { name_index }) => spec_utf8(pool, name_index),
        _ => None,
    }
}

/// What a dump shows for the string at `index`: the string, or a marker that
/// says why there is none.
pub open spec fn spec_utf8_or_invalid(pool: Seq<ConstantPoolEntryView>, index: u16) -> Seq<char> {
    match spec_get(pool, index) {
        None => "##INVALID_INDEX##"@,
        Some(ConstantPoolEntryView::Utf8(s)) => s,
        Some(_) => "##CONSTANT_NOT_UTF8##"@,
    }
}

/// What a dump shows for the class name at `index`: the name, or a marker
/// that says why there is none.
pub open spec fn spec_class_name_or_invalid(
    pool: Seq<ConstantPoolEntryView>,
    index: u16,
) -> Seq<char> {
    match spec_get(pool, index) {
        None => "##INVALID_INDEX##"@,
        Some(ConstantPoolEntryView::Class { name_index }) => spec_utf8_or_invalid(pool, name_index),
        Some(_) => "##CONSTANT_NOT_CLASS##"@,
    }
}

/// What a dump shows for the name and the descriptor of the `NameAndType`
/// entry at `index`: the two strings, or markers that say why there are
/// none.
pub open spec fn spec_name_and_type_or_invalid(
    pool: Seq<ConstantPoolEntryView>,
    index: u16,
) -> (Seq<char>, Seq<char>) {
    match spec_get(pool, index) {
        Some(ConstantPoolEntryView::NameAndType { name_index, descriptor_index }) => (
            spec_utf8_or_invalid(pool, name_index),
            spec_utf8_or_invalid(pool, descriptor_index),
        ),
        _ => ("##NOT_NAME_AND_TYPE##"@, "##NOT_NAME_AND_TYPE##"@),
    }
}

/// The 1-based table of constants that a class's structures and bytecode
/// index into.
#[derive(Debug)]
pub struct ConstantPool {
    pub constant_pool: Vec<ConstantPoolEntry>,
}

impl View for ConstantPool {
    type V = Seq<ConstantPoolEntryView>;

    open spec fn view(&self) -> Seq<ConstantPoolEntryView> {
        views(self.constant_pool@)
    }
}

impl ConstantPool {
    /// The pool whose slots 1, 2, ... hold the given entries in order.
    pub fn new(constant_pool: Vec<ConstantPoolEntry>) -> (pool: ConstantPool)
        ensures
            pool.constant_pool == constant_pool,
            pool@ == views(constant_pool@),
    {
        Self { constant_pool }
    }

    /// Moves the entries out and leaves this pool empty.
    pub fn take(&mut self) -> (taken: Self)
        ensures
            taken.constant_pool == old(self).constant_pool,
            taken@ == old(self)@,
            final(self)@ == Seq::<ConstantPoolEntryView>::empty(),
    {
        let mut tmp: Vec<ConstantPoolEntry> = Vec::new();
        core::mem::swap(&mut tmp, &mut self.constant_pool);
        assert(views(self.constant_pool@) =~= Seq::empty());
        Self { constant_pool: tmp }
    }

    /// The entry in the slot `index`, counted from 1.
    pub fn get_constant(&self, index: u16) -> (r: Option<&ConstantPoolEntry>)
        ensures
            index == 0 ==> r is None,
            match r {
                Some(e) => 1 <= index <= self.constant_pool@.len() && *e
                    == self.constant_pool@[index - 1] && spec_get(self@, index) == Some(e@),
                None => spec_get(self@, index) is None,
            },
    {
        if index == 0 || index as usize > self.constant_pool.len() {
            None
        } else {
            Some(&self.constant_pool[index as usize - 1])
        }
    }

    /// The string in the slot `index`, if the slot holds a `Utf8` entry.
    pub fn get_const_utd8(&self, index: u16) -> (r: Option<&str>)
        ensures
            index == 0 ==> r is None,
            match r {
                Some(s) => spec_utf8(self@, index) == Some(s@),
                None => spec_utf8(self@, index) is None,
            },
    {
        if let Some(i) = self.get_constant(index) {
            i.get_utf8()
        } else {
            None
        }
    }

    /// The name of the class in the slot `index`: the slot must hold a
    /// `Class` entry that points to a `Utf8` entry.
    pub fn get_class_name(&self, index: u16) -> (r: Option<&str>)
        ensures
            index == 0 ==> r is None,
            match r {
                Some(s) => spec_class_name(self@, index) == Some(s@),
                None => spec_class_name(self@, index) is None,
            },
    {
        if let Some(i) = self.get_constant(index) {
            if let ConstantPoolEntry::Class { name_index } = i {
                self.get_const_utd8(*name_index)
            } else {
                None
            }
        } else {
            None
        }
    }

    /// For dumps only: the class name in the slot `index`, or a marker where
    /// there is none. Decisions go by [`ConstantPool::get_class_name`].
    pub fn get_class_name_invalid(&self, index: u16) -> (r: &str)
        ensures
            r@ == spec_class_name_or_invalid(self@, index),
            index == 0 ==> r@ == "##INVALID_INDEX##"@,
    {
        if let Some(i) = self.get_constant(index) {
            if let ConstantPoolEntry::Class { name_index } = i {
                self.get_const_utd8_or_invalid(*name_index)
            } else {
                "##CONSTANT_NOT_CLASS##"
            }
        } else {
            "##INVALID_INDEX##"
        }
    }

    /// For dumps only: the name and the descriptor of the `NameAndType` entry
    /// in the slot `index`, or markers where there are none.
    pub fn get_name_and_type_invalid(&self, index: u16) -> (r: (&str, &str))
        ensures
            (r.0@, r.1@) == spec_name_and_type_or_invalid(self@, index),
    {
        match self.get_constant(index) {
            Some(ConstantPoolEntry::NameAndType { name_index, descriptor_index }) => (
                self.get_const_utd8_or_invalid(*name_index),
                self.get_const_utd8_or_invalid(*descriptor_index),
            ),
            _ => ("##NOT_NAME_AND_TYPE##", "##NOT_NAME_AND_TYPE##"),
        }
    }

    /// For dumps only: the string in the slot `index`, or a marker where
    /// there is none. Decisions go by [`ConstantPool::get_const_utd8`].
    pub fn get_const_utd8_or_invalid(&self, index: u16) -> (r: &str)
        ensures
            r@ == spec_utf8_or_invalid(self@, index),
            index == 0 ==> r@ == "##INVALID_INDEX##"@,
    {
        if let Some(i) = self.get_constant(index) {
            match i.get_utf8() {
                Some(s) => s,
                None => "##CONSTANT_NOT_UTF8##",
            }
        } else {
            "##INVALID_INDEX##"
        }
    }
}

/// No slot has the index 0: whatever the pool holds, every lookup at 0 finds
/// nothing, and the lookups for dumps show the marker of a bad index.
pub proof fn lemma_index_zero_is_absent(pool: Seq<ConstantPoolEntryView>)
    ensures
        spec_get(pool, 0) is None,
        spec_utf8(pool, 0) is None,
        spec_class_name(pool, 0) is None,
        spec_utf8_or_invalid(pool, 0) == "##INVALID_INDEX##"@,
        spec_class_name_or_invalid(pool, 0) == "##INVALID_INDEX##"@,
{
}

/// Whether `pool` is laid out as a decoder leaves it: the first slot is no
/// placeholder, each `Long` and `Double` is followed by an `Empty`
/// placeholder, and an `Empty` slot stands nowhere else.
pub open spec fn placeholders_follow_wide_entries(pool: Seq<ConstantPoolEntryView>) -> bool {
    &&& forall|k: int|
        0 <= k < pool.len() && (#[trigger] pool[k]).is_wide() ==> k + 1 < pool.len() && pool[k
            + 1] is Empty
    &&& forall|k: int|
        0 <= k < pool.len() && (#[trigger] pool[k]) is Empty ==> k >= 1 && pool[k - 1].is_wide()
}

/// A decoded entry is never the placeholder, and it takes at least one byte
/// and none from behind the buffer.
pub proof fn lemma_decoded_entry_is_not_empty(bytes: Seq<u8>, at: int)
    requires
        spec_entry(bytes, at) is Ok,
    ensures
        spec_entry(bytes, at)->Ok_0.0 !is Empty,
        at < spec_entry(bytes, at)->Ok_0.1 <= bytes.len(),
{
}

/// The layout of a decoded run of slots: placeholders stand exactly behind
/// the wide entries, and the run is as long as the slots owed, or one longer
/// where a wide entry filled the last owed slot.
pub proof fn lemma_entries_layout(bytes: Seq<u8>, at: int, slots: nat)
    requires
        spec_entries(bytes, at, slots) is Ok,
    ensures
        placeholders_follow_wide_entries(spec_entries(bytes, at, slots)->Ok_0.0),
        slots <= spec_entries(bytes, at, slots)->Ok_0.0.len() <= slots + 1,
        spec_entries(bytes, at, slots)->Ok_0.0.len() == slots + 1 ==> spec_entries(
            bytes,
            at,
            slots,
        )->Ok_0.0.last() is Empty,
    decreases slots,
{
    if slots > 0 {
        lemma_decoded_entry_is_not_empty(bytes, at);
        let (entry, next) = spec_entry(bytes, at)->Ok_0;
        let first = slots_of(entry);
        let owed: nat = if first.len() <= slots {
            (slots - first.len()) as nat
        } else {
            0
        };
        lemma_entries_layout(bytes, next, owed);
        let rest = spec_entries(bytes, next, owed)->Ok_0.0;
        let pool = spec_entries(bytes, at, slots)->Ok_0.0;
        assert(pool == first + rest);
        assert forall|k: int| 0 <= k < pool.len() && (#[trigger] pool[k]).is_wide() implies k + 1
            < pool.len() && pool[k + 1] is Empty by {
            if k >= first.len() {
                assert(rest[k - first.len()].is_wide());
            }
        }
        assert forall|k: int| 0 <= k < pool.len() && (#[trigger] pool[k]) is Empty implies k >= 1
            && pool[k - 1].is_wide() by {
            if k >= first.len() {
                assert(rest[k - first.len()] is Empty);
            }
        }
    }
}

/// In a decoded pool a `Long` or `Double` in slot `k` has the `Empty`
/// placeholder in slot `k + 1`, and the slot `k + 2`, where there is one,
/// holds the entry that was decoded next.
pub proof fn lemma_pool_layout(bytes: Seq<u8>, at: int)
    requires
        spec_pool(bytes, at) is Ok,
    ensures
        placeholders_follow_wide_entries(spec_pool(bytes, at)->Ok_0.0),
        forall|k: int|
            0 <= k && k + 2 < spec_pool(bytes, at)->Ok_0.0.len() && (#[trigger] spec_pool(
                bytes,
                at,
            )->Ok_0.0[k]).is_wide() ==> spec_pool(bytes, at)->Ok_0.0[k + 1] is Empty && spec_pool(
                bytes,
                at,
            )->Ok_0.0[k + 2] !is Empty,
{
    let slots: nat = if be16(bytes, at) >= 1 {
        (be16(bytes, at) - 1) as nat
    } else {
        0
    };
    lemma_entries_layout(bytes, at + 2, slots);
    let pool = spec_pool(bytes, at)->Ok_0.0;
    assert forall|k: int| 0 <= k && k + 2 < pool.len() && (#[trigger] pool[k]).is_wide() implies pool[k
        + 1] is Empty && pool[k + 2] !is Empty by {
        if pool[k + 2] is Empty {
            assert(pool[k + 1].is_wide());
        }
    }
}

/// Decoding an entry looks only at the bytes of the entry: where `bytes`
/// is cut at or behind the end of a decodable entry, the entry decodes as
/// before.
pub proof fn lemma_entry_ignores_what_follows(bytes: Seq<u8>, at: int, cut: int)
    requires
        spec_entry(bytes, at) is Ok,
        spec_entry(bytes, at)->Ok_0.1 <= cut <= bytes.len(),
    ensures
        spec_entry(bytes.subrange(0, cut), at) == spec_entry(bytes, at),
{
    let short = bytes.subrange(0, cut);
    if bytes[at] == 1 {
        let end = at + 3 + be16(bytes, at + 1);
        assert(short.subrange(at + 3, end) =~= bytes.subrange(at + 3, end));
    }
}

/// An entry that is cut short fails with `EndOfInput`: where `bytes` is cut
/// inside a decodable entry, decoding the entry runs out of input.
pub proof fn lemma_entry_truncated(bytes: Seq<u8>, at: int, cut: int)
    requires
        spec_entry(bytes, at) is Ok,
        0 <= cut < spec_entry(bytes, at)->Ok_0.1,
        cut <= bytes.len(),
    ensures
        spec_entry(bytes.subrange(0, cut), at) == Err::<(ConstantPoolEntryView, int), _>(
            ClassBuilderError::EndOfInput,
        ),
{
}

/// A run of slots that is cut short fails with `EndOfInput`: where `bytes`
/// is cut inside the encoding of a decodable run, decoding the run runs out
/// of input.
pub proof fn lemma_entries_truncated(bytes: Seq<u8>, at: int, slots: nat, cut: int)
    requires
        spec_entries(bytes, at, slots) is Ok,
        0 <= at <= cut < spec_entries(bytes, at, slots)->Ok_0.1,
        cut <= bytes.len(),
    ensures
        spec_entries(bytes.subrange(0, cut), at, slots) == Err::<
            (Seq<ConstantPoolEntryView>, int),
            _,
        >(ClassBuilderError::EndOfInput),
    decreases slots,
{
    if slots > 0 {
        let (entry, next) = spec_entry(bytes, at)->Ok_0;
        lemma_decoded_entry_is_not_empty(bytes, at);
        if cut < next {
            lemma_entry_truncated(bytes, at, cut);
        } else {
            lemma_entry_ignores_what_follows(bytes, at, cut);
            let owed: nat = if slots_of(entry).len() <= slots {
                (slots - slots_of(entry).len()) as nat
            } else {
                0
            };
            lemma_entries_truncated(bytes, next, owed, cut);
        }
    }
}

/// A constant pool that is cut short fails with `EndOfInput`: where a
/// buffer is cut behind the count of a decodable pool and before the end of
/// its last entry, decoding the pool runs out of input.
pub proof fn lemma_pool_truncated(bytes: Seq<u8>, at: int, cut: int)
    requires
        spec_pool(bytes, at) is Ok,
        0 <= at,
        at + 2 <= cut < spec_pool(bytes, at)->Ok_0.1,
        cut <= bytes.len(),
    ensures
        spec_pool(bytes.subrange(0, cut), at) == Err::<(Seq<ConstantPoolEntryView>, int), _>(
            ClassBuilderError::EndOfInput,
        ),
{
    let slots: nat = if be16(bytes, at) >= 1 {
        (be16(bytes, at) - 1) as nat
    } else {
        0
    };
    lemma_entries_truncated(bytes, at + 2, slots, cut);
}

} // verus!
