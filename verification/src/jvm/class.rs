//! Decoding of one class binary: the byte cursor, the error kinds and the
//! class record itself.

use self::attribute::{promote_attributes, spec_promote_all, AttributeEntry, AttributeEntryView};
use self::constant::{
    lemma_pool_truncated, spec_pool, spec_utf8, ConstantPool, ConstantPoolEntry,
    ConstantPoolEntryView,
};
use self::field::{FieldEntry, FieldEntryView};
use self::interface::InterfaceEntry;
use self::method::{MethodEntry, MethodEntryView};
use vstd::prelude::*;

pub mod attribute;
pub mod constant;
pub mod field;
pub mod interface;
pub mod method;

verus! {

/// Why decoding a class binary stopped. Every kind aborts the whole decode.
#[derive(Debug, Clone, Copy, PartialEq, Eq, Structural)]
pub enum ClassBuilderError {
    /// The first four bytes are not `0xCAFEBABE`.
    InvalidMagic,
    /// Fewer bytes remain than the next read asks for.
    EndOfInput,
    /// A constant-pool tag byte that names no entry kind.
    InvalidConstantTag(u8),
    /// Bytes of a Utf8 entry that the modified UTF-8 rules reject.
    InvalidUtf8Encoding,
    /// A method-handle kind outside `1..=9`.
    InvalidReferenceKind,
}

/// The unsigned 16-bit big-endian integer at `s[at..at + 2]`.
pub open spec fn be16(s: Seq<u8>, at: int) -> int {
    s[at] as int * 0x100 + s[at + 1] as int
}

/// The unsigned 32-bit big-endian integer at `s[at..at + 4]`.
pub open spec fn be32(s: Seq<u8>, at: int) -> int {
    be16(s, at) * 0x1_0000 + be16(s, at + 2)
}

/// The unsigned 64-bit big-endian integer at `s[at..at + 8]`.
pub open spec fn be64(s: Seq<u8>, at: int) -> int {
    be32(s, at) * 0x1_0000_0000 + be32(s, at + 4)
}

/// Whether `n` bytes can be read from `s` starting at `at`.
pub open spec fn has_bytes(s: Seq<u8>, at: int, n: int) -> bool {
    0 <= at && 0 <= n && at + n <= s.len()
}

/// The two's-complement reading of an unsigned 32-bit pattern.
pub open spec fn as_signed32(u: int) -> int {
    if u < 0x8000_0000 {
        u
    } else {
        u - 0x1_0000_0000
    }
}

/// The two's-complement reading of an unsigned 64-bit pattern.
pub open spec fn as_signed64(u: int) -> int {
    if u < 0x8000_0000_0000_0000 {
        u
    } else {
        u - 0x1_0000_0000_0000_0000
    }
}

/// What the model of a decoder yields: the value and the position after it,
/// or the error that stops the decode.
pub type Decoded<V> = Result<(V, int), ClassBuilderError>;

/// The views of the elements of `s`, in order.
pub open spec fn views<T: View>(s: Seq<T>) -> Seq<T::V> {
    s.map_values(|t: T| t@)
}

/// `done` followed by what the rest of a decode yields.
pub open spec fn extend_decoded<V>(done: Seq<V>, rest: Decoded<Seq<V>>) -> Decoded<Seq<V>> {
    match rest {
        Ok((tail, end)) => Ok((done + tail, end)),
        Err(e) => Err(e),
    }
}

/// Whether a decoder that returned `r` and left the cursor at `end` did what
/// the model outcome `expected` prescribes: the same error, or a value with
/// the expected view and the cursor at the expected place.
pub open spec fn decodes_as<T: View>(
    r: Result<T, ClassBuilderError>,
    end: int,
    expected: Decoded<T::V>,
) -> bool {
    match (r, expected) {
        (Ok(v), Ok((m, next))) => v@ == m && end == next,
        (Err(e), Err(f)) => e == f,
        _ => false,
    }
}

/// Whether a decoder of a run of elements that returned `r` and left the
/// cursor at `end` did what the model outcome `expected` prescribes.
pub open spec fn array_decodes_as<T: View>(
    r: Result<Vec<T>, ClassBuilderError>,
    end: int,
    expected: Decoded<Seq<T::V>>,
) -> bool {
    match (r, expected) {
        (Ok(v), Ok((m, next))) => views(v@) == m && end == next,
        (Err(e), Err(f)) => e == f,
        _ => false,
    }
}

/// `str`'s `==` of the standard library: two strings are equal exactly when
/// they hold the same characters in the same order.
pub assume_specification[ <str as PartialEq>::eq ](a: &str, b: &str) -> (r: bool)
    ensures
        r == (a@ == b@),
;

/// A sequential big-endian reader over an immutable byte buffer.
///
/// A read that fails leaves the position where it was.
pub struct ClassFileIter<'a> {
    slice: &'a [u8],
    index: usize,
}

impl<'a> ClassFileIter<'a> {
    #[verifier::type_invariant]
    spec fn in_bounds(self) -> bool {
        self.index <= self.slice@.len()
    }

    /// The whole buffer, read or not.
    pub closed spec fn bytes(&self) -> Seq<u8> {
        self.slice@
    }

    /// How many bytes have been consumed.
    pub closed spec fn position(&self) -> int {
        self.index as int
    }

    /// A cursor at the start of `data`.
    pub fn new(data: &'a [u8]) -> (iter: Self)
        ensures
            iter.bytes() == data@,
            iter.position() == 0,
    {
        Self { slice: data, index: 0 }
    }

    /// The number of bytes that have not been consumed yet.
    pub fn remaining(&self) -> (n: usize)
        ensures
            n == self.bytes().len() - self.position(),
    {
        proof {
            use_type_invariant(self);
        }
        self.slice.len() - self.index
    }

    /// Reads one byte and moves behind it, or fails with `EndOfInput` where
    /// too few bytes are left.
    pub fn next_u8(&mut self) -> (r: Result<u8, ClassBuilderError>)
        ensures
            final(self).bytes() == old(self).bytes(),
            match r {
                Ok(v) => {
                    &&& has_bytes(old(self).bytes(), old(self).position(), 1)
                    &&& v == old(self).bytes()[old(self).position()]
                    &&& final(self).position() == old(self).position() + 1
                },
                Err(e) => {
                    &&& !has_bytes(old(self).bytes(), old(self).position(), 1)
                    &&& e == ClassBuilderError::EndOfInput
                    &&& final(self).position() == old(self).position()
                },
            },
    {
        proof {
            use_type_invariant(&*self);
        }
        if self.slice.len() - self.index < 1 {
            return Err(ClassBuilderError::EndOfInput);
        }
        let v: u8 = self.slice[self.index];
        self.index = self.index + 1;
        Ok(v)
    }

    /// Reads an unsigned 16-bit big-endian integer and moves behind it, or fails with `EndOfInput` where
    /// too few bytes are left.
    pub fn next_u16(&mut self) -> (r: Result<u16, ClassBuilderError>)
        ensures
            final(self).bytes() == old(self).bytes(),
            match r {
                Ok(v) => {
                    &&& has_bytes(old(self).bytes(), old(self).position(), 2)
                    &&& v == be16(old(self).bytes(), old(self).position())
                    &&& final(self).position() == old(self).position() + 2
                },
                Err(e) => {
                    &&& !has_bytes(old(self).bytes(), old(self).position(), 2)
                    &&& e == ClassBuilderError::EndOfInput
                    &&& final(self).position() == old(self).position()
                },
            },
    {
        proof {
            use_type_invariant(&*self);
        }
        if self.slice.len() - self.index < 2 {
            return Err(ClassBuilderError::EndOfInput);
        }
        let hi: u8 = self.slice[self.index];
        let lo: u8 = self.slice[self.index + 1];
        self.index = self.index + 2;
        assert(((hi as u16) << 8) | (lo as u16) == hi as u16 * 0x100 + lo as u16) by (bit_vector);
        Ok(((hi as u16) << 8) | (lo as u16))
    }

    /// Reads an unsigned 32-bit big-endian integer and moves behind it, or fails with `EndOfInput` where
    /// too few bytes are left.
    pub fn next_u32(&mut self) -> (r: Result<u32, ClassBuilderError>)
        ensures
            final(self).bytes() == old(self).bytes(),
            match r {
                Ok(v) => {
                    &&& has_bytes(old(self).bytes(), old(self).position(), 4)
                    &&& v == be32(old(self).bytes(), old(self).position())
                    &&& final(self).position() == old(self).position() + 4
                },
                Err(e) => {
                    &&& !has_bytes(old(self).bytes(), old(self).position(), 4)
                    &&& e == ClassBuilderError::EndOfInput
                    &&& final(self).position() == old(self).position()
                },
            },
    {
        proof {
            use_type_invariant(&*self);
        }
        if self.slice.len() - self.index < 4 {
            return Err(ClassBuilderError::EndOfInput);
        }
        let b0: u8 = self.slice[self.index];
        let b1: u8 = self.slice[self.index + 1];
        let b2: u8 = self.slice[self.index + 2];
        let b3: u8 = self.slice[self.index + 3];
        self.index = self.index + 4;
        assert(((b0 as u32) << 24) | ((b1 as u32) << 16) | ((b2 as u32) << 8) | (b3 as u32) == (
        b0 as u32 * 0x100 + b1 as u32) * 0x1_0000 + (b2 as u32 * 0x100 + b3 as u32))
            by (bit_vector);
        Ok(((b0 as u32) << 24) | ((b1 as u32) << 16) | ((b2 as u32) << 8) | (b3 as u32))
    }

    /// Reads an unsigned 64-bit big-endian integer and moves behind it, or fails with `EndOfInput` where
    /// too few bytes are left.
    pub fn next_u64(&mut self) -> (r: Result<u64, ClassBuilderError>)
        ensures
            final(self).bytes() == old(self).bytes(),
            match r {
                Ok(v) => {
                    &&& has_bytes(old(self).bytes(), old(self).position(), 8)
                    &&& v == be64(old(self).bytes(), old(self).position())
                    &&& final(self).position() == old(self).position() + 8
                },
                Err(e) => {
                    &&& !has_bytes(old(self).bytes(), old(self).position(), 8)
                    &&& e == ClassBuilderError::EndOfInput
                    &&& final(self).position() == old(self).position()
                },
            },
    {
        if self.remaining() < 8 {
            return Err(ClassBuilderError::EndOfInput);
        }
        let hi: u32 = match self.next_u32() {
            Ok(v) => v,
            Err(e) => { return Err(e); },
        };
        let lo: u32 = match self.next_u32() {
            Ok(v) => v,
            Err(e) => { return Err(e); },
        };
        assert(((hi as u64) << 32) | (lo as u64) == hi as u64 * 0x1_0000_0000 + lo as u64)
            by (bit_vector);
        Ok(((hi as u64) << 32) | (lo as u64))
    }

    /// Reads the next `len` bytes and moves behind them, or fails with
    /// `EndOfInput` where fewer are left.
    pub fn next_n_u8(&mut self, len: usize) -> (r: Result<Vec<u8>, ClassBuilderError>)
        ensures
            final(self).bytes() == old(self).bytes(),
            match r {
                Ok(v) => {
                    &&& has_bytes(old(self).bytes(), old(self).position(), len as int)
                    &&& v@ == old(self).bytes().subrange(
                        old(self).position(),
                        old(self).position() + len,
                    )
                    &&& final(self).position() == old(self).position() + len
                },
                Err(e) => {
                    &&& !has_bytes(old(self).bytes(), old(self).position(), len as int)
                    &&& e == ClassBuilderError::EndOfInput
                    &&& final(self).position() == old(self).position()
                },
            },
    {
        proof {
            use_type_invariant(&*self);
        }
        if self.slice.len() - self.index < len {
            return Err(ClassBuilderError::EndOfInput);
        }
        let start: usize = self.index;
        let total: usize = self.slice.len();
        let mut vec: Vec<u8> = Vec::new();
        let mut i: usize = 0;
        while i < len
            invariant
                i <= len,
                start + len <= total,
                total == self.slice@.len(),
                vec@ == self.slice@.subrange(start as int, start + i),
            decreases len - i,
        {
            vec.push(self.slice[start + i]);
            i = i + 1;
        }
        self.index = start + len;
        Ok(vec)
    }
}

/// The run of `count` elements encoded back to back from `at` on.
pub open spec fn spec_elements<T: FromClassFileIter>(bytes: Seq<u8>, at: int, count: nat) -> Decoded<
    Seq<T::V>,
>
    decreases count,
{
    if count == 0 {
        Ok((Seq::empty(), at))
    } else {
        match T::spec_from_iter(bytes, at) {
            Err(e) => Err(e),
            Ok((v, next)) => extend_decoded(
                seq![v],
                spec_elements::<T>(bytes, next, (count - 1) as nat),
            ),
        }
    }
}

/// The array encoded at `at`: a 16-bit count, then that many elements.
pub open spec fn spec_array<T: FromClassFileIter>(bytes: Seq<u8>, at: int) -> Decoded<Seq<T::V>> {
    if has_bytes(bytes, at, 2) {
        spec_elements::<T>(bytes, at + 2, be16(bytes, at) as nat)
    } else {
        Err(ClassBuilderError::EndOfInput)
    }
}

/// A record of the class binary that is decoded from the cursor, alone or as
/// the elements of a counted array.
pub trait FromClassFileIter: Sized + View {
    /// What the bytes from `at` on decode to: the record and the position
    /// after it, or the error.
    spec fn spec_from_iter(bytes: Seq<u8>, at: int) -> Decoded<Self::V>;

    /// Decodes one record at the cursor.
    fn from_iter(iter: &mut ClassFileIter) -> (r: Result<Self, ClassBuilderError>)
        ensures
            final(iter).bytes() == old(iter).bytes(),
            decodes_as(
                r,
                final(iter).position(),
                Self::spec_from_iter(old(iter).bytes(), old(iter).position()),
            ),
    ;
}

/// Decodes a counted array of records at the cursor: a 16-bit count, then
/// that many records one after the other.
pub fn from_arr<T: FromClassFileIter>(iter: &mut ClassFileIter) -> (r: Result<
    Vec<T>,
    ClassBuilderError,
>)
    ensures
        final(iter).bytes() == old(iter).bytes(),
        array_decodes_as(
            r,
            final(iter).position(),
            spec_array::<T>(old(iter).bytes(), old(iter).position()),
        ),
{
    let num: u16 = iter.next_u16()?;
    let ghost bytes = iter.bytes();
    let ghost whole = spec_array::<T>(old(iter).bytes(), old(iter).position());
    let mut vec: Vec<T> = Vec::new();
    let mut i: u16 = 0;
    assert(views(vec@) =~= Seq::empty());
    while i < num
        invariant
            i <= num,
            iter.bytes() == bytes,
            bytes == old(iter).bytes(),
            whole == spec_array::<T>(old(iter).bytes(), old(iter).position()),
            whole == extend_decoded(
                views(vec@),
                spec_elements::<T>(bytes, iter.position(), (num - i) as nat),
            ),
        decreases num - i,
    {
        let ghost before = views(vec@);
        let ghost rest_before = spec_elements::<T>(bytes, iter.position(), (num - i) as nat);
        let item: T = match T::from_iter(iter) {
            Ok(item) => item,
            Err(e) => { return Err(e); },
        };
        let ghost item_view = item@;
        vec.push(item);
        i = i + 1;
        proof {
            assert(views(vec@) =~= before + seq![item_view]);
            let rest = spec_elements::<T>(bytes, iter.position(), (num - i) as nat);
            assert(rest_before == extend_decoded(seq![item_view], rest));
            if rest is Ok {
                assert(before + (seq![item_view] + rest->Ok_0.0) =~= (before + seq![item_view])
                    + rest->Ok_0.0);
            }
        }
    }
    proof {
        assert(views(vec@) + Seq::<T::V>::empty() =~= views(vec@));
    }
    Ok(vec)
}

/// The access flags of a class: sixteen bits, some of them named. The bits
/// without a name are kept as they were read.
#[derive(Debug, Clone, Copy, PartialEq, Eq, Structural)]
pub struct AccessFlags(u16);

impl View for AccessFlags {
    type V = u16;

    closed spec fn view(&self) -> u16 {
        self.0
    }
}

impl AccessFlags {
    pub const PUBLIC: u16 = 0x0001;

    pub const FINAL: u16 = 0x0010;

    pub const SUPER: u16 = 0x0020;

    pub const INTERFACE: u16 = 0x0200;

    pub const ABSTRACT: u16 = 0x0400;

    pub const SYNTHETIC: u16 = 0x1000;

    pub const ANNOTATION: u16 = 0x2000;

    pub const ENUM: u16 = 0x4000;

    /// The flags whose sixteen bits are `bits`.
    pub closed spec fn spec_from_bits(bits: u16) -> AccessFlags {
        AccessFlags(bits)
    }

    /// The flags whose sixteen bits are `bits`, named or not.
    pub fn from_bits(bits: u16) -> (flags: Self)
        ensures
            flags == Self::spec_from_bits(bits),
            flags@ == bits,
    {
        AccessFlags(bits)
    }

    /// The flags with no bit set.
    pub fn new() -> (flags: Self)
        ensures
            flags@ == 0,
    {
        AccessFlags(0)
    }

    /// All sixteen bits of these flags.
    pub fn bits(self) -> (bits: u16)
        ensures
            bits == self@,
    {
        self.0
    }

    /// Whether a bit of the mask `flag` is set.
    pub fn get(self, flag: u16) -> (set: bool)
        ensures
            set == (self@ & flag != 0),
    {
        self.0 & flag != 0
    }

    /// These flags with the bits of the mask `flag` set or cleared, and every
    /// other bit as it was.
    pub fn with(self, flag: u16, value: bool) -> (flags: Self)
        ensures
            flags@ == (if value {
                self@ | flag
            } else {
                self@ & !flag
            }),
    {
        if value {
            AccessFlags(self.0 | flag)
        } else {
            AccessFlags(self.0 & !flag)
        }
    }

    /// Flags made from any sixteen bits give those bits back, the unnamed
    /// ones included, and flags made from the bits of others are the same
    /// flags.
    pub proof fn lemma_bits_round_trip(bits: u16, flags: AccessFlags)
        ensures
            Self::spec_from_bits(bits)@ == bits,
            Self::spec_from_bits(flags@) == flags,
    {
    }
}

/// One decoded class.
///
/// A class is built by one pass over the bytes followed by the promotion of
/// its attributes, and is not changed after that.
#[derive(Debug)]
pub struct Class {
    pub minor_version: u16,
    pub major_version: u16,
    pub constant_pool: ConstantPool,
    pub access_flags: AccessFlags,
    pub this_class: u16,
    pub super_class: u16,
    pub interfaces: Vec<InterfaceEntry>,
    pub field_info: Vec<FieldEntry>,
    pub method_info: Vec<MethodEntry>,
    pub attribute_info: Vec<AttributeEntry>,
}

/// The mathematical value of a [`Class`].
pub struct ClassView {
    pub minor_version: u16,
    pub major_version: u16,
    pub constant_pool: Seq<ConstantPoolEntryView>,
    pub access_flags: u16,
    pub this_class: u16,
    pub super_class: u16,
    pub interfaces: Seq<InterfaceEntry>,
    pub field_info: Seq<FieldEntryView>,
    pub method_info: Seq<MethodEntryView>,
    pub attribute_info: Seq<AttributeEntryView>,
}

impl View for Class {
    type V = ClassView;

    open spec fn view(&self) -> ClassView {
        ClassView {
            minor_version: self.minor_version,
            major_version: self.major_version,
            constant_pool: self.constant_pool@,
            access_flags: self.access_flags@,
            this_class: self.this_class,
            super_class: self.super_class,
            interfaces: views(self.interfaces@),
            field_info: views(self.field_info@),
            method_info: views(self.method_info@),
            attribute_info: views(self.attribute_info@),
        }
    }
}

/// The magic number that opens every class binary.
pub const MAGIC: u32 = 0xCAFEBABE;

/// A field with its attributes promoted against `pool`.
pub open spec fn spec_promote_field(
    field: FieldEntryView,
    pool: Seq<ConstantPoolEntryView>,
) -> FieldEntryView {
    FieldEntryView {
        access_flags: field.access_flags,
        name_index: field.name_index,
        descriptor_index: field.descriptor_index,
        attributes: spec_promote_all(field.attributes, pool),
    }
}

/// A method with its attributes promoted against `pool`.
pub open spec fn spec_promote_method(
    method: MethodEntryView,
    pool: Seq<ConstantPoolEntryView>,
) -> MethodEntryView {
    MethodEntryView {
        access_flags: method.access_flags,
        name_index: method.name_index,
        descriptor_index: method.descriptor_index,
        attributes: spec_promote_all(method.attributes, pool),
    }
}

/// The class after promotion: the attributes of the class, of each method
/// and of each field are promoted against the class's own pool. Everything
/// else stays.
pub open spec fn spec_promote_class(class: ClassView) -> ClassView {
    ClassView {
        minor_version: class.minor_version,
        major_version: class.major_version,
        constant_pool: class.constant_pool,
        access_flags: class.access_flags,
        this_class: class.this_class,
        super_class: class.super_class,
        interfaces: class.interfaces,
        field_info: class.field_info.map_values(
            |f: FieldEntryView| spec_promote_field(f, class.constant_pool),
        ),
        method_info: class.method_info.map_values(
            |m: MethodEntryView| spec_promote_method(m, class.constant_pool),
        ),
        attribute_info: spec_promote_all(class.attribute_info, class.constant_pool),
    }
}

/// What follows the constant pool in a class binary, read from `at` on with
/// the pool already decoded: flags and the two class references, then the
/// interfaces, fields, methods and class attributes. Bytes behind the class
/// attributes are not read.
pub open spec fn spec_class_body(
    bytes: Seq<u8>,
    at: int,
    minor_version: u16,
    major_version: u16,
    constant_pool: Seq<ConstantPoolEntryView>,
) -> Result<ClassView, ClassBuilderError> {
    if !has_bytes(bytes, at, 6) {
        Err(ClassBuilderError::EndOfInput)
    } else {
        match spec_array::<InterfaceEntry>(bytes, at + 6) {
            Err(e) => Err(e),
            Ok((interfaces, after_interfaces)) => match spec_array::<FieldEntry>(
                bytes,
                after_interfaces,
            ) {
                Err(e) => Err(e),
                Ok((field_info, after_fields)) => match spec_array::<MethodEntry>(
                    bytes,
                    after_fields,
                ) {
                    Err(e) => Err(e),
                    Ok((method_info, after_methods)) => match spec_array::<AttributeEntry>(
                        bytes,
                        after_methods,
                    ) {
                        Err(e) => Err(e),
                        Ok((attribute_info, _)) => Ok(
                            ClassView {
                                minor_version,
                                major_version,
                                constant_pool,
                                access_flags: be16(bytes, at) as u16,
                                this_class: be16(bytes, at + 2) as u16,
                                super_class: be16(bytes, at + 4) as u16,
                                interfaces,
                                field_info,
                                method_info,
                                attribute_info,
                            },
                        ),
                    },
                },
            },
        }
    }
}

/// The class that a binary decodes to before promotion: the magic number,
/// the two version fields, the constant pool and the rest.
pub open spec fn spec_class_decoded(bytes: Seq<u8>) -> Result<ClassView, ClassBuilderError> {
    if !has_bytes(bytes, 0, 4) {
        Err(ClassBuilderError::EndOfInput)
    } else if be32(bytes, 0) != MAGIC {
        Err(ClassBuilderError::InvalidMagic)
    } else if !has_bytes(bytes, 4, 4) {
        Err(ClassBuilderError::EndOfInput)
    } else {
        match spec_pool(bytes, 8) {
            Err(e) => Err(e),
            Ok((constant_pool, after_pool)) => spec_class_body(
                bytes,
                after_pool,
                be16(bytes, 4) as u16,
                be16(bytes, 6) as u16,
                constant_pool,
            ),
        }
    }
}

/// The class that a binary loads as: decoded, then promoted.
pub open spec fn spec_class(bytes: Seq<u8>) -> Result<ClassView, ClassBuilderError> {
    match spec_class_decoded(bytes) {
        Ok(class) => Ok(spec_promote_class(class)),
        Err(e) => Err(e),
    }
}

/// Whether the method `i` of `class` has the name `name` by the class's pool.
pub open spec fn method_named(class: ClassView, i: int, name: Seq<char>) -> bool {
    &&& 0 <= i < class.method_info.len()
    &&& spec_utf8(class.constant_pool, class.method_info[i].name_index) == Some(name)
}

/// Whether `i` is the first method of `class` with the name `name`.
pub open spec fn first_method_named(class: ClassView, i: int, name: Seq<char>) -> bool {
    &&& method_named(class, i, name)
    &&& forall|j: int| 0 <= j < i ==> !method_named(class, j, name)
}

/// The index of the first method named `name` among the methods from `from`
/// on.
pub open spec fn spec_method_index_from(class: ClassView, name: Seq<char>, from: int) -> Option<
    int,
>
    decreases class.method_info.len() - from,
{
    if from < 0 || from >= class.method_info.len() {
        None
    } else if method_named(class, from, name) {
        Some(from)
    } else {
        spec_method_index_from(class, name, from + 1)
    }
}

/// The index of the first method of `class` named `name`.
pub open spec fn spec_method_index(class: ClassView, name: Seq<char>) -> Option<int> {
    spec_method_index_from(class, name, 0)
}

impl Class {
    /// Loads a class from the bytes of its binary.
    ///
    /// The bytes are decoded in one pass and the attributes are promoted
    /// after it. Any error stops the load; no part of a class is returned.
    pub fn new(data: &[u8]) -> (r: Result<Self, ClassBuilderError>)
        ensures
            match (r, spec_class(data@)) {
                (Ok(class), Ok(expected)) => class@ == expected,
                (Err(e), Err(f)) => e == f,
                _ => false,
            },
            data@.len() >= 4 && be32(data@, 0) != MAGIC ==> r == Err::<Self, _>(
                ClassBuilderError::InvalidMagic,
            ),
    {
        let mut iter: ClassFileIter = ClassFileIter::new(data);
        let val: u32 = iter.next_u32()?;
        if val != MAGIC {
            return Err(ClassBuilderError::InvalidMagic);
        }
        let minor_version: u16 = iter.next_u16()?;
        let major_version: u16 = iter.next_u16()?;
        let constant_pool: ConstantPool = ConstantPool::new(ConstantPoolEntry::from_arr(&mut iter)?);
        let access_flags: AccessFlags = AccessFlags::from_bits(iter.next_u16()?);
        let this_class: u16 = iter.next_u16()?;
        let super_class: u16 = iter.next_u16()?;
        let interfaces: Vec<InterfaceEntry> = from_arr(&mut iter)?;
        let field_info: Vec<FieldEntry> = from_arr(&mut iter)?;
        let method_info: Vec<MethodEntry> = from_arr(&mut iter)?;
        let attribute_info: Vec<AttributeEntry> = from_arr(&mut iter)?;
        let mut class: Class = Self {
            minor_version,
            major_version,
            constant_pool,
            access_flags,
            this_class,
            super_class,
            interfaces,
            field_info,
            method_info,
            attribute_info,
        };
        assert(Ok::<ClassView, ClassBuilderError>(class@) == spec_class_decoded(data@));
        class.parse_attributes();
        Ok(class)
    }

    /// Promotes the attributes of the class, of its methods and of its
    /// fields against the class's pool.
    fn parse_attributes(&mut self)
        ensures
            final(self)@ == spec_promote_class(old(self)@),
    {
        let mut constants: ConstantPool = self.constant_pool.take();
        promote_attributes(&mut self.attribute_info, &mut constants);
        let mut i: usize = 0;
        while i < self.method_info.len()
            invariant
                i <= self.method_info@.len(),
                self.method_info@.len() == old(self).method_info@.len(),
                constants@ == old(self).constant_pool@,
                forall|j: int|
                    0 <= j < i ==> (#[trigger] self.method_info@[j])@ == spec_promote_method(
                        old(self).method_info@[j]@,
                        constants@,
                    ),
                forall|j: int|
                    i <= j < self.method_info@.len() ==> self.method_info@[j] == old(
                        self,
                    ).method_info@[j],
                self.minor_version == old(self).minor_version,
                self.major_version == old(self).major_version,
                self.access_flags == old(self).access_flags,
                self.this_class == old(self).this_class,
                self.super_class == old(self).super_class,
                self.interfaces == old(self).interfaces,
                self.field_info == old(self).field_info,
                views(self.attribute_info@) == spec_promote_all(
                    views(old(self).attribute_info@),
                    constants@,
                ),
            decreases self.method_info@.len() - i,
        {
            promote_attributes(&mut self.method_info[i].attributes, &mut constants);
            i = i + 1;
        }
        let mut k: usize = 0;
        while k < self.field_info.len()
            invariant
                k <= self.field_info@.len(),
                self.field_info@.len() == old(self).field_info@.len(),
                constants@ == old(self).constant_pool@,
                forall|j: int|
                    0 <= j < k ==> (#[trigger] self.field_info@[j])@ == spec_promote_field(
                        old(self).field_info@[j]@,
                        constants@,
                    ),
                forall|j: int|
                    k <= j < self.field_info@.len() ==> self.field_info@[j] == old(
                        self,
                    ).field_info@[j],
                self.minor_version == old(self).minor_version,
                self.major_version == old(self).major_version,
                self.access_flags == old(self).access_flags,
                self.this_class == old(self).this_class,
                self.super_class == old(self).super_class,
                self.interfaces == old(self).interfaces,
                views(self.method_info@) == old(self)@.method_info.map_values(
                    |m: MethodEntryView| spec_promote_method(m, constants@),
                ),
                views(self.attribute_info@) == spec_promote_all(
                    views(old(self).attribute_info@),
                    constants@,
                ),
            decreases self.field_info@.len() - k,
        {
            promote_attributes(&mut self.field_info[k].attributes, &mut constants);
            k = k + 1;
        }
        self.constant_pool = constants;
        assert(views(self.field_info@) =~= old(self)@.field_info.map_values(
            |f: FieldEntryView| spec_promote_field(f, old(self)@.constant_pool),
        ));
    }

    /// The index of the first method that the pool names `method_name`. Only
    /// the methods that this class declares are looked at.
    pub fn method_entry_index_from_name(&self, method_name: &str) -> (r: Option<usize>)
        ensures
            match r {
                Some(i) => spec_method_index(self@, method_name@) == Some(i as int)
                    && first_method_named(self@, i as int, method_name@),
                None => spec_method_index(self@, method_name@) is None && forall|j: int|
                    !method_named(self@, j, method_name@),
            },
    {
        let mut i: usize = 0;
        while i < self.method_info.len()
            invariant
                i <= self.method_info@.len(),
                forall|j: int| 0 <= j < i ==> !method_named(self@, j, method_name@),
                spec_method_index(self@, method_name@) == spec_method_index_from(
                    self@,
                    method_name@,
                    i as int,
                ),
            decreases self.method_info@.len() - i,
        {
            let found: bool = match self.constant_pool.get_const_utd8(self.method_info[i].name_index) {
                Some(name) => name.eq(method_name),
                None => false,
            };
            if found {
                return Some(i);
            }
            i = i + 1;
        }
        None
    }

    /// The first method that the pool names `method_name`, among the methods
    /// that this class declares.
    pub fn get_method_from_name(&self, method_name: &str) -> (r: Option<&MethodEntry>)
        ensures
            match r {
                Some(m) => spec_method_index(self@, method_name@) is Some && *m
                    == self.method_info@[spec_method_index(self@, method_name@)->0],
                None => spec_method_index(self@, method_name@) is None,
            },
    {
        if let Some(index) = self.method_entry_index_from_name(method_name) {
            Some(&self.method_info[index])
        } else {
            None
        }
    }
}

/// A binary whose first four bytes are not the magic number loads as
/// `InvalidMagic`, whatever follows them.
pub proof fn lemma_wrong_magic_is_rejected(bytes: Seq<u8>)
    requires
        bytes.len() >= 4,
        be32(bytes, 0) != MAGIC,
    ensures
        spec_class(bytes) == Err::<ClassView, _>(ClassBuilderError::InvalidMagic),
{
}

/// A binary that is cut short inside its constant pool loads as
/// `EndOfInput`: where `bytes` starts with the magic number and holds a
/// decodable pool, every cut behind the pool's count and before the end of
/// its last entry runs out of input.
pub proof fn lemma_truncated_pool_is_end_of_input(bytes: Seq<u8>, cut: int)
    requires
        bytes.len() >= 10,
        be32(bytes, 0) == MAGIC,
        spec_pool(bytes, 8) is Ok,
        10 <= cut < spec_pool(bytes, 8)->Ok_0.1,
        cut <= bytes.len(),
    ensures
        spec_class(bytes.subrange(0, cut)) == Err::<ClassView, _>(ClassBuilderError::EndOfInput),
{
    lemma_pool_truncated(bytes, 8, cut);
}

} // verus!
