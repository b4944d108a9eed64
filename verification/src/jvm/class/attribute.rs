//! Attributes: named, length-delimited blocks attached to a class, a field or
//! a method. They are decoded in opaque form first and promoted to a typed
//! form once the constant pool can resolve their names.

use super::constant::{spec_utf8, ConstantPool, ConstantPoolEntryView};
use super::{
    be16, be32, from_arr, has_bytes, spec_array, spec_elements, views, ClassBuilderError,
    ClassFileIter, Decoded, FromClassFileIter,
};
use vstd::prelude::*;

verus! {

/// One row of a `Code` attribute's exception table.
#[derive(Debug, Clone, Copy, PartialEq, Eq, Structural)]
pub struct ExceptionTableEntry {
    pub start_pc: u16,
    pub end_pc: u16,
    pub handler_pc: u16,
    pub catch_type: u16,
}

impl View for ExceptionTableEntry {
    type V = ExceptionTableEntry;

    open spec fn view(&self) -> ExceptionTableEntry {
        *self
    }
}

impl FromClassFileIter for ExceptionTableEntry {
    /// Four 16-bit fields in a row.
    open spec fn spec_from_iter(bytes: Seq<u8>, at: int) -> Decoded<ExceptionTableEntry> {
        if has_bytes(bytes, at, 8) {
            Ok(
                (
                    ExceptionTableEntry {
                        start_pc: be16(bytes, at) as u16,
                        end_pc: be16(bytes, at + 2) as u16,
                        handler_pc: be16(bytes, at + 4) as u16,
                        catch_type: be16(bytes, at + 6) as u16,
                    },
                    at + 8,
                ),
            )
        } else {
            Err(ClassBuilderError::EndOfInput)
        }
    }

    fn from_iter(iter: &mut ClassFileIter) -> (r: Result<Self, ClassBuilderError>) {
        let start_pc: u16 = iter.next_u16()?;
        let end_pc: u16 = iter.next_u16()?;
        let handler_pc: u16 = iter.next_u16()?;
        let catch_type: u16 = iter.next_u16()?;
        Ok(ExceptionTableEntry { start_pc, end_pc, handler_pc, catch_type })
    }
}

/// An attribute: the pool index of its name and its payload.
#[derive(Debug)]
pub struct AttributeEntry {
    pub name_index: u16,
    pub info: AttributeInfo,
}

/// The payload of an attribute. Decoding yields `Raw`; promotion turns the
/// payload of an attribute named "Code" into `Code`. The other kinds are
/// named here and stay `Raw` when decoded.
#[derive(Debug)]
pub enum AttributeInfo {
    Raw(Vec<u8>),
    ConstantValue { constantvalue_indx: u16 },
    Code {
        max_stack: u16,
        max_locals: u16,
        code: Vec<u8>,
        exception_table: Vec<ExceptionTableEntry>,
        attributes: Vec<AttributeEntry>,
    },
    StackMapTable,
    Exceptions,
    InnerClasses,
    EnclosingMethod,
    Synthetic,
    Signature,
    SourceFile,
    SourceDebugExtension,
    LineNumberTable,
    LocalVariableTable,
    LocalVariableTypeTable,
    Deprecated,
    RuntimeVisibleAnnotations,
    RuntimeInvisibleAnnotations,
    RuntimeVisibleParameterAnnotations,
    RuntimeInvisibleParameterAnnotations,
    AnnotationDefault,
    BootstrapMethods,
}

/// The mathematical value of an [`AttributeEntry`].
pub struct AttributeEntryView {
    pub name_index: u16,
    pub info: AttributeInfoView,
}

/// The mathematical value of an [`AttributeInfo`]: the same variants over
/// sequences.
pub enum AttributeInfoView {
    Raw(Seq<u8>),
    ConstantValue { constantvalue_indx: u16 },
    Code {
        max_stack: u16,
        max_locals: u16,
        code: Seq<u8>,
        exception_table: Seq<ExceptionTableEntry>,
        attributes: Seq<AttributeEntryView>,
    },
    StackMapTable,
    Exceptions,
    InnerClasses,
    EnclosingMethod,
    Synthetic,
    Signature,
    SourceFile,
    SourceDebugExtension,
    LineNumberTable,
    LocalVariableTable,
    LocalVariableTypeTable,
    Deprecated,
    RuntimeVisibleAnnotations,
    RuntimeInvisibleAnnotations,
    RuntimeVisibleParameterAnnotations,
    RuntimeInvisibleParameterAnnotations,
    AnnotationDefault,
    BootstrapMethods,
}

impl AttributeInfo {
    /// The value of this payload, nested attributes included.
    pub open spec fn model(self) -> AttributeInfoView
        decreases self,
    {
        match self {
            AttributeInfo::Raw(bytes) => AttributeInfoView::Raw(bytes@),
            AttributeInfo::ConstantValue {
                constantvalue_indx,
            } => AttributeInfoView::ConstantValue { constantvalue_indx },
            AttributeInfo::Code {
                max_stack,
                max_locals,
                code,
                exception_table,
                attributes,
            } => AttributeInfoView::Code {
                max_stack,
                max_locals,
                code: code@,
                exception_table: exception_table@,
                attributes: Seq::new(
                    attributes@.len(),
                    |i: int|
                        if 0 <= i < attributes@.len() {
                            attributes@[i].model()
                        } else {
                            arbitrary()
                        },
                ),
            },
            AttributeInfo::StackMapTable => AttributeInfoView::StackMapTable,
            AttributeInfo::Exceptions => AttributeInfoView::Exceptions,
            AttributeInfo::InnerClasses => AttributeInfoView::InnerClasses,
            AttributeInfo::EnclosingMethod => AttributeInfoView::EnclosingMethod,
            AttributeInfo::Synthetic => AttributeInfoView::Synthetic,
            AttributeInfo::Signature => AttributeInfoView::Signature,
            AttributeInfo::SourceFile => AttributeInfoView::SourceFile,
            AttributeInfo::SourceDebugExtension => AttributeInfoView::SourceDebugExtension,
            AttributeInfo::LineNumberTable => AttributeInfoView::LineNumberTable,
            AttributeInfo::LocalVariableTable => AttributeInfoView::LocalVariableTable,
            AttributeInfo::LocalVariableTypeTable => AttributeInfoView::LocalVariableTypeTable,
            AttributeInfo::Deprecated => AttributeInfoView::Deprecated,
            AttributeInfo::RuntimeVisibleAnnotations => AttributeInfoView::RuntimeVisibleAnnotations,
            AttributeInfo::RuntimeInvisibleAnnotations =>
                AttributeInfoView::RuntimeInvisibleAnnotations,
            AttributeInfo::RuntimeVisibleParameterAnnotations =>
                AttributeInfoView::RuntimeVisibleParameterAnnotations,
            AttributeInfo::RuntimeInvisibleParameterAnnotations =>
                AttributeInfoView::RuntimeInvisibleParameterAnnotations,
            AttributeInfo::AnnotationDefault => AttributeInfoView::AnnotationDefault,
            AttributeInfo::BootstrapMethods => AttributeInfoView::BootstrapMethods,
        }
    }
}

impl AttributeEntry {
    /// The value of this attribute.
    pub open spec fn model(self) -> AttributeEntryView
        decreases self,
    {
        AttributeEntryView { name_index: self.name_index, info: self.info.model() }
    }
}

impl View for AttributeInfo {
    type V = AttributeInfoView;

    open spec fn view(&self) -> AttributeInfoView {
        self.model()
    }
}

impl View for AttributeEntry {
    type V = AttributeEntryView;

    open spec fn view(&self) -> AttributeEntryView {
        self.model()
    }
}

/// The view of a `Code` payload is made of the views of its parts.
pub proof fn lemma_code_view(
    max_stack: u16,
    max_locals: u16,
    code: Vec<u8>,
    exception_table: Vec<ExceptionTableEntry>,
    attributes: Vec<AttributeEntry>,
)
    ensures
        (AttributeInfo::Code { max_stack, max_locals, code, exception_table, attributes })@ == (
        AttributeInfoView::Code {
            max_stack,
            max_locals,
            code: code@,
            exception_table: views(exception_table@),
            attributes: views(attributes@),
        }),
{
    let info = AttributeInfo::Code { max_stack, max_locals, code, exception_table, attributes };
    assert(info@->Code_attributes =~= views(attributes@));
    assert(info@->Code_exception_table =~= views(exception_table@));
}

impl FromClassFileIter for AttributeInfo {
    /// A 32-bit byte count, then that many bytes, kept as they are.
    open spec fn spec_from_iter(bytes: Seq<u8>, at: int) -> Decoded<AttributeInfoView> {
        if !has_bytes(bytes, at, 4) {
            Err(ClassBuilderError::EndOfInput)
        } else if !has_bytes(bytes, at + 4, be32(bytes, at)) {
            Err(ClassBuilderError::EndOfInput)
        } else {
            Ok(
                (
                    AttributeInfoView::Raw(bytes.subrange(at + 4, at + 4 + be32(bytes, at))),
                    at + 4 + be32(bytes, at),
                ),
            )
        }
    }

    fn from_iter(iter: &mut ClassFileIter) -> (r: Result<Self, ClassBuilderError>) {
        let num: u32 = iter.next_u32()?;
        let vec: Vec<u8> = iter.next_n_u8(num as usize)?;
        Ok(Self::Raw(vec))
    }
}

impl FromClassFileIter for AttributeEntry {
    /// The 16-bit index of the name, then the opaque payload.
    open spec fn spec_from_iter(bytes: Seq<u8>, at: int) -> Decoded<AttributeEntryView> {
        if !has_bytes(bytes, at, 2) {
            Err(ClassBuilderError::EndOfInput)
        } else {
            match AttributeInfo::spec_from_iter(bytes, at + 2) {
                Err(e) => Err(e),
                Ok((info, next)) => Ok(
                    (AttributeEntryView { name_index: be16(bytes, at) as u16, info }, next),
                ),
            }
        }
    }

    fn from_iter(iter: &mut ClassFileIter) -> (r: Result<Self, ClassBuilderError>) {
        let name_index: u16 = iter.next_u16()?;
        let info: AttributeInfo = AttributeInfo::from_iter(iter)?;
        Ok(AttributeEntry { name_index, info })
    }
}

/// What the payload of a "Code" attribute decodes to: `max_stack`,
/// `max_locals`, a 32-bit code length and the code, the exception table and
/// the nested attributes, each a counted array. Bytes behind the nested
/// attributes are not read.
pub open spec fn spec_code_payload(payload: Seq<u8>) -> Decoded<AttributeInfoView> {
    if !has_bytes(payload, 0, 8) {
        Err(ClassBuilderError::EndOfInput)
    } else if !has_bytes(payload, 8, be32(payload, 4)) {
        Err(ClassBuilderError::EndOfInput)
    } else {
        match spec_array::<ExceptionTableEntry>(payload, 8 + be32(payload, 4)) {
            Err(e) => Err(e),
            Ok((exception_table, after_table)) => match spec_array::<AttributeEntry>(
                payload,
                after_table,
            ) {
                Err(e) => Err(e),
                Ok((attributes, end)) => Ok(
                    (
                        AttributeInfoView::Code {
                            max_stack: be16(payload, 0) as u16,
                            max_locals: be16(payload, 2) as u16,
                            code: payload.subrange(8, 8 + be32(payload, 4)),
                            exception_table,
                            attributes,
                        },
                        end,
                    ),
                ),
            },
        }
    }
}

/// Whether the pool gives the attribute name at `name_index` as "Code".
pub open spec fn names_code(pool: Seq<ConstantPoolEntryView>, name_index: u16) -> bool {
    spec_utf8(pool, name_index) == Some("Code"@)
}

/// The attribute after promotion against `pool`: an opaque payload named
/// "Code" that decodes as one becomes `Code`; every other attribute stays
/// as it is.
pub open spec fn spec_promote(
    entry: AttributeEntryView,
    pool: Seq<ConstantPoolEntryView>,
) -> AttributeEntryView {
    match entry.info {
        AttributeInfoView::Raw(payload) => if names_code(pool, entry.name_index) {
            match spec_code_payload(payload) {
                Ok((info, _)) => AttributeEntryView { name_index: entry.name_index, info },
                Err(_) => entry,
            }
        } else {
            entry
        },
        _ => entry,
    }
}

impl AttributeInfo {
    /// Decodes the payload of a "Code" attribute.
    pub fn parse_code(payload: &[u8]) -> (r: Result<AttributeInfo, ClassBuilderError>)
        ensures
            match (r, spec_code_payload(payload@)) {
                (Ok(info), Ok((expected, _))) => info@ == expected,
                (Err(e), Err(f)) => e == f,
                _ => false,
            },
    {
        let mut data: ClassFileIter = ClassFileIter::new(payload);
        let max_stack: u16 = data.next_u16()?;
        let max_locals: u16 = data.next_u16()?;
        let code_length: u32 = data.next_u32()?;
        let code: Vec<u8> = data.next_n_u8(code_length as usize)?;
        let exception_table: Vec<ExceptionTableEntry> = from_arr(&mut data)?;
        let attributes: Vec<AttributeEntry> = from_arr(&mut data)?;
        proof {
            lemma_code_view(max_stack, max_locals, code, exception_table, attributes);
        }
        Ok(AttributeInfo::Code { max_stack, max_locals, code, exception_table, attributes })
    }
}

impl AttributeEntry {
    /// Promotes this attribute against the pool of its class.
    ///
    /// An attribute whose payload is still opaque, whose name the pool gives
    /// as "Code" and whose payload decodes as one becomes a `Code` attribute.
    /// Any other attribute, and the pool, are left untouched.
    pub fn parse(&mut self, constants: &mut ConstantPool)
        ensures
            final(self)@ == spec_promote(old(self)@, old(constants)@),
            *final(constants) == *old(constants),
    {
        if let AttributeInfo::Raw(vec) = &self.info {
            let is_code: bool = match constants.get_const_utd8(self.name_index) {
                Some(name) => name.eq("Code"),
                None => false,
            };
            if is_code {
                let res: Result<AttributeInfo, ClassBuilderError> = AttributeInfo::parse_code(
                    vec.as_slice(),
                );
                if let Ok(res) = res {
                    self.info = res;
                }
            }
        }
    }
}

/// Every attribute of a list after promotion against `pool`.
pub open spec fn spec_promote_all(
    attributes: Seq<AttributeEntryView>,
    pool: Seq<ConstantPoolEntryView>,
) -> Seq<AttributeEntryView> {
    attributes.map_values(|a: AttributeEntryView| spec_promote(a, pool))
}

/// Promotes every attribute of a list, in place, against the pool of its
/// class. The pool is left untouched.
pub fn promote_attributes(attributes: &mut Vec<AttributeEntry>, constants: &mut ConstantPool)
    ensures
        views(final(attributes)@) == spec_promote_all(views(old(attributes)@), old(constants)@),
        *final(constants) == *old(constants),
{
    let mut i: usize = 0;
    while i < attributes.len()
        invariant
            i <= attributes@.len(),
            attributes@.len() == old(attributes)@.len(),
            *constants == *old(constants),
            forall|j: int|
                0 <= j < i ==> (#[trigger] attributes@[j])@ == spec_promote(
                    old(attributes)@[j]@,
                    old(constants)@,
                ),
            forall|j: int| i <= j < attributes@.len() ==> attributes@[j] == old(attributes)@[j],
        decreases attributes@.len() - i,
    {
        attributes[i].parse(constants);
        i = i + 1;
    }
    assert(views(attributes@) =~= spec_promote_all(views(old(attributes)@), old(constants)@));
}

/// The code of the first `Code` attribute among `attributes[from..]`.
pub open spec fn spec_first_code_from(attributes: Seq<AttributeEntryView>, from: int) -> Option<
    Seq<u8>,
>
    decreases attributes.len() - from,
{
    if from < 0 || from >= attributes.len() {
        None
    } else if attributes[from].info is Code {
        Some(attributes[from].info->Code_code)
    } else {
        spec_first_code_from(attributes, from + 1)
    }
}

/// The code of the first `Code` attribute of a list, if it holds one.
pub open spec fn spec_first_code(attributes: Seq<AttributeEntryView>) -> Option<Seq<u8>> {
    spec_first_code_from(attributes, 0)
}

/// The code of the first `Code` attribute of a list, if it holds one.
pub fn first_code(attributes: &Vec<AttributeEntry>) -> (r: Option<&Vec<u8>>)
    ensures
        match r {
            Some(code) => spec_first_code(views(attributes@)) == Some(code@),
            None => spec_first_code(views(attributes@)) is None,
        },
{
    let mut i: usize = 0;
    while i < attributes.len()
        invariant
            i <= attributes@.len(),
            spec_first_code(views(attributes@)) == spec_first_code_from(
                views(attributes@),
                i as int,
            ),
        decreases attributes@.len() - i,
    {
        if let AttributeInfo::Code { code, .. } = &attributes[i].info {
            return Some(code);
        }
        i = i + 1;
    }
    None
}

/// The two bytes of `v`, most significant first.
pub open spec fn encode_u16(v: u16) -> Seq<u8> {
    seq![(v / 0x100) as u8, (v % 0x100) as u8]
}

/// The four bytes of `v`, most significant first.
pub open spec fn encode_u32(v: u32) -> Seq<u8> {
    seq![
        (v / 0x100_0000) as u8,
        (v / 0x1_0000 % 0x100) as u8,
        (v / 0x100 % 0x100) as u8,
        (v % 0x100) as u8,
    ]
}

/// The payload of a "Code" attribute with the given limits and code, an
/// empty exception table and no nested attributes.
pub open spec fn encode_plain_code(max_stack: u16, max_locals: u16, code: Seq<u8>) -> Seq<u8> {
    encode_u16(max_stack) + encode_u16(max_locals) + encode_u32(code.len() as u32) + code
        + encode_u16(0) + encode_u16(0)
}

/// What promotion does, case by case: an opaque attribute named "Code" whose
/// payload decodes becomes `Code` with the limits and the code bytes that
/// the payload holds; an attribute with any other name, one that is not
/// opaque, and one whose payload does not decode stay as they are.
pub proof fn lemma_promotion(entry: AttributeEntryView, pool: Seq<ConstantPoolEntryView>)
    ensures
        spec_promote(entry, pool).name_index == entry.name_index,
        entry.info is Raw && names_code(pool, entry.name_index) && spec_code_payload(
            entry.info->Raw_0,
        ) is Ok ==> {
            let payload = entry.info->Raw_0;
            let info = spec_promote(entry, pool).info;
            &&& info is Code
            &&& info->Code_max_stack == be16(payload, 0)
            &&& info->Code_max_locals == be16(payload, 2)
            &&& info->Code_code == payload.subrange(8, 8 + be32(payload, 4))
        },
        !names_code(pool, entry.name_index) ==> spec_promote(entry, pool) == entry,
        entry.info !is Raw ==> spec_promote(entry, pool) == entry,
        entry.info is Raw && spec_code_payload(entry.info->Raw_0) is Err ==> spec_promote(
            entry,
            pool,
        ) == entry,
{
}

/// The bytes of an encoded payload, place by place.
proof fn lemma_plain_code_layout(max_stack: u16, max_locals: u16, code: Seq<u8>)
    requires
        code.len() <= u32::MAX,
    ensures
        ({
            let payload = encode_plain_code(max_stack, max_locals, code);
            let n = code.len() as int;
            &&& payload.len() == 12 + n
            &&& be16(payload, 0) == max_stack
            &&& be16(payload, 2) == max_locals
            &&& be32(payload, 4) == n
            &&& payload.subrange(8, 8 + n) == code
            &&& be16(payload, 8 + n) == 0
            &&& be16(payload, 10 + n) == 0
        }),
{
    let payload = encode_plain_code(max_stack, max_locals, code);
    let n = code.len() as u32;
    let head = encode_u16(max_stack) + encode_u16(max_locals) + encode_u32(n);
    let tail = encode_u16(0) + encode_u16(0);
    assert(head.len() == 8);
    assert(tail.len() == 4);
    assert(payload =~= head + code + tail);
    assert(payload[0] == head[0] && payload[1] == head[1] && payload[2] == head[2] && payload[3]
        == head[3]);
    assert(payload[4] == head[4] && payload[5] == head[5] && payload[6] == head[6] && payload[7]
        == head[7]);
    assert(head[0] == (max_stack / 0x100) as u8 && head[1] == (max_stack % 0x100) as u8);
    assert(head[2] == (max_locals / 0x100) as u8 && head[3] == (max_locals % 0x100) as u8);
    assert(head[4] == (n / 0x100_0000) as u8 && head[5] == (n / 0x1_0000 % 0x100) as u8);
    assert(head[6] == (n / 0x100 % 0x100) as u8 && head[7] == (n % 0x100) as u8);
    assert(payload.subrange(8, 8 + n) =~= code);
    assert(payload[8 + n] == tail[0] && payload[9 + n] == tail[1] && payload[10 + n] == tail[2]
        && payload[11 + n] == tail[3]);
    assert(be32(payload, 4) == n) by {
        let a = (n / 0x100_0000) as int;
        let b = (n / 0x1_0000 % 0x100) as int;
        let c = (n / 0x100 % 0x100) as int;
        let d = (n % 0x100) as int;
        assert(((a * 0x100 + b) * 0x100 + c) * 0x100 + d == n);
        assert(be16(payload, 4) == a * 0x100 + b);
        assert(be16(payload, 6) == c * 0x100 + d);
    }
}

/// Promotion gives back what was encoded: an opaque attribute named "Code"
/// whose payload encodes `max_stack`, `max_locals` and `code` becomes the
/// `Code` attribute with exactly these.
pub proof fn lemma_promotion_round_trip(
    name_index: u16,
    pool: Seq<ConstantPoolEntryView>,
    max_stack: u16,
    max_locals: u16,
    code: Seq<u8>,
)
    requires
        names_code(pool, name_index),
        code.len() <= u32::MAX,
    ensures
        spec_promote(
            AttributeEntryView {
                name_index,
                info: AttributeInfoView::Raw(encode_plain_code(max_stack, max_locals, code)),
            },
            pool,
        ) == (AttributeEntryView {
            name_index,
            info: AttributeInfoView::Code {
                max_stack,
                max_locals,
                code,
                exception_table: Seq::empty(),
                attributes: Seq::empty(),
            },
        }),
{
    let payload = encode_plain_code(max_stack, max_locals, code);
    let n = code.len() as int;
    lemma_plain_code_layout(max_stack, max_locals, code);
    assert(spec_elements::<ExceptionTableEntry>(payload, 10 + n, 0) == Ok::<_, ClassBuilderError>(
        (Seq::<ExceptionTableEntry>::empty(), 10 + n),
    ));
    assert(spec_array::<ExceptionTableEntry>(payload, 8 + n) == Ok::<_, ClassBuilderError>(
        (Seq::<ExceptionTableEntry>::empty(), 10 + n),
    ));
    assert(spec_elements::<AttributeEntry>(payload, 12 + n, 0) == Ok::<_, ClassBuilderError>(
        (Seq::<AttributeEntryView>::empty(), 12 + n),
    ));
    assert(spec_array::<AttributeEntry>(payload, 10 + n) == Ok::<_, ClassBuilderError>(
        (Seq::<AttributeEntryView>::empty(), 12 + n),
    ));
}

} // verus!
