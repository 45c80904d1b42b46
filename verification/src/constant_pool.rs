//! The constant pool: an index-addressable table of tagged records that all
//! other sections refer to by 1-based index. The pool is decoded once, in
//! declaration order, and is immutable thereafter.
//!
//! `s_constant_pool` is the specification-level parser; `generate_constant_pool`
//! is the verified decoder, proved to return exactly what the specification
//! parser says.
//!
//! A deliberate deviation from the historical binary layout: an 8-byte
//! `Long` or `Double` record occupies a single logical slot here, while the
//! historical format reserves the following index as unused. Inputs that
//! rely on the reserved-slot convention will resolve indices after such a
//! record one slot later than a historical reader would.

use vstd::prelude::*;

verus! {

use crate::cursor::{be16, be32, ByteCursor};
use crate::error::DecodeError;

pub const CONSTANT_POOL_CLASS: u8 = 7;
pub const CONSTANT_POOL_FIELDREF: u8 = 9;
pub const CONSTANT_POOL_METHODREF: u8 = 10;
pub const CONSTANT_POOL_INTERFACEMETHODREF: u8 = 11;
pub const CONSTANT_POOL_STRING: u8 = 8;
pub const CONSTANT_POOL_INTEGER: u8 = 3;
pub const CONSTANT_POOL_FLOAT: u8 = 4;
pub const CONSTANT_POOL_LONG: u8 = 5;
pub const CONSTANT_POOL_DOUBLE: u8 = 6;
pub const CONSTANT_POOL_NAME_AND_TYPE: u8 = 12;
pub const CONSTANT_POOL_UTF8: u8 = 1;
pub const CONSTANT_POOL_METHOD_HANDLE: u8 = 15;
pub const CONSTANT_POOL_METHOD_TYPE: u8 = 16;
pub const CONSTANT_POOL_INVOKE_DYNAMIC: u8 = 18;

/// A raw pool record kept as an uninterpreted tag and payload.
#[derive(Debug, Clone, PartialEq, Eq)]
pub struct ConstantPool {
    pub tag: u8,
    pub info: Vec<u8>,
}

#[derive(Debug, Clone, Copy, PartialEq, Eq)]
pub struct ConstantClass {
    pub tag: u8,
    pub name_index: u16,
}

#[derive(Debug, Clone, Copy, PartialEq, Eq)]
pub struct ConstantRef {
    pub tag: u8,
    pub class_index: u16,
    pub name_and_type_index: u16,
}

#[derive(Debug, Clone, Copy, PartialEq, Eq)]
pub struct ConstantFieldRef {
    pub tag: u8,
    pub class_index: u16,
    pub name_and_type_index: u16,
}

#[derive(Debug, Clone, Copy, PartialEq, Eq)]
pub struct ConstantMethodRef {
    pub tag: u8,
    pub class_index: u16,
    pub name_and_type_index: u16,
}

#[derive(Debug, Clone, Copy, PartialEq, Eq)]
pub struct ConstantInterfaceMethodRef {
    pub tag: u8,
    pub class_index: u16,
    pub name_and_type_index: u16,
}

#[derive(Debug, Clone, Copy, PartialEq, Eq)]
pub struct ConstantStringInfo {
    pub tag: u8,
    pub string_index: u16,
}

#[derive(Debug, Clone, Copy, PartialEq, Eq)]
pub struct ConstantInteger {
    pub tag: u8,
    pub bytes: u32,
}

/// The 32 raw bits of a single-precision pool constant. The decoder keeps
/// them uninterpreted; consumers may reinterpret them.
#[derive(Debug, Clone, Copy, PartialEq, Eq)]
pub struct ConstantFloat {
    pub tag: u8,
    pub bytes: u32,
}

#[derive(Debug, Clone, Copy, PartialEq, Eq)]
pub struct ConstantLong {
    pub tag: u8,
    pub high_bytes: u32,
    pub low_bytes: u32,
}

/// The 64 raw bits of a double-precision pool constant, kept uninterpreted.
#[derive(Debug, Clone, Copy, PartialEq, Eq)]
pub struct ConstantDouble {
    pub tag: u8,
    pub high_bytes: u32,
    pub low_bytes: u32,
}

#[derive(Debug, Clone, Copy, PartialEq, Eq)]
pub struct ConstantNameAndType {
    pub tag: u8,
    pub name_index: u16,
    pub descriptor_index: u16,
}

/// A Utf8 pool entry. The text is kept as its validated modified-UTF-8
/// bytes; modified UTF-8 is not the standard encoding (it has no zero byte
/// and no four-byte sequences), so the raw bytes are the faithful value.
#[derive(Debug, Clone, PartialEq, Eq)]
pub struct ConstantUtf8Info {
    pub tag: u8,
    pub utf_str: Vec<u8>,
}

#[derive(Debug, Clone, Copy, PartialEq, Eq)]
pub struct ConstantMethodHandle {
    pub tag: u8,
    pub reference_kind: u8,
    pub reference_index: u16,
}

#[derive(Debug, Clone, Copy, PartialEq, Eq)]
pub struct ConstantMethodType {
    pub tag: u8,
    pub descriptor_index: u16,
}

#[derive(Debug, Clone, Copy, PartialEq, Eq)]
pub struct ConstantInvokeDynamic {
    pub tag: u8,
    pub bootstrap_method_attr_index: u16,
    pub name_and_type_index: u16,
}

/// One constant-pool record. Field, method and interface-method references
/// share the `Ref` variant; their `tag` field tells them apart.
#[derive(Debug, Clone, PartialEq, Eq)]
pub enum Constant {
    Class(ConstantClass),
    Ref(ConstantRef),
    FieldRef(ConstantFieldRef),
    MethodRef(ConstantMethodRef),
    InterfaceMethodRef(ConstantInterfaceMethodRef),
    String(ConstantStringInfo),
    Integer(ConstantInteger),
    Float(ConstantFloat),
    Long(ConstantLong),
    Double(ConstantDouble),
    NameAndType(ConstantNameAndType),
    Utf8Info(ConstantUtf8Info),
    MethodHandle(ConstantMethodHandle),
    MethodType(ConstantMethodType),
    InvokeDynamic(ConstantInvokeDynamic),
}

/// The mathematical value of a Utf8 pool entry.
pub struct SpecConstantUtf8Info {
    pub tag: u8,
    pub utf_str: Seq<u8>,
}

/// The mathematical value of a pool record: `Constant` with the text as a
/// byte sequence.
pub enum SpecConstant {
    Class(ConstantClass),
    Ref(ConstantRef),
    FieldRef(ConstantFieldRef),
    MethodRef(ConstantMethodRef),
    InterfaceMethodRef(ConstantInterfaceMethodRef),
    String(ConstantStringInfo),
    Integer(ConstantInteger),
    Float(ConstantFloat),
    Long(ConstantLong),
    Double(ConstantDouble),
    NameAndType(ConstantNameAndType),
    Utf8Info(SpecConstantUtf8Info),
    MethodHandle(ConstantMethodHandle),
    MethodType(ConstantMethodType),
    InvokeDynamic(ConstantInvokeDynamic),
}

impl DeepView for Constant {
    type V = SpecConstant;

    open spec fn deep_view(&self) -> SpecConstant {
        match *self {
            Constant::Class(c) => SpecConstant::Class(c),
            Constant::Ref(c) => SpecConstant::Ref(c),
            Constant::FieldRef(c) => SpecConstant::FieldRef(c),
            Constant::MethodRef(c) => SpecConstant::MethodRef(c),
            Constant::InterfaceMethodRef(c) => SpecConstant::InterfaceMethodRef(c),
            Constant::String(c) => SpecConstant::String(c),
            Constant::Integer(c) => SpecConstant::Integer(c),
            Constant::Float(c) => SpecConstant::Float(c),
            Constant::Long(c) => SpecConstant::Long(c),
            Constant::Double(c) => SpecConstant::Double(c),
            Constant::NameAndType(c) => SpecConstant::NameAndType(c),
            Constant::Utf8Info(c) => SpecConstant::Utf8Info(
                SpecConstantUtf8Info { tag: c.tag, utf_str: c.utf_str@ },
            ),
            Constant::MethodHandle(c) => SpecConstant::MethodHandle(c),
            Constant::MethodType(c) => SpecConstant::MethodType(c),
            Constant::InvokeDynamic(c) => SpecConstant::InvokeDynamic(c),
        }
    }
}

/// Whether `b` is a continuation byte of a multi-byte sequence.
pub open spec fn is_utf8_continuation(b: u8) -> bool {
    0x80 <= b && b <= 0xBF
}

/// Well-formed modified UTF-8 from position `i` on: no zero byte, and only
/// one-, two- and three-byte sequences (the modified encoding represents
/// other code points with surrogate pairs of three-byte sequences).
pub open spec fn is_modified_utf8_from(s: Seq<u8>, i: int) -> bool
    decreases s.len() - i,
{
    if i >= s.len() {
        true
    } else if s[i] == 0 {
        false
    } else if s[i] < 0x80 {
        is_modified_utf8_from(s, i + 1)
    } else if 0xC0 <= s[i] && s[i] <= 0xDF {
        i + 2 <= s.len() && is_utf8_continuation(s[i + 1]) && is_modified_utf8_from(s, i + 2)
    } else if 0xE0 <= s[i] && s[i] <= 0xEF {
        i + 3 <= s.len() && is_utf8_continuation(s[i + 1]) && is_utf8_continuation(s[i + 2])
            && is_modified_utf8_from(s, i + 3)
    } else {
        false
    }
}

/// Well-formed modified UTF-8 text.
pub open spec fn is_modified_utf8(s: Seq<u8>) -> bool {
    is_modified_utf8_from(s, 0)
}

/// Verified modified-UTF-8 well-formedness check.
#[verifier::loop_isolation(false)]
pub fn check_modified_utf8(bytes: &Vec<u8>) -> (r: bool)
    ensures
        r == is_modified_utf8(bytes@),
{
    let n = bytes.len();
    let mut i: usize = 0;
    while i < n
        invariant
            i <= n,
            n == bytes@.len(),
            is_modified_utf8(bytes@) == is_modified_utf8_from(bytes@, i as int),
        decreases n - i,
    {
        let b = bytes[i];
        if b == 0 {
            return false;
        } else if b < 0x80 {
            i = i + 1;
        } else if 0xC0 <= b && b <= 0xDF {
            if n - i < 2 || !(0x80 <= bytes[i + 1] && bytes[i + 1] <= 0xBF) {
                return false;
            }
            i = i + 2;
        } else if 0xE0 <= b && b <= 0xEF {
            if n - i < 3 || !(0x80 <= bytes[i + 1] && bytes[i + 1] <= 0xBF)
                || !(0x80 <= bytes[i + 2] && bytes[i + 2] <= 0xBF) {
                return false;
            }
            i = i + 3;
        } else {
            return false;
        }
    }
    true
}

/// Specification-level parse of one pool record at `pos`: the record and the
/// position just past it, or the error the record's bytes force.
pub open spec fn s_constant(b: Seq<u8>, pos: int) -> Result<(SpecConstant, int), DecodeError> {
    if pos + 1 > b.len() {
        Err(DecodeError::Truncated)
    } else {
        let tag = b[pos];
        let p = pos + 1;
        if tag == CONSTANT_POOL_CLASS {
            if p + 2 <= b.len() {
                Ok((SpecConstant::Class(ConstantClass { tag, name_index: be16(b, p) }), p + 2))
            } else {
                Err(DecodeError::Truncated)
            }
        } else if tag == CONSTANT_POOL_FIELDREF || tag == CONSTANT_POOL_METHODREF
            || tag == CONSTANT_POOL_INTERFACEMETHODREF {
            if p + 4 <= b.len() {
                Ok((
                    SpecConstant::Ref(
                        ConstantRef {
                            tag,
                            class_index: be16(b, p),
                            name_and_type_index: be16(b, p + 2),
                        },
                    ),
                    p + 4,
                ))
            } else {
                Err(DecodeError::Truncated)
            }
        } else if tag == CONSTANT_POOL_STRING {
            if p + 2 <= b.len() {
                Ok((
                    SpecConstant::String(ConstantStringInfo { tag, string_index: be16(b, p) }),
                    p + 2,
                ))
            } else {
                Err(DecodeError::Truncated)
            }
        } else if tag == CONSTANT_POOL_INTEGER {
            if p + 4 <= b.len() {
                Ok((SpecConstant::Integer(ConstantInteger { tag, bytes: be32(b, p) }), p + 4))
            } else {
                Err(DecodeError::Truncated)
            }
        } else if tag == CONSTANT_POOL_FLOAT {
            if p + 4 <= b.len() {
                Ok((SpecConstant::Float(ConstantFloat { tag, bytes: be32(b, p) }), p + 4))
            } else {
                Err(DecodeError::Truncated)
            }
        } else if tag == CONSTANT_POOL_LONG {
            if p + 8 <= b.len() {
                Ok((
                    SpecConstant::Long(
                        ConstantLong { tag, high_bytes: be32(b, p), low_bytes: be32(b, p + 4) },
                    ),
                    p + 8,
                ))
            } else {
                Err(DecodeError::Truncated)
            }
        } else if tag == CONSTANT_POOL_DOUBLE {
            if p + 8 <= b.len() {
                Ok((
                    SpecConstant::Double(
                        ConstantDouble { tag, high_bytes: be32(b, p), low_bytes: be32(b, p + 4) },
                    ),
                    p + 8,
                ))
            } else {
                Err(DecodeError::Truncated)
            }
        } else if tag == CONSTANT_POOL_NAME_AND_TYPE {
            if p + 4 <= b.len() {
                Ok((
                    SpecConstant::NameAndType(
                        ConstantNameAndType {
                            tag,
                            name_index: be16(b, p),
                            descriptor_index: be16(b, p + 2),
                        },
                    ),
                    p + 4,
                ))
            } else {
                Err(DecodeError::Truncated)
            }
        } else if tag == CONSTANT_POOL_UTF8 {
            if p + 2 <= b.len() {
                let len = be16(b, p) as int;
                if p + 2 + len <= b.len() {
                    let text = b.subrange(p + 2, p + 2 + len);
                    if is_modified_utf8(text) {
                        Ok((
                            SpecConstant::Utf8Info(SpecConstantUtf8Info { tag, utf_str: text }),
                            p + 2 + len,
                        ))
                    } else {
                        Err(DecodeError::InvalidText)
                    }
                } else {
                    Err(DecodeError::Truncated)
                }
            } else {
                Err(DecodeError::Truncated)
            }
        } else if tag == CONSTANT_POOL_METHOD_HANDLE {
            if p + 3 <= b.len() {
                Ok((
                    SpecConstant::MethodHandle(
                        ConstantMethodHandle {
                            tag,
                            reference_kind: b[p],
                            reference_index: be16(b, p + 1),
                        },
                    ),
                    p + 3,
                ))
            } else {
                Err(DecodeError::Truncated)
            }
        } else if tag == CONSTANT_POOL_METHOD_TYPE {
            if p + 2 <= b.len() {
                Ok((
                    SpecConstant::MethodType(
                        ConstantMethodType { tag, descriptor_index: be16(b, p) },
                    ),
                    p + 2,
                ))
            } else {
                Err(DecodeError::Truncated)
            }
        } else if tag == CONSTANT_POOL_INVOKE_DYNAMIC {
            if p + 4 <= b.len() {
                Ok((
                    SpecConstant::InvokeDynamic(
                        ConstantInvokeDynamic {
                            tag,
                            bootstrap_method_attr_index: be16(b, p),
                            name_and_type_index: be16(b, p + 2),
                        },
                    ),
                    p + 4,
                ))
            } else {
                Err(DecodeError::Truncated)
            }
        } else {
            Err(DecodeError::UnknownConstantTag(tag))
        }
    }
}

/// Specification-level parse of `n` consecutive pool records, appended to
/// `acc` in declaration order.
pub open spec fn s_constants(b: Seq<u8>, pos: int, n: nat, acc: Seq<SpecConstant>) -> Result<
    (Seq<SpecConstant>, int),
    DecodeError,
>
    decreases n,
{
    if n == 0 {
        Ok((acc, pos))
    } else {
        match s_constant(b, pos) {
            Err(e) => Err(e),
            Ok((c, p2)) => s_constants(b, p2, (n - 1) as nat, acc.push(c)),
        }
    }
}

/// Specification-level parse of the whole constant pool, given the declared
/// `constant_pool_count`: `count - 1` records starting at logical index 1
/// (index 0 is reserved and absent), as a table addressable from 0 to
/// `count - 1` with slot 0 empty.
pub open spec fn s_constant_pool(b: Seq<u8>, pos: int, count: u16) -> Result<
    (Seq<Option<SpecConstant>>, int),
    DecodeError,
> {
    if count == 0 {
        Ok((Seq::empty(), pos))
    } else {
        match s_constants(b, pos, (count - 1) as nat, Seq::empty()) {
            Err(e) => Err(e),
            Ok((es, p2)) => Ok((
                Seq::new(count as nat, |i: int| if i == 0 { None } else { Some(es[i - 1]) }),
                p2,
            )),
        }
    }
}

/// Decode one pool record at the cursor.
pub fn decode_constant(c: &mut ByteCursor) -> (r: Result<Constant, DecodeError>)
    requires
        old(c).wf(),
    ensures
        final(c).wf(),
        final(c).bytes() == old(c).bytes(),
        old(c).pos <= final(c).pos,
        (match r {
            Ok(v) => s_constant(old(c).bytes(), old(c).pos as int)
                == Ok::<_, DecodeError>((v.deep_view(), final(c).pos as int))
                && old(c).pos < final(c).pos,
            Err(e) => s_constant(old(c).bytes(), old(c).pos as int)
                == Err::<(SpecConstant, int), _>(e),
        }),
{
    let tag = c.read_u8()?;
    if tag == CONSTANT_POOL_CLASS {
        let name_index = c.read_u16()?;
        Ok(Constant::Class(ConstantClass { tag, name_index }))
    } else if tag == CONSTANT_POOL_FIELDREF || tag == CONSTANT_POOL_METHODREF
        || tag == CONSTANT_POOL_INTERFACEMETHODREF {
        let class_index = c.read_u16()?;
        let name_and_type_index = c.read_u16()?;
        Ok(Constant::Ref(ConstantRef { tag, class_index, name_and_type_index }))
    } else if tag == CONSTANT_POOL_STRING {
        let string_index = c.read_u16()?;
        Ok(Constant::String(ConstantStringInfo { tag, string_index }))
    } else if tag == CONSTANT_POOL_INTEGER {
        let bytes = c.read_u32()?;
        Ok(Constant::Integer(ConstantInteger { tag, bytes }))
    } else if tag == CONSTANT_POOL_FLOAT {
        let bytes = c.read_u32()?;
        Ok(Constant::Float(ConstantFloat { tag, bytes }))
    } else if tag == CONSTANT_POOL_LONG {
        let high_bytes = c.read_u32()?;
        let low_bytes = c.read_u32()?;
        Ok(Constant::Long(ConstantLong { tag, high_bytes, low_bytes }))
    } else if tag == CONSTANT_POOL_DOUBLE {
        let high_bytes = c.read_u32()?;
        let low_bytes = c.read_u32()?;
        Ok(Constant::Double(ConstantDouble { tag, high_bytes, low_bytes }))
    } else if tag == CONSTANT_POOL_NAME_AND_TYPE {
        let name_index = c.read_u16()?;
        let descriptor_index = c.read_u16()?;
        Ok(Constant::NameAndType(ConstantNameAndType { tag, name_index, descriptor_index }))
    } else if tag == CONSTANT_POOL_UTF8 {
        let length = c.read_u16()?;
        let bytes = c.read_bytes(length as usize)?;
        if check_modified_utf8(&bytes) {
            Ok(Constant::Utf8Info(ConstantUtf8Info { tag, utf_str: bytes }))
        } else {
            Err(DecodeError::InvalidText)
        }
    } else if tag == CONSTANT_POOL_METHOD_HANDLE {
        let reference_kind = c.read_u8()?;
        let reference_index = c.read_u16()?;
        Ok(Constant::MethodHandle(ConstantMethodHandle { tag, reference_kind, reference_index }))
    } else if tag == CONSTANT_POOL_METHOD_TYPE {
        let descriptor_index = c.read_u16()?;
        Ok(Constant::MethodType(ConstantMethodType { tag, descriptor_index }))
    } else if tag == CONSTANT_POOL_INVOKE_DYNAMIC {
        let bootstrap_method_attr_index = c.read_u16()?;
        let name_and_type_index = c.read_u16()?;
        Ok(Constant::InvokeDynamic(
            ConstantInvokeDynamic { tag, bootstrap_method_attr_index, name_and_type_index },
        ))
    } else {
        Err(DecodeError::UnknownConstantTag(tag))
    }
}

/// Decode the constant pool from the cursor, given the declared
/// `constant_pool_count`: `count - 1` records are read in order, and the
/// table keeps slot 0 empty so records sit at their 1-based indices.
#[verifier::loop_isolation(false)]
pub fn generate_constant_pool(c: &mut ByteCursor, constant_pool_count: u16) -> (r: Result<
    Vec<Option<Constant>>,
    DecodeError,
>)
    requires
        old(c).wf(),
    ensures
        final(c).wf(),
        final(c).bytes() == old(c).bytes(),
        old(c).pos <= final(c).pos,
        (match r {
            Ok(v) => s_constant_pool(old(c).bytes(), old(c).pos as int, constant_pool_count)
                == Ok::<_, DecodeError>((v.deep_view(), final(c).pos as int)),
            Err(e) => s_constant_pool(old(c).bytes(), old(c).pos as int, constant_pool_count)
                == Err::<(Seq<Option<SpecConstant>>, int), _>(e),
        }),
{
    let ghost b = c.bytes();
    let ghost p0 = c.pos as int;
    if constant_pool_count == 0 {
        let v: Vec<Option<Constant>> = Vec::new();
        proof {
            assert(v.deep_view() =~= Seq::<Option<SpecConstant>>::empty());
        }
        return Ok(v);
    }
    let total: u16 = constant_pool_count - 1;
    let mut pool: Vec<Option<Constant>> = Vec::new();
    pool.push(None);
    let ghost mut acc: Seq<SpecConstant> = Seq::empty();
    let mut i: u16 = 0;
    proof {
        assert(pool.deep_view() =~= seq![Option::<SpecConstant>::None]);
    }
    while i < total
        invariant
            i <= total,
            c.wf(),
            c.bytes() == b,
            p0 <= c.pos,
            acc.len() == i as int,
            pool@.len() == i + 1,
            pool.deep_view()[0] is None,
            forall|j: int| 1 <= j <= i ==> #[trigger] pool.deep_view()[j] == Some(acc[j - 1]),
            s_constants(b, p0, total as nat, Seq::empty())
                == s_constants(b, c.pos as int, (total - i) as nat, acc),
        decreases total - i,
    {
        let ghost pos_before = c.pos as int;
        match decode_constant(c) {
            Err(e) => {
                proof {
                    assert(s_constants(b, pos_before, (total - i) as nat, acc)
                        == Err::<(Seq<SpecConstant>, int), _>(e));
                }
                return Err(e);
            },
            Ok(v) => {
                proof {
                    assert(s_constants(b, pos_before, (total - i) as nat, acc)
                        == s_constants(b, c.pos as int, (total - i - 1) as nat,
                            acc.push(v.deep_view())));
                }
                let ghost old_dv = pool.deep_view();
                pool.push(Some(v));
                proof {
                    acc = acc.push(v.deep_view());
                    assert(forall|j: int| 0 <= j < old_dv.len()
                        ==> #[trigger] pool.deep_view()[j] == old_dv[j]);
                    assert(pool.deep_view()[i + 1] == Some(acc[i as int]));
                }
                i = i + 1;
            },
        }
    }
    proof {
        assert(s_constants(b, c.pos as int, 0, acc) == Ok::<_, DecodeError>((acc, c.pos as int)));
        assert(pool.deep_view() =~= Seq::new(
            constant_pool_count as nat,
            |j: int| if j == 0 { None } else { Some(acc[j - 1]) },
        ));
    }
    Ok(pool)
}

/// Whether 1-based `index` refers to a populated pool slot.
pub open spec fn slot_present(pool: Seq<Option<SpecConstant>>, index: int) -> bool {
    1 <= index < pool.len() && pool[index] is Some
}

/// Whether every index field of one pool record refers to a populated slot.
/// `bootstrap_method_attr_index` is not a pool index (it refers to the
/// bootstrap-methods attribute table) and is not constrained here.
pub open spec fn entry_indices_sound(c: SpecConstant, pool: Seq<Option<SpecConstant>>) -> bool {
    match c {
        SpecConstant::Class(x) => slot_present(pool, x.name_index as int),
        SpecConstant::Ref(x) => slot_present(pool, x.class_index as int)
            && slot_present(pool, x.name_and_type_index as int),
        SpecConstant::FieldRef(x) => slot_present(pool, x.class_index as int)
            && slot_present(pool, x.name_and_type_index as int),
        SpecConstant::MethodRef(x) => slot_present(pool, x.class_index as int)
            && slot_present(pool, x.name_and_type_index as int),
        SpecConstant::InterfaceMethodRef(x) => slot_present(pool, x.class_index as int)
            && slot_present(pool, x.name_and_type_index as int),
        SpecConstant::String(x) => slot_present(pool, x.string_index as int),
        SpecConstant::Integer(_) => true,
        SpecConstant::Float(_) => true,
        SpecConstant::Long(_) => true,
        SpecConstant::Double(_) => true,
        SpecConstant::NameAndType(x) => slot_present(pool, x.name_index as int)
            && slot_present(pool, x.descriptor_index as int),
        SpecConstant::Utf8Info(_) => true,
        SpecConstant::MethodHandle(x) => slot_present(pool, x.reference_index as int),
        SpecConstant::MethodType(x) => slot_present(pool, x.descriptor_index as int),
        SpecConstant::InvokeDynamic(x) => slot_present(pool, x.name_and_type_index as int),
    }
}

/// Pool index soundness: every index field of every populated record refers
/// to a populated slot within `[1, count - 1]`.
pub open spec fn pool_indices_sound(pool: Seq<Option<SpecConstant>>) -> bool {
    forall|i: int| 0 <= i < pool.len()
        ==> (#[trigger] pool[i] matches Some(c) ==> entry_indices_sound(c, pool))
}

/// Whether 1-based `index` refers to a populated pool slot.
fn slot_ok(pool: &Vec<Option<Constant>>, index: u16) -> (r: bool)
    ensures
        r == slot_present(pool.deep_view(), index as int),
{
    1 <= index && (index as usize) < pool.len() && pool[index as usize].is_some()
}

/// Whether every index field of `c` refers to a populated slot of `pool`.
fn check_entry(c: &Constant, pool: &Vec<Option<Constant>>) -> (r: bool)
    ensures
        r == entry_indices_sound(c.deep_view(), pool.deep_view()),
{
    match c {
        Constant::Class(x) => slot_ok(pool, x.name_index),
        Constant::Ref(x) => slot_ok(pool, x.class_index)
            && slot_ok(pool, x.name_and_type_index),
        Constant::FieldRef(x) => slot_ok(pool, x.class_index)
            && slot_ok(pool, x.name_and_type_index),
        Constant::MethodRef(x) => slot_ok(pool, x.class_index)
            && slot_ok(pool, x.name_and_type_index),
        Constant::InterfaceMethodRef(x) => slot_ok(pool, x.class_index)
            && slot_ok(pool, x.name_and_type_index),
        Constant::String(x) => slot_ok(pool, x.string_index),
        Constant::Integer(_) => true,
        Constant::Float(_) => true,
        Constant::Long(_) => true,
        Constant::Double(_) => true,
        Constant::NameAndType(x) => slot_ok(pool, x.name_index)
            && slot_ok(pool, x.descriptor_index),
        Constant::Utf8Info(_) => true,
        Constant::MethodHandle(x) => slot_ok(pool, x.reference_index),
        Constant::MethodType(x) => slot_ok(pool, x.descriptor_index),
        Constant::InvokeDynamic(x) => slot_ok(pool, x.name_and_type_index),
    }
}

/// Check pool index soundness for a fully decoded pool: `Ok` exactly when
/// every index field of every record refers to a populated slot, and
/// `DanglingIndex` otherwise.
#[verifier::loop_isolation(false)]
pub fn validate_constant_pool(pool: &Vec<Option<Constant>>) -> (r: Result<(), DecodeError>)
    ensures
        r is Ok <==> pool_indices_sound(pool.deep_view()),
        (r matches Err(e) ==> e == DecodeError::DanglingIndex),
{
    let n = pool.len();
    let mut i: usize = 0;
    while i < n
        invariant
            i <= n,
            n == pool@.len(),
            forall|j: int| 0 <= j < i
                ==> (#[trigger] pool.deep_view()[j] matches Some(c)
                    ==> entry_indices_sound(c, pool.deep_view())),
        decreases n - i,
    {
        match &pool[i] {
            None => {},
            Some(c) => {
                if !check_entry(c, pool) {
                    proof {
                        assert(pool.deep_view()[i as int] matches Some(sc)
                            && !entry_indices_sound(sc, pool.deep_view()));
                    }
                    return Err(DecodeError::DanglingIndex);
                }
            },
        }
        i = i + 1;
    }
    Ok(())
}

/// Resolve a 1-based pool index that must name a Utf8 record: its text, or
/// `DanglingIndex` for an absent slot and `WrongConstantKind` for a record
/// of another variant.
pub open spec fn s_lookup_utf8(pool: Seq<Option<SpecConstant>>, index: int) -> Result<
    Seq<u8>,
    DecodeError,
> {
    if !(1 <= index < pool.len()) {
        Err(DecodeError::DanglingIndex)
    } else {
        match pool[index] {
            None => Err(DecodeError::DanglingIndex),
            Some(SpecConstant::Utf8Info(u)) => Ok(u.utf_str),
            Some(_) => Err(DecodeError::WrongConstantKind),
        }
    }
}

/// Resolve a 1-based pool index to the text of a Utf8 record.
pub fn lookup_utf8(pool: &Vec<Option<Constant>>, index: u16) -> (r: Result<Vec<u8>, DecodeError>)
    ensures
        (match r {
            Ok(v) => s_lookup_utf8(pool.deep_view(), index as int) == Ok::<_, DecodeError>(v@),
            Err(e) => s_lookup_utf8(pool.deep_view(), index as int) == Err::<Seq<u8>, _>(e),
        }),
{
    if index < 1 || pool.len() <= index as usize {
        return Err(DecodeError::DanglingIndex);
    }
    match &pool[index as usize] {
        None => Err(DecodeError::DanglingIndex),
        Some(Constant::Utf8Info(u)) => Ok(u.utf_str.clone()),
        Some(_) => Err(DecodeError::WrongConstantKind),
    }
}

} // verus!
