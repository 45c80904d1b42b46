//! The top-level assembler: one pass over one cursor reads the fixed
//! header, the constant pool, the inheritance section, the field and method
//! tables, and the class-level attribute table, and assembles the aggregate
//! `ClassFile`. A decode either returns a complete, internally consistent
//! value or fails with one `DecodeError`; it never returns a partial
//! aggregate.

use vstd::prelude::*;

verus! {

use crate::attributes::{
    deep_view_attributes, generate_attributes, s_attributes, AttributeType, SpecAttributeType,
};
use crate::constant_pool::{
    generate_constant_pool, pool_indices_sound, s_constant_pool, validate_constant_pool, Constant,
    SpecConstant,
};
use crate::cursor::{be16, be32, s_u16s, ByteCursor};
use crate::error::DecodeError;
use crate::fields::{generate_fields, s_fields, FieldInfo, SpecFieldInfo};
use crate::interfaces::generate_interfaces;
use crate::methods::{generate_methods, s_methods, Method, SpecMethod};

/// The fixed magic number that opens every classfile.
pub const CLASS_MAGIC: u32 = 0xCAFEBABE;

/// The decoded aggregate: header fields, the constant pool, inheritance
/// references, the member tables, and the class-level attributes. Immutable
/// after construction.
#[derive(Debug, PartialEq, Eq)]
pub struct ClassFile {
    pub magic: u32,
    pub minor_version: u16,
    pub major_version: u16,
    pub constant_pool_count: u16,
    pub constant_pool: Vec<Option<Constant>>,
    pub access_flags: u16,
    pub this_class: u16,
    pub super_class: u16,
    pub interfaces_count: u16,
    pub interfaces: Vec<u16>,
    pub fields_count: u16,
    pub fields: Vec<FieldInfo>,
    pub methods_count: u16,
    pub methods: Vec<Method>,
    pub attributes_count: u16,
    pub attributes: Vec<AttributeType>,
}

/// The mathematical value of a `ClassFile`.
pub struct SpecClassFile {
    pub magic: u32,
    pub minor_version: u16,
    pub major_version: u16,
    pub constant_pool_count: u16,
    pub constant_pool: Seq<Option<SpecConstant>>,
    pub access_flags: u16,
    pub this_class: u16,
    pub super_class: u16,
    pub interfaces_count: u16,
    pub interfaces: Seq<u16>,
    pub fields_count: u16,
    pub fields: Seq<SpecFieldInfo>,
    pub methods_count: u16,
    pub methods: Seq<SpecMethod>,
    pub attributes_count: u16,
    pub attributes: Seq<SpecAttributeType>,
}

impl DeepView for ClassFile {
    type V = SpecClassFile;

    open spec fn deep_view(&self) -> SpecClassFile {
        SpecClassFile {
            magic: self.magic,
            minor_version: self.minor_version,
            major_version: self.major_version,
            constant_pool_count: self.constant_pool_count,
            constant_pool: self.constant_pool.deep_view(),
            access_flags: self.access_flags,
            this_class: self.this_class,
            super_class: self.super_class,
            interfaces_count: self.interfaces_count,
            interfaces: self.interfaces@,
            fields_count: self.fields_count,
            fields: self.fields.deep_view(),
            methods_count: self.methods_count,
            methods: self.methods.deep_view(),
            attributes_count: self.attributes_count,
            attributes: deep_view_attributes(self.attributes@),
        }
    }
}

/// Specification-level parse of a whole classfile from the start of `b`:
/// magic (which must equal `CLASS_MAGIC`), versions, the constant pool
/// (whose index fields must all refer to populated slots), access and class
/// references, interfaces, fields, methods, and class-level attributes.
/// Bytes past the last section are ignored.
pub open spec fn s_class_file(b: Seq<u8>) -> Result<SpecClassFile, DecodeError> {
    if 4 > b.len() {
        Err(DecodeError::Truncated)
    } else if be32(b, 0) != CLASS_MAGIC {
        Err(DecodeError::BadMagic)
    } else if 10 > b.len() {
        Err(DecodeError::Truncated)
    } else {
        let minor_version = be16(b, 4);
        let major_version = be16(b, 6);
        let constant_pool_count = be16(b, 8);
        match s_constant_pool(b, 10, constant_pool_count) {
            Err(e) => Err(e),
            Ok((pool, p1)) => if !pool_indices_sound(pool) {
                Err(DecodeError::DanglingIndex)
            } else if p1 + 8 > b.len() {
                Err(DecodeError::Truncated)
            } else {
                let access_flags = be16(b, p1);
                let this_class = be16(b, p1 + 2);
                let super_class = be16(b, p1 + 4);
                let interfaces_count = be16(b, p1 + 6);
                match s_u16s(b, p1 + 8, interfaces_count as nat, Seq::empty()) {
                    Err(e) => Err(e),
                    Ok((interfaces, p2)) => if p2 + 2 > b.len() {
                        Err(DecodeError::Truncated)
                    } else {
                        let fields_count = be16(b, p2);
                        match s_fields(b, p2 + 2, fields_count as nat, Seq::empty(), pool) {
                            Err(e) => Err(e),
                            Ok((fields, p3)) => if p3 + 2 > b.len() {
                                Err(DecodeError::Truncated)
                            } else {
                                let methods_count = be16(b, p3);
                                match s_methods(b, p3 + 2, methods_count as nat, Seq::empty(), pool) {
                                    Err(e) => Err(e),
                                    Ok((methods, p4)) => if p4 + 2 > b.len() {
                                        Err(DecodeError::Truncated)
                                    } else {
                                        let attributes_count = be16(b, p4);
                                        match s_attributes(b, p4 + 2, attributes_count as nat, Seq::empty(), pool) {
                                            Err(e) => Err(e),
                                            Ok((attributes, _p5)) => Ok(SpecClassFile {
                                                magic: CLASS_MAGIC,
                                                minor_version,
                                                major_version,
                                                constant_pool_count,
                                                constant_pool: pool,
                                                access_flags,
                                                this_class,
                                                super_class,
                                                interfaces_count,
                                                interfaces,
                                                fields_count,
                                                fields,
                                                methods_count,
                                                methods,
                                                attributes_count,
                                                attributes,
                                            }),
                                        }
                                    },
                                }
                            },
                        }
                    },
                }
            },
        }
    }
}

impl ClassFile {
    /// Decode a whole classfile from its bytes: the result is exactly what
    /// the specification-level parser `s_class_file` says, for every input.
    pub fn new(data: Vec<u8>) -> (r: Result<ClassFile, DecodeError>)
        ensures
            (match r {
                Ok(cf) => s_class_file(data@) == Ok::<_, DecodeError>(cf.deep_view()),
                Err(e) => s_class_file(data@) == Err::<SpecClassFile, _>(e),
            }),
    {
        let mut c = ByteCursor::new(data);
        let magic = c.read_u32()?;
        if magic != CLASS_MAGIC {
            return Err(DecodeError::BadMagic);
        }
        let minor_version = c.read_u16()?;
        let major_version = c.read_u16()?;
        let constant_pool_count = c.read_u16()?;
        let constant_pool = match generate_constant_pool(&mut c, constant_pool_count) {
            Err(e) => {
                return Err(e);
            },
            Ok(v) => v,
        };
        match validate_constant_pool(&constant_pool) {
            Err(e) => {
                return Err(e);
            },
            Ok(()) => {},
        }
        let access_flags = c.read_u16()?;
        let this_class = c.read_u16()?;
        let super_class = c.read_u16()?;
        let interfaces_count = c.read_u16()?;
        let interfaces = match generate_interfaces(interfaces_count, &mut c) {
            Err(e) => {
                return Err(e);
            },
            Ok(v) => v,
        };
        let fields_count = c.read_u16()?;
        let fields = match generate_fields(fields_count, &constant_pool, &mut c) {
            Err(e) => {
                return Err(e);
            },
            Ok(v) => v,
        };
        let methods_count = c.read_u16()?;
        let methods = match generate_methods(methods_count, &constant_pool, &mut c) {
            Err(e) => {
                return Err(e);
            },
            Ok(v) => v,
        };
        let attributes_count = c.read_u16()?;
        let attributes = match generate_attributes(attributes_count, &constant_pool, &mut c) {
            Err(e) => {
                return Err(e);
            },
            Ok(v) => v,
        };
        Ok(ClassFile {
            magic,
            minor_version,
            major_version,
            constant_pool_count,
            constant_pool,
            access_flags,
            this_class,
            super_class,
            interfaces_count,
            interfaces,
            fields_count,
            fields,
            methods_count,
            methods,
            attributes_count,
            attributes,
        })
    }
}

/// Pool index soundness: whenever a classfile decodes successfully, every
/// index field of every populated constant-pool record refers to a
/// populated slot within `[1, count - 1]`.
pub proof fn lemma_pool_index_soundness(b: Seq<u8>)
    ensures
        (s_class_file(b) matches Ok(cf) ==> pool_indices_sound(cf.constant_pool)),
{
}

/// Idempotent re-decode: the parse is a function of the bytes alone, so
/// decoding equal byte buffers yields structurally equal `ClassFile`
/// values. Together with the contract of `ClassFile::new`, which pins its
/// result to `s_class_file`, two decodes of the same buffer agree exactly.
pub proof fn lemma_redecode(b1: Seq<u8>, b2: Seq<u8>)
    requires
        b1 == b2,
    ensures
        s_class_file(b1) == s_class_file(b2),
{
}

} // verus!
