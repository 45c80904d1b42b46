//! The field section: a count-prefixed list of field records, each with
//! access flags, name and descriptor pool indices, and its own attribute
//! table. Name and descriptor indices must resolve to Utf8 pool records.

use vstd::prelude::*;

verus! {

use crate::attributes::{
    deep_view_attributes, generate_attributes, s_attributes, AttributeType, SpecAttributeType,
};
use crate::constant_pool::{lookup_utf8, s_lookup_utf8, Constant, SpecConstant};
use crate::cursor::{be16, ByteCursor};
use crate::error::DecodeError;

/// One field record.
#[derive(Debug, PartialEq, Eq)]
pub struct FieldInfo {
    pub access_flags: u16,
    pub name_index: u16,
    pub descriptor_index: u16,
    pub attributes_count: u16,
    pub attributes: Vec<AttributeType>,
}

/// The mathematical value of a `FieldInfo`.
pub struct SpecFieldInfo {
    pub access_flags: u16,
    pub name_index: u16,
    pub descriptor_index: u16,
    pub attributes_count: u16,
    pub attributes: Seq<SpecAttributeType>,
}

impl DeepView for FieldInfo {
    type V = SpecFieldInfo;

    open spec fn deep_view(&self) -> SpecFieldInfo {
        SpecFieldInfo {
            access_flags: self.access_flags,
            name_index: self.name_index,
            descriptor_index: self.descriptor_index,
            attributes_count: self.attributes_count,
            attributes: deep_view_attributes(self.attributes@),
        }
    }
}

/// Specification-level parse of one field record at `pos`: three `u16`
/// fields, the name and descriptor resolved to Utf8 pool records, then a
/// count-prefixed attribute table.
pub open spec fn s_field(b: Seq<u8>, pos: int, pool: Seq<Option<SpecConstant>>) -> Result<
    (SpecFieldInfo, int),
    DecodeError,
> {
    if pos + 6 > b.len() {
        Err(DecodeError::Truncated)
    } else {
        let access_flags = be16(b, pos);
        let name_index = be16(b, pos + 2);
        let descriptor_index = be16(b, pos + 4);
        match s_lookup_utf8(pool, name_index as int) {
            Err(e) => Err(e),
            Ok(_) => match s_lookup_utf8(pool, descriptor_index as int) {
                Err(e) => Err(e),
                Ok(_) => if pos + 8 > b.len() {
                    Err(DecodeError::Truncated)
                } else {
                    let attributes_count = be16(b, pos + 6);
                    match s_attributes(b, pos + 8, attributes_count as nat, Seq::empty(), pool) {
                        Err(e) => Err(e),
                        Ok((ats, p2)) => Ok((
                            SpecFieldInfo {
                                access_flags,
                                name_index,
                                descriptor_index,
                                attributes_count,
                                attributes: ats,
                            },
                            p2,
                        )),
                    }
                },
            },
        }
    }
}

/// Specification-level parse of `n` consecutive field records, appended to
/// `acc` in order.
pub open spec fn s_fields(b: Seq<u8>, pos: int, n: nat, acc: Seq<SpecFieldInfo>, pool: Seq<Option<SpecConstant>>)
    -> Result<(Seq<SpecFieldInfo>, int), DecodeError>
    decreases n,
{
    if n == 0 {
        Ok((acc, pos))
    } else {
        match s_field(b, pos, pool) {
            Err(e) => Err(e),
            Ok((f, p2)) => s_fields(b, p2, (n - 1) as nat, acc.push(f), pool),
        }
    }
}

/// Decode one field record at the cursor.
fn decode_field(c: &mut ByteCursor, constant_pool: &Vec<Option<Constant>>) -> (r: Result<
    FieldInfo,
    DecodeError,
>)
    requires
        old(c).wf(),
    ensures
        final(c).wf(),
        final(c).bytes() == old(c).bytes(),
        old(c).pos <= final(c).pos,
        (match r {
            Ok(v) => s_field(old(c).bytes(), old(c).pos as int, constant_pool.deep_view())
                == Ok::<_, DecodeError>((v.deep_view(), final(c).pos as int)),
            Err(e) => s_field(old(c).bytes(), old(c).pos as int, constant_pool.deep_view())
                == Err::<(SpecFieldInfo, int), _>(e),
        }),
{
    let access_flags = c.read_u16()?;
    let name_index = c.read_u16()?;
    let descriptor_index = c.read_u16()?;
    match lookup_utf8(constant_pool, name_index) {
        Err(e) => {
            return Err(e);
        },
        Ok(_) => {},
    }
    match lookup_utf8(constant_pool, descriptor_index) {
        Err(e) => {
            return Err(e);
        },
        Ok(_) => {},
    }
    let attributes_count = c.read_u16()?;
    let attributes = match generate_attributes(attributes_count, constant_pool, c) {
        Err(e) => {
            return Err(e);
        },
        Ok(v) => v,
    };
    Ok(FieldInfo { access_flags, name_index, descriptor_index, attributes_count, attributes })
}

/// Decode `fields_count` consecutive field records at the cursor.
#[verifier::loop_isolation(false)]
pub fn generate_fields(fields_count: u16, constant_pool: &Vec<Option<Constant>>, c: &mut ByteCursor)
    -> (r: Result<Vec<FieldInfo>, DecodeError>)
    requires
        old(c).wf(),
    ensures
        final(c).wf(),
        final(c).bytes() == old(c).bytes(),
        old(c).pos <= final(c).pos,
        (match r {
            Ok(v) => s_fields(old(c).bytes(), old(c).pos as int, fields_count as nat, Seq::empty(), constant_pool.deep_view())
                == Ok::<_, DecodeError>((v.deep_view(), final(c).pos as int)),
            Err(e) => s_fields(old(c).bytes(), old(c).pos as int, fields_count as nat, Seq::empty(), constant_pool.deep_view())
                == Err::<(Seq<SpecFieldInfo>, int), _>(e),
        }),
{
    let ghost b = c.bytes();
    let ghost start = c.pos as int;
    let ghost pool = constant_pool.deep_view();
    let mut fields: Vec<FieldInfo> = Vec::new();
    let ghost mut acc: Seq<SpecFieldInfo> = Seq::empty();
    let mut k: u16 = 0;
    proof {
        assert(fields.deep_view() =~= acc);
    }
    while k < fields_count
        invariant
            k <= fields_count,
            c.wf(),
            c.bytes() == b,
            start <= c.pos,
            fields.deep_view() == acc,
            s_fields(b, start, fields_count as nat, Seq::empty(), pool)
                == s_fields(b, c.pos as int, (fields_count - k) as nat, acc, pool),
        decreases fields_count - k,
    {
        match decode_field(c, constant_pool) {
            Err(e) => {
                return Err(e);
            },
            Ok(f) => {
                let ghost old_dv = fields.deep_view();
                fields.push(f);
                proof {
                    acc = acc.push(f.deep_view());
                    assert(fields.deep_view() =~= old_dv.push(f.deep_view()));
                }
                k = k + 1;
            },
        }
    }
    Ok(fields)
}

} // verus!
