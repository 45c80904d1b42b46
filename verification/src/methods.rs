//! The method section: a count-prefixed list of method records, each with
//! access flags, name and descriptor pool indices, and its own attribute
//! table (a method body arrives as a `Code` attribute). Name and descriptor
//! indices must resolve to Utf8 pool records.

use vstd::prelude::*;

verus! {

use crate::attributes::{
    deep_view_attributes, generate_attributes, s_attributes, AttributeType, SpecAttributeType,
};
use crate::constant_pool::{lookup_utf8, s_lookup_utf8, Constant, SpecConstant};
use crate::cursor::{be16, ByteCursor};
use crate::error::DecodeError;

/// One method record.
#[derive(Debug, PartialEq, Eq)]
pub struct Method {
    pub access_flags: u16,
    pub name_index: u16,
    pub descriptor_index: u16,
    pub attributes_count: u16,
    pub attributes: Vec<AttributeType>,
}

/// The mathematical value of a `Method`.
pub struct SpecMethod {
    pub access_flags: u16,
    pub name_index: u16,
    pub descriptor_index: u16,
    pub attributes_count: u16,
    pub attributes: Seq<SpecAttributeType>,
}

impl DeepView for Method {
    type V = SpecMethod;

    open spec fn deep_view(&self) -> SpecMethod {
        SpecMethod {
            access_flags: self.access_flags,
            name_index: self.name_index,
            descriptor_index: self.descriptor_index,
            attributes_count: self.attributes_count,
            attributes: deep_view_attributes(self.attributes@),
        }
    }
}

/// Specification-level parse of one method record at `pos`: three `u16`
/// fields, the name and descriptor resolved to Utf8 pool records, then a
/// count-prefixed attribute table.
pub open spec fn s_method(b: Seq<u8>, pos: int, pool: Seq<Option<SpecConstant>>) -> Result<
    (SpecMethod, int),
    DecodeError,
> {
    if pos + 6 > b.len() {
        Err(DecodeError::Truncated)
    } else {
        let access_flags = be16(b, pos);
        let name_index = be16(b, pos + 2);
        let descriptor_index = be16(b, pos + 4);
        match s_lookup_utf8(pool, name_index as int) {
            Err(e) => Err(e),
            Ok(_) => match s_lookup_utf8(pool, descriptor_index as int) {
                Err(e) => Err(e),
                Ok(_) => if pos + 8 > b.len() {
                    Err(DecodeError::Truncated)
                } else {
                    let attributes_count = be16(b, pos + 6);
                    match s_attributes(b, pos + 8, attributes_count as nat, Seq::empty(), pool) {
                        Err(e) => Err(e),
                        Ok((ats, p2)) => Ok((
                            SpecMethod {
                                access_flags,
                                name_index,
                                descriptor_index,
                                attributes_count,
                                attributes: ats,
                            },
                            p2,
                        )),
                    }
                },
            },
        }
    }
}

/// Specification-level parse of `n` consecutive method records, appended to
/// `acc` in order.
pub open spec fn s_methods(b: Seq<u8>, pos: int, n: nat, acc: Seq<SpecMethod>, pool: Seq<Option<SpecConstant>>)
    -> Result<(Seq<SpecMethod>, int), DecodeError>
    decreases n,
{
    if n == 0 {
        Ok((acc, pos))
    } else {
        match s_method(b, pos, pool) {
            Err(e) => Err(e),
            Ok((m, p2)) => s_methods(b, p2, (n - 1) as nat, acc.push(m), pool),
        }
    }
}

/// Decode one method record at the cursor.
fn decode_method(c: &mut ByteCursor, constant_pool: &Vec<Option<Constant>>) -> (r: Result<
    Method,
    DecodeError,
>)
    requires
        old(c).wf(),
    ensures
        final(c).wf(),
        final(c).bytes() == old(c).bytes(),
        old(c).pos <= final(c).pos,
        (match r {
            Ok(v) => s_method(old(c).bytes(), old(c).pos as int, constant_pool.deep_view())
                == Ok::<_, DecodeError>((v.deep_view(), final(c).pos as int)),
            Err(e) => s_method(old(c).bytes(), old(c).pos as int, constant_pool.deep_view())
                == Err::<(SpecMethod, int), _>(e),
        }),
{
    let access_flags = c.read_u16()?;
    let name_index = c.read_u16()?;
    let descriptor_index = c.read_u16()?;
    match lookup_utf8(constant_pool, name_index) {
        Err(e) => {
            return Err(e);
        },
        Ok(_) => {},
    }
    match lookup_utf8(constant_pool, descriptor_index) {
        Err(e) => {
            return Err(e);
        },
        Ok(_) => {},
    }
    let attributes_count = c.read_u16()?;
    let attributes = match generate_attributes(attributes_count, constant_pool, c) {
        Err(e) => {
            return Err(e);
        },
        Ok(v) => v,
    };
    Ok(Method { access_flags, name_index, descriptor_index, attributes_count, attributes })
}

/// Decode `methods_count` consecutive method records at the cursor.
#[verifier::loop_isolation(false)]
pub fn generate_methods(methods_count: u16, constant_pool: &Vec<Option<Constant>>, c: &mut ByteCursor)
    -> (r: Result<Vec<Method>, DecodeError>)
    requires
        old(c).wf(),
    ensures
        final(c).wf(),
        final(c).bytes() == old(c).bytes(),
        old(c).pos <= final(c).pos,
        (match r {
            Ok(v) => s_methods(old(c).bytes(), old(c).pos as int, methods_count as nat, Seq::empty(), constant_pool.deep_view())
                == Ok::<_, DecodeError>((v.deep_view(), final(c).pos as int)),
            Err(e) => s_methods(old(c).bytes(), old(c).pos as int, methods_count as nat, Seq::empty(), constant_pool.deep_view())
                == Err::<(Seq<SpecMethod>, int), _>(e),
        }),
{
    let ghost b = c.bytes();
    let ghost start = c.pos as int;
    let ghost pool = constant_pool.deep_view();
    let mut methods: Vec<Method> = Vec::new();
    let ghost mut acc: Seq<SpecMethod> = Seq::empty();
    let mut k: u16 = 0;
    proof {
        assert(methods.deep_view() =~= acc);
    }
    while k < methods_count
        invariant
            k <= methods_count,
            c.wf(),
            c.bytes() == b,
            start <= c.pos,
            methods.deep_view() == acc,
            s_methods(b, start, methods_count as nat, Seq::empty(), pool)
                == s_methods(b, c.pos as int, (methods_count - k) as nat, acc, pool),
        decreases methods_count - k,
    {
        match decode_method(c, constant_pool) {
            Err(e) => {
                return Err(e);
            },
            Ok(m) => {
                let ghost old_dv = methods.deep_view();
                methods.push(m);
                proof {
                    acc = acc.push(m.deep_view());
                    assert(methods.deep_view() =~= old_dv.push(m.deep_view()));
                }
                k = k + 1;
            },
        }
    }
    Ok(methods)
}

} // verus!
