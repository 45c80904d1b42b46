//! Annotations and their element values. An element value is recursively
//! typed: a constant index, an enum constant, a class literal, a nested
//! annotation, or an array of element values. Annotation structures are
//! self-delimiting through their own counts, so no byte-length bookkeeping
//! is needed here.

use vstd::prelude::*;

verus! {

use crate::cursor::{be16, ByteCursor};
use crate::error::DecodeError;

/// Element-value tag bytes (the ASCII characters of the tag grammar).
pub const TAG_BYTE: u8 = 66; // 'B'
pub const TAG_CHAR: u8 = 67; // 'C'
pub const TAG_DOUBLE: u8 = 68; // 'D'
pub const TAG_FLOAT: u8 = 70; // 'F'
pub const TAG_INT: u8 = 73; // 'I'
pub const TAG_LONG: u8 = 74; // 'J'
pub const TAG_SHORT: u8 = 83; // 'S'
pub const TAG_BOOLEAN: u8 = 90; // 'Z'
pub const TAG_STRING: u8 = 115; // 's'
pub const TAG_ENUM: u8 = 101; // 'e'
pub const TAG_CLASS: u8 = 99; // 'c'
pub const TAG_ANNOTATION: u8 = 64; // '@'
pub const TAG_ARRAY: u8 = 91; // '['

#[derive(Debug, PartialEq, Eq)]
pub struct Annotation {
    pub type_index: u16,
    pub num_element_value_pairs: u16,
    pub element_value_pairs: Vec<ElementValuePair>,
}

#[derive(Debug, PartialEq, Eq)]
pub struct ElementValuePair {
    pub element_name_index: u16,
    pub value: ElementValue,
}

#[derive(Debug, PartialEq, Eq)]
pub struct ElementValue {
    pub tag: u8,
    pub value: ElementValueEnum,
}

#[derive(Debug, PartialEq, Eq)]
pub enum ElementValueEnum {
    ConstantValueIndex(ConstValueElement),
    EnumConstValue(EnumConstValueElement),
    ClassInfoIndex(ClassInfoIndexElement),
    AnnotationValue(Annotation),
    ArrayValue(ArrayValueElement),
}

#[derive(Debug, Clone, Copy, PartialEq, Eq)]
pub struct ConstValueElement {
    pub const_value_index: u16,
}

#[derive(Debug, Clone, Copy, PartialEq, Eq)]
pub struct EnumConstValueElement {
    pub type_name_index: u16,
    pub const_name_index: u16,
}

#[derive(Debug, Clone, Copy, PartialEq, Eq)]
pub struct ClassInfoIndexElement {
    pub class_info_index: u16,
}

#[derive(Debug, PartialEq, Eq)]
pub struct ArrayValueElement {
    pub num_values: u16,
    pub values: Vec<ElementValue>,
}

/// The mathematical value of an `Annotation`.
pub struct SpecAnnotation {
    pub type_index: u16,
    pub num_element_value_pairs: u16,
    pub element_value_pairs: Seq<SpecElementValuePair>,
}

/// The mathematical value of an `ElementValuePair`.
pub struct SpecElementValuePair {
    pub element_name_index: u16,
    pub value: SpecElementValue,
}

/// The mathematical value of an `ElementValue`.
pub struct SpecElementValue {
    pub tag: u8,
    pub value: SpecElementValueEnum,
}

/// The mathematical value of an `ElementValueEnum`.
pub enum SpecElementValueEnum {
    ConstantValueIndex(ConstValueElement),
    EnumConstValue(EnumConstValueElement),
    ClassInfoIndex(ClassInfoIndexElement),
    AnnotationValue(SpecAnnotation),
    ArrayValue(SpecArrayValueElement),
}

/// The mathematical value of an `ArrayValueElement`.
pub struct SpecArrayValueElement {
    pub num_values: u16,
    pub values: Seq<SpecElementValue>,
}

impl DeepView for Annotation {
    type V = SpecAnnotation;

    open spec fn deep_view(&self) -> SpecAnnotation
        decreases *self,
    {
        SpecAnnotation {
            type_index: self.type_index,
            num_element_value_pairs: self.num_element_value_pairs,
            element_value_pairs: deep_view_pairs(self.element_value_pairs@),
        }
    }
}

/// The mathematical values of a sequence of element-value pairs, in order.
/// (Written by recursion on the sequence so the mutually recursive views
/// have a well-founded measure.)
pub open spec fn deep_view_pairs(s: Seq<ElementValuePair>) -> Seq<SpecElementValuePair>
    decreases s,
{
    if s.len() == 0 {
        Seq::empty()
    } else {
        deep_view_pairs(s.drop_last()).push(s.last().deep_view())
    }
}

/// The mathematical values of a sequence of element values, in order.
pub open spec fn deep_view_values(s: Seq<ElementValue>) -> Seq<SpecElementValue>
    decreases s,
{
    if s.len() == 0 {
        Seq::empty()
    } else {
        deep_view_values(s.drop_last()).push(s.last().deep_view())
    }
}

impl DeepView for ElementValuePair {
    type V = SpecElementValuePair;

    open spec fn deep_view(&self) -> SpecElementValuePair
        decreases *self,
    {
        SpecElementValuePair {
            element_name_index: self.element_name_index,
            value: self.value.deep_view(),
        }
    }
}

impl DeepView for ElementValue {
    type V = SpecElementValue;

    open spec fn deep_view(&self) -> SpecElementValue
        decreases *self,
    {
        SpecElementValue { tag: self.tag, value: self.value.deep_view() }
    }
}

impl DeepView for ElementValueEnum {
    type V = SpecElementValueEnum;

    open spec fn deep_view(&self) -> SpecElementValueEnum
        decreases *self,
    {
        match *self {
            ElementValueEnum::ConstantValueIndex(x) => SpecElementValueEnum::ConstantValueIndex(x),
            ElementValueEnum::EnumConstValue(x) => SpecElementValueEnum::EnumConstValue(x),
            ElementValueEnum::ClassInfoIndex(x) => SpecElementValueEnum::ClassInfoIndex(x),
            ElementValueEnum::AnnotationValue(a) => SpecElementValueEnum::AnnotationValue(
                a.deep_view(),
            ),
            ElementValueEnum::ArrayValue(a) => SpecElementValueEnum::ArrayValue(a.deep_view()),
        }
    }
}

impl DeepView for ArrayValueElement {
    type V = SpecArrayValueElement;

    open spec fn deep_view(&self) -> SpecArrayValueElement
        decreases *self,
    {
        SpecArrayValueElement {
            num_values: self.num_values,
            values: deep_view_values(self.values@),
        }
    }
}

/// Whether `tag` declares a primitive or string constant element value.
pub open spec fn is_const_value_tag(tag: u8) -> bool {
    tag == TAG_STRING || tag == TAG_BYTE || tag == TAG_CHAR || tag == TAG_DOUBLE
        || tag == TAG_FLOAT || tag == TAG_INT || tag == TAG_LONG || tag == TAG_SHORT
        || tag == TAG_BOOLEAN
}

/// Specification-level parse of one element value at `pos`: a 1-byte tag,
/// then the payload the tag grammar implies.
pub open spec fn s_element_value(b: Seq<u8>, pos: int) -> Result<(SpecElementValue, int), DecodeError>
    decreases b.len() - pos, 0int, 0nat,
{
    if pos + 1 > b.len() {
        Err(DecodeError::Truncated)
    } else {
        let tag = b[pos];
        let p = pos + 1;
        if is_const_value_tag(tag) {
            if p + 2 <= b.len() {
                Ok((
                    SpecElementValue {
                        tag,
                        value: SpecElementValueEnum::ConstantValueIndex(
                            ConstValueElement { const_value_index: be16(b, p) },
                        ),
                    },
                    p + 2,
                ))
            } else {
                Err(DecodeError::Truncated)
            }
        } else if tag == TAG_ENUM {
            if p + 4 <= b.len() {
                Ok((
                    SpecElementValue {
                        tag,
                        value: SpecElementValueEnum::EnumConstValue(
                            EnumConstValueElement {
                                type_name_index: be16(b, p),
                                const_name_index: be16(b, p + 2),
                            },
                        ),
                    },
                    p + 4,
                ))
            } else {
                Err(DecodeError::Truncated)
            }
        } else if tag == TAG_CLASS {
            if p + 2 <= b.len() {
                Ok((
                    SpecElementValue {
                        tag,
                        value: SpecElementValueEnum::ClassInfoIndex(
                            ClassInfoIndexElement { class_info_index: be16(b, p) },
                        ),
                    },
                    p + 2,
                ))
            } else {
                Err(DecodeError::Truncated)
            }
        } else if tag == TAG_ANNOTATION {
            match s_annotation(b, p) {
                Err(e) => Err(e),
                Ok((a, p2)) => Ok((
                    SpecElementValue { tag, value: SpecElementValueEnum::AnnotationValue(a) },
                    p2,
                )),
            }
        } else if tag == TAG_ARRAY {
            if p + 2 <= b.len() {
                let n = be16(b, p);
                match s_element_values(b, p + 2, n as nat, Seq::empty()) {
                    Err(e) => Err(e),
                    Ok((vs, p2)) => Ok((
                        SpecElementValue {
                            tag,
                            value: SpecElementValueEnum::ArrayValue(
                                SpecArrayValueElement { num_values: n, values: vs },
                            ),
                        },
                        p2,
                    )),
                }
            } else {
                Err(DecodeError::Truncated)
            }
        } else {
            Err(DecodeError::InvalidAnnotationTag(tag))
        }
    }
}

/// Specification-level parse of `n` consecutive element values (an array
/// payload), appended to `acc` in order.
pub open spec fn s_element_values(b: Seq<u8>, pos: int, n: nat, acc: Seq<SpecElementValue>)
    -> Result<(Seq<SpecElementValue>, int), DecodeError>
    decreases b.len() - pos, 2int, n,
{
    if n == 0 {
        Ok((acc, pos))
    } else {
        match s_element_value(b, pos) {
            Err(e) => Err(e),
            Ok((v, p2)) => if pos < p2 && p2 <= b.len() {
                s_element_values(b, p2, (n - 1) as nat, acc.push(v))
            } else {
                // a parsed element always ends past its start and within the
                // buffer, so this branch is never reached
                Err(DecodeError::Truncated)
            },
        }
    }
}

/// Specification-level parse of `n` consecutive element-value pairs of an
/// annotation, appended to `acc` in order.
pub open spec fn s_element_value_pairs(b: Seq<u8>, pos: int, n: nat, acc: Seq<SpecElementValuePair>)
    -> Result<(Seq<SpecElementValuePair>, int), DecodeError>
    decreases b.len() - pos, 2int, n,
{
    if n == 0 {
        Ok((acc, pos))
    } else if pos + 2 > b.len() {
        Err(DecodeError::Truncated)
    } else {
        let name = be16(b, pos);
        match s_element_value(b, pos + 2) {
            Err(e) => Err(e),
            Ok((v, p2)) => if pos < p2 && p2 <= b.len() {
                s_element_value_pairs(
                    b,
                    p2,
                    (n - 1) as nat,
                    acc.push(SpecElementValuePair { element_name_index: name, value: v }),
                )
            } else {
                // a parsed element always ends past its start and within the
                // buffer, so this branch is never reached
                Err(DecodeError::Truncated)
            },
        }
    }
}

/// Specification-level parse of one annotation at `pos`: a type index, a
/// pair count, then that many element-value pairs.
pub open spec fn s_annotation(b: Seq<u8>, pos: int) -> Result<(SpecAnnotation, int), DecodeError>
    decreases b.len() - pos, 1int, 0nat,
{
    if pos + 4 > b.len() {
        Err(DecodeError::Truncated)
    } else {
        let type_index = be16(b, pos);
        let n = be16(b, pos + 2);
        match s_element_value_pairs(b, pos + 4, n as nat, Seq::empty()) {
            Err(e) => Err(e),
            Ok((ps, p2)) => Ok((
                SpecAnnotation {
                    type_index,
                    num_element_value_pairs: n,
                    element_value_pairs: ps,
                },
                p2,
            )),
        }
    }
}

/// Specification-level parse of `n` consecutive annotations, appended to
/// `acc` in order.
pub open spec fn s_annotations(b: Seq<u8>, pos: int, n: nat, acc: Seq<SpecAnnotation>)
    -> Result<(Seq<SpecAnnotation>, int), DecodeError>
    decreases b.len() - pos, 3int, n,
{
    if n == 0 {
        Ok((acc, pos))
    } else {
        match s_annotation(b, pos) {
            Err(e) => Err(e),
            Ok((a, p2)) => if pos < p2 && p2 <= b.len() {
                s_annotations(b, p2, (n - 1) as nat, acc.push(a))
            } else {
                // a parsed annotation always ends past its start and within
                // the buffer, so this branch is never reached
                Err(DecodeError::Truncated)
            },
        }
    }
}

/// Decode one element value at the cursor: a 1-byte tag and the payload its
/// grammar implies, recursing for nested annotations and arrays.
#[verifier::loop_isolation(false)]
pub fn decode_element_value(c: &mut ByteCursor) -> (r: Result<ElementValue, DecodeError>)
    requires
        old(c).wf(),
    ensures
        final(c).wf(),
        final(c).bytes() == old(c).bytes(),
        old(c).pos <= final(c).pos,
        (match r {
            Ok(v) => s_element_value(old(c).bytes(), old(c).pos as int)
                == Ok::<_, DecodeError>((v.deep_view(), final(c).pos as int))
                && old(c).pos < final(c).pos,
            Err(e) => s_element_value(old(c).bytes(), old(c).pos as int)
                == Err::<(SpecElementValue, int), _>(e),
        }),
    decreases old(c).bytes().len() - old(c).pos, 0int,
{
    let ghost b = c.bytes();
    let ghost entry = c.pos as int;
    let tag = c.read_u8()?;
    if tag == TAG_STRING || tag == TAG_BYTE || tag == TAG_CHAR || tag == TAG_DOUBLE
        || tag == TAG_FLOAT || tag == TAG_INT || tag == TAG_LONG || tag == TAG_SHORT
        || tag == TAG_BOOLEAN {
        let const_value_index = c.read_u16()?;
        Ok(ElementValue {
            tag,
            value: ElementValueEnum::ConstantValueIndex(ConstValueElement { const_value_index }),
        })
    } else if tag == TAG_ENUM {
        let type_name_index = c.read_u16()?;
        let const_name_index = c.read_u16()?;
        Ok(ElementValue {
            tag,
            value: ElementValueEnum::EnumConstValue(
                EnumConstValueElement { type_name_index, const_name_index },
            ),
        })
    } else if tag == TAG_CLASS {
        let class_info_index = c.read_u16()?;
        Ok(ElementValue {
            tag,
            value: ElementValueEnum::ClassInfoIndex(ClassInfoIndexElement { class_info_index }),
        })
    } else if tag == TAG_ANNOTATION {
        match decode_annotation(c) {
            Err(e) => Err(e),
            Ok(a) => Ok(ElementValue { tag, value: ElementValueEnum::AnnotationValue(a) }),
        }
    } else if tag == TAG_ARRAY {
        let num_values = c.read_u16()?;
        let ghost list_start = c.pos as int;
        let mut values: Vec<ElementValue> = Vec::new();
        let ghost mut acc: Seq<SpecElementValue> = Seq::empty();
        let mut k: u16 = 0;
        proof {
            assert(deep_view_values(values@) == acc);
        }
        while k < num_values
            invariant
                k <= num_values,
                c.wf(),
                c.bytes() == b,
                entry + 3 <= c.pos,
                deep_view_values(values@) == acc,
                s_element_values(b, list_start, num_values as nat, Seq::empty())
                    == s_element_values(b, c.pos as int, (num_values - k) as nat, acc),
            decreases num_values - k,
        {
            match decode_element_value(c) {
                Err(e) => {
                    return Err(e);
                },
                Ok(v) => {
                    let ghost old_seq = values@;
                    values.push(v);
                    proof {
                        acc = acc.push(v.deep_view());
                        assert(values@.drop_last() =~= old_seq);
                        assert(deep_view_values(values@) == acc);
                    }
                    k = k + 1;
                },
            }
        }
        Ok(ElementValue {
            tag,
            value: ElementValueEnum::ArrayValue(ArrayValueElement { num_values, values }),
        })
    } else {
        Err(DecodeError::InvalidAnnotationTag(tag))
    }
}

/// Decode one annotation at the cursor: a type index, a pair count, then
/// that many element-value pairs.
#[verifier::loop_isolation(false)]
pub fn decode_annotation(c: &mut ByteCursor) -> (r: Result<Annotation, DecodeError>)
    requires
        old(c).wf(),
    ensures
        final(c).wf(),
        final(c).bytes() == old(c).bytes(),
        old(c).pos <= final(c).pos,
        (match r {
            Ok(a) => s_annotation(old(c).bytes(), old(c).pos as int)
                == Ok::<_, DecodeError>((a.deep_view(), final(c).pos as int))
                && old(c).pos < final(c).pos,
            Err(e) => s_annotation(old(c).bytes(), old(c).pos as int)
                == Err::<(SpecAnnotation, int), _>(e),
        }),
    decreases old(c).bytes().len() - old(c).pos, 1int,
{
    let ghost b = c.bytes();
    let ghost entry = c.pos as int;
    let type_index = c.read_u16()?;
    let num_element_value_pairs = c.read_u16()?;
    let ghost list_start = c.pos as int;
    let mut element_value_pairs: Vec<ElementValuePair> = Vec::new();
    let ghost mut acc: Seq<SpecElementValuePair> = Seq::empty();
    let mut k: u16 = 0;
    proof {
        assert(deep_view_pairs(element_value_pairs@) == acc);
    }
    while k < num_element_value_pairs
        invariant
            k <= num_element_value_pairs,
            c.wf(),
            c.bytes() == b,
            entry + 4 <= c.pos,
            deep_view_pairs(element_value_pairs@) == acc,
            s_element_value_pairs(b, list_start, num_element_value_pairs as nat, Seq::empty())
                == s_element_value_pairs(
                    b,
                    c.pos as int,
                    (num_element_value_pairs - k) as nat,
                    acc,
                ),
        decreases num_element_value_pairs - k,
    {
        let element_name_index = c.read_u16()?;
        match decode_element_value(c) {
            Err(e) => {
                return Err(e);
            },
            Ok(v) => {
                let pair = ElementValuePair { element_name_index, value: v };
                let ghost old_seq = element_value_pairs@;
                element_value_pairs.push(pair);
                proof {
                    acc = acc.push(pair.deep_view());
                    assert(element_value_pairs@.drop_last() =~= old_seq);
                    assert(deep_view_pairs(element_value_pairs@) == acc);
                }
                k = k + 1;
            },
        }
    }
    Ok(Annotation { type_index, num_element_value_pairs, element_value_pairs })
}

/// Decode `n` consecutive annotations at the cursor.
#[verifier::loop_isolation(false)]
pub fn decode_annotations(c: &mut ByteCursor, n: u16) -> (r: Result<Vec<Annotation>, DecodeError>)
    requires
        old(c).wf(),
    ensures
        final(c).wf(),
        final(c).bytes() == old(c).bytes(),
        old(c).pos <= final(c).pos,
        (match r {
            Ok(v) => s_annotations(old(c).bytes(), old(c).pos as int, n as nat, Seq::empty())
                == Ok::<_, DecodeError>((v.deep_view(), final(c).pos as int)),
            Err(e) => s_annotations(old(c).bytes(), old(c).pos as int, n as nat, Seq::empty())
                == Err::<(Seq<SpecAnnotation>, int), _>(e),
        }),
{
    let ghost b = c.bytes();
    let ghost list_start = c.pos as int;
    let mut annotations: Vec<Annotation> = Vec::new();
    let ghost mut acc: Seq<SpecAnnotation> = Seq::empty();
    let mut k: u16 = 0;
    proof {
        assert(annotations.deep_view() =~= acc);
    }
    while k < n
        invariant
            k <= n,
            c.wf(),
            c.bytes() == b,
            list_start <= c.pos,
            annotations.deep_view() == acc,
            s_annotations(b, list_start, n as nat, Seq::empty())
                == s_annotations(b, c.pos as int, (n - k) as nat, acc),
        decreases n - k,
    {
        match decode_annotation(c) {
            Err(e) => {
                return Err(e);
            },
            Ok(a) => {
                let ghost old_dv = annotations.deep_view();
                annotations.push(a);
                proof {
                    acc = acc.push(a.deep_view());
                    assert(annotations.deep_view() =~= old_dv.push(a.deep_view()));
                }
                k = k + 1;
            },
        }
    }
    Ok(annotations)
}

} // verus!
