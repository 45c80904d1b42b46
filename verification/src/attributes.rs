//! The attribute decoder. One attribute-table entry is a `u16` name index, a
//! `u32` declared byte length, and a body. The name is resolved through the
//! constant pool; recognized kinds are decoded structurally (the `Code` kind
//! recursively contains a nested attribute table), and every other name is
//! captured as an opaque blob of exactly the declared length. For every
//! decoded entry, recognized or opaque, the bytes consumed by the body must
//! equal the declared length; a structured body of any other size fails with
//! `AttributeLengthMismatch`.

use vstd::prelude::*;

verus! {

use crate::annotations::{s_annotations, decode_annotations, Annotation, SpecAnnotation};
use crate::constant_pool::{s_lookup_utf8, lookup_utf8, Constant, SpecConstant};
use crate::cursor::{be16, be32, s_u16s, ByteCursor};
use crate::error::DecodeError;

#[derive(Debug, Clone, PartialEq, Eq)]
pub struct AttributeBootstrapMethods {
    pub attribute_name_index: u16,
    pub attribute_length: u32,
    pub num_bootstrap_methods: u16,
    pub bootstrap_methods: Vec<BootstrapMethodElement>,
}

#[derive(Debug, Clone, PartialEq, Eq)]
pub struct BootstrapMethodElement {
    pub bootstrap_method_ref: u16,
    pub num_bootstrap_arguments: u16,
    pub bootstrap_arguments: Vec<u16>,
}

#[derive(Debug, Clone, Copy, PartialEq, Eq)]
pub struct AttributeSourceFile {
    pub attribute_name_index: u16,
    pub attribute_length: u32,
    pub sourcefile_index: u16,
}

/// A named attribute table kept as one aggregate.
#[derive(Debug, PartialEq, Eq)]
pub struct Attribute {
    pub attribute_name_index: u16,
    pub attribute_length: u32,
    pub info: Vec<AttributeType>,
}

/// One decoded attribute-table entry, keyed by the attribute's resolved
/// name. Kinds whose full decoding is deferred, and names outside the
/// registry, are captured by the `Opaque` variant.
#[derive(Debug, PartialEq, Eq)]
pub enum AttributeType {
    ConstantValue(AttributeConstantValue),
    Code(AttributeCode),
    Exceptions(AttributeExceptions),
    InnerClasses(AttributeInnerClasses),
    EnclosingMethods(AttributeEnclosingMethod),
    Synthetic(AttributeSynthetic),
    Signature(AttributeSignature),
    SourceFile(AttributeSourceFile),
    SourceDebugExtension,
    LineNumberTable(AttributeLineNumberTable),
    LocalVariableTable,
    LocalVariableTypeTable,
    Deprecated(AttributeDeprecated),
    RuntimeVisibleAnnotations(AttributeRuntimeVisibleAnnotations),
    RuntimeInvisibleAnnotations,
    RuntimeVisibleParameterAnnotations,
    RuntimeInvisibleParameterAnnotations,
    AnnotationDefault,
    BootstrapMethods(AttributeBootstrapMethods),
    Opaque(AttributeOpaque),
}

#[derive(Debug, Clone, PartialEq, Eq)]
pub struct AttributeLineNumberTable {
    pub attribute_name_index: u16,
    pub attribute_length: u32,
    pub line_number_table_length: u16,
    pub line_number_table: Vec<LineNumberTable_Element>,
}

#[allow(non_camel_case_types)]
#[derive(Debug, Clone, Copy, PartialEq, Eq)]
pub struct LineNumberTable_Element {
    pub start_pc: u16,
    pub line_number: u16,
}

#[derive(Debug, Clone, Copy, PartialEq, Eq)]
pub struct AttributeDeprecated {
    pub attribute_name_index: u16,
    pub attribute_length: u32,
}

#[derive(Debug, Clone, Copy, PartialEq, Eq)]
pub struct AttributeSignature {
    pub attribute_name_index: u16,
    pub attribute_length: u32,
    pub signature_index: u16,
}

#[derive(Debug, Clone, Copy, PartialEq, Eq)]
pub struct AttributeConstantValue {
    pub attribute_name_index: u16,
    pub attribute_length: u32,
    pub constantvalue_index: u16,
}

/// A method body: raw instruction bytes, an exception table, and a nested
/// attribute table of its own.
#[derive(Debug, PartialEq, Eq)]
pub struct AttributeCode {
    pub attribute_name_index: u16,
    pub attribute_length: u32,
    pub max_stack: u16,
    pub max_locals: u16,
    pub code_length: u32,
    pub code: Vec<u8>,
    pub exception_table_length: u16,
    pub exception_table: Vec<ExceptionTableEntry>,
    pub attributes_count: u16,
    pub attribute_info: Vec<AttributeType>,
}

/// `catch_type` is either 0 (catch-all) or a constant-pool `Class` index.
#[derive(Debug, Clone, Copy, PartialEq, Eq)]
pub struct ExceptionTableEntry {
    pub start_pc: u16,
    pub end_pc: u16,
    pub handler_pc: u16,
    pub catch_type: u16,
}

#[derive(Debug, Clone, PartialEq, Eq)]
pub struct AttributeExceptions {
    pub attribute_name_index: u16,
    pub attribute_length: u32,
    pub number_of_exceptions: u16,
    pub exception_index_table: Vec<u16>,
}

#[derive(Debug, Clone, PartialEq, Eq)]
pub struct AttributeInnerClasses {
    pub attribute_name_index: u16,
    pub attribute_length: u32,
    pub number_of_classes: u16,
    pub classes: Vec<InnerClass>,
}

#[derive(Debug, Clone, Copy, PartialEq, Eq)]
pub struct InnerClass {
    pub inner_class_info_index: u16,
    pub outer_class_info_index: u16,
    pub inner_name_index: u16,
    pub inner_class_access_flags: u16,
}

#[derive(Debug, Clone, Copy, PartialEq, Eq)]
pub struct AttributeEnclosingMethod {
    pub attribute_name_index: u16,
    pub attribute_length: u32,
    pub class_index: u16,
    pub method_index: u16,
}

#[derive(Debug, Clone, Copy, PartialEq, Eq)]
pub struct AttributeSynthetic {
    pub attribute_name_index: u16,
    pub attribute_length: u32,
}

#[derive(Debug, PartialEq, Eq)]
pub struct AttributeRuntimeVisibleAnnotations {
    pub attribute_name_index: u16,
    pub attribute_length: u32,
    pub num_annotations: u16,
    pub annotations: Vec<Annotation>,
}

/// An attribute whose name is not specifically interpreted, retained as the
/// raw bytes of its declared length.
#[derive(Debug, Clone, PartialEq, Eq)]
pub struct AttributeOpaque {
    pub attribute_name_index: u16,
    pub attribute_length: u32,
    pub raw_bytes: Vec<u8>,
}

/// The mathematical value of an `AttributeType`.
pub enum SpecAttributeType {
    ConstantValue(AttributeConstantValue),
    Code(SpecAttributeCode),
    Exceptions(SpecAttributeExceptions),
    InnerClasses(SpecAttributeInnerClasses),
    EnclosingMethods(AttributeEnclosingMethod),
    Synthetic(AttributeSynthetic),
    Signature(AttributeSignature),
    SourceFile(AttributeSourceFile),
    SourceDebugExtension,
    LineNumberTable(SpecAttributeLineNumberTable),
    LocalVariableTable,
    LocalVariableTypeTable,
    Deprecated(AttributeDeprecated),
    RuntimeVisibleAnnotations(SpecAttributeRuntimeVisibleAnnotations),
    RuntimeInvisibleAnnotations,
    RuntimeVisibleParameterAnnotations,
    RuntimeInvisibleParameterAnnotations,
    AnnotationDefault,
    BootstrapMethods(SpecAttributeBootstrapMethods),
    Opaque(SpecAttributeOpaque),
}

/// The mathematical value of an `AttributeCode`.
pub struct SpecAttributeCode {
    pub attribute_name_index: u16,
    pub attribute_length: u32,
    pub max_stack: u16,
    pub max_locals: u16,
    pub code_length: u32,
    pub code: Seq<u8>,
    pub exception_table_length: u16,
    pub exception_table: Seq<ExceptionTableEntry>,
    pub attributes_count: u16,
    pub attribute_info: Seq<SpecAttributeType>,
}

/// The mathematical value of an `AttributeExceptions`.
pub struct SpecAttributeExceptions {
    pub attribute_name_index: u16,
    pub attribute_length: u32,
    pub number_of_exceptions: u16,
    pub exception_index_table: Seq<u16>,
}

/// The mathematical value of an `AttributeInnerClasses`.
pub struct SpecAttributeInnerClasses {
    pub attribute_name_index: u16,
    pub attribute_length: u32,
    pub number_of_classes: u16,
    pub classes: Seq<InnerClass>,
}

/// The mathematical value of an `AttributeLineNumberTable`.
pub struct SpecAttributeLineNumberTable {
    pub attribute_name_index: u16,
    pub attribute_length: u32,
    pub line_number_table_length: u16,
    pub line_number_table: Seq<LineNumberTable_Element>,
}

/// The mathematical value of an `AttributeRuntimeVisibleAnnotations`.
pub struct SpecAttributeRuntimeVisibleAnnotations {
    pub attribute_name_index: u16,
    pub attribute_length: u32,
    pub num_annotations: u16,
    pub annotations: Seq<SpecAnnotation>,
}

/// The mathematical value of an `AttributeBootstrapMethods`.
pub struct SpecAttributeBootstrapMethods {
    pub attribute_name_index: u16,
    pub attribute_length: u32,
    pub num_bootstrap_methods: u16,
    pub bootstrap_methods: Seq<SpecBootstrapMethodElement>,
}

/// The mathematical value of a `BootstrapMethodElement`.
pub struct SpecBootstrapMethodElement {
    pub bootstrap_method_ref: u16,
    pub num_bootstrap_arguments: u16,
    pub bootstrap_arguments: Seq<u16>,
}

/// The mathematical value of an `AttributeOpaque`.
pub struct SpecAttributeOpaque {
    pub attribute_name_index: u16,
    pub attribute_length: u32,
    pub raw_bytes: Seq<u8>,
}

impl DeepView for BootstrapMethodElement {
    type V = SpecBootstrapMethodElement;

    open spec fn deep_view(&self) -> SpecBootstrapMethodElement {
        SpecBootstrapMethodElement {
            bootstrap_method_ref: self.bootstrap_method_ref,
            num_bootstrap_arguments: self.num_bootstrap_arguments,
            bootstrap_arguments: self.bootstrap_arguments@,
        }
    }
}

impl DeepView for AttributeBootstrapMethods {
    type V = SpecAttributeBootstrapMethods;

    open spec fn deep_view(&self) -> SpecAttributeBootstrapMethods {
        SpecAttributeBootstrapMethods {
            attribute_name_index: self.attribute_name_index,
            attribute_length: self.attribute_length,
            num_bootstrap_methods: self.num_bootstrap_methods,
            bootstrap_methods: self.bootstrap_methods.deep_view(),
        }
    }
}

impl DeepView for AttributeExceptions {
    type V = SpecAttributeExceptions;

    open spec fn deep_view(&self) -> SpecAttributeExceptions {
        SpecAttributeExceptions {
            attribute_name_index: self.attribute_name_index,
            attribute_length: self.attribute_length,
            number_of_exceptions: self.number_of_exceptions,
            exception_index_table: self.exception_index_table@,
        }
    }
}

impl DeepView for AttributeInnerClasses {
    type V = SpecAttributeInnerClasses;

    open spec fn deep_view(&self) -> SpecAttributeInnerClasses {
        SpecAttributeInnerClasses {
            attribute_name_index: self.attribute_name_index,
            attribute_length: self.attribute_length,
            number_of_classes: self.number_of_classes,
            classes: self.classes@,
        }
    }
}

impl DeepView for AttributeLineNumberTable {
    type V = SpecAttributeLineNumberTable;

    open spec fn deep_view(&self) -> SpecAttributeLineNumberTable {
        SpecAttributeLineNumberTable {
            attribute_name_index: self.attribute_name_index,
            attribute_length: self.attribute_length,
            line_number_table_length: self.line_number_table_length,
            line_number_table: self.line_number_table@,
        }
    }
}

impl DeepView for AttributeRuntimeVisibleAnnotations {
    type V = SpecAttributeRuntimeVisibleAnnotations;

    open spec fn deep_view(&self) -> SpecAttributeRuntimeVisibleAnnotations {
        SpecAttributeRuntimeVisibleAnnotations {
            attribute_name_index: self.attribute_name_index,
            attribute_length: self.attribute_length,
            num_annotations: self.num_annotations,
            annotations: self.annotations.deep_view(),
        }
    }
}

impl DeepView for AttributeOpaque {
    type V = SpecAttributeOpaque;

    open spec fn deep_view(&self) -> SpecAttributeOpaque {
        SpecAttributeOpaque {
            attribute_name_index: self.attribute_name_index,
            attribute_length: self.attribute_length,
            raw_bytes: self.raw_bytes@,
        }
    }
}

impl DeepView for AttributeType {
    type V = SpecAttributeType;

    open spec fn deep_view(&self) -> SpecAttributeType
        decreases *self,
    {
        match *self {
            AttributeType::ConstantValue(a) => SpecAttributeType::ConstantValue(a),
            AttributeType::Code(a) => SpecAttributeType::Code(a.deep_view()),
            AttributeType::Exceptions(a) => SpecAttributeType::Exceptions(a.deep_view()),
            AttributeType::InnerClasses(a) => SpecAttributeType::InnerClasses(a.deep_view()),
            AttributeType::EnclosingMethods(a) => SpecAttributeType::EnclosingMethods(a),
            AttributeType::Synthetic(a) => SpecAttributeType::Synthetic(a),
            AttributeType::Signature(a) => SpecAttributeType::Signature(a),
            AttributeType::SourceFile(a) => SpecAttributeType::SourceFile(a),
            AttributeType::SourceDebugExtension => SpecAttributeType::SourceDebugExtension,
            AttributeType::LineNumberTable(a) => SpecAttributeType::LineNumberTable(a.deep_view()),
            AttributeType::LocalVariableTable => SpecAttributeType::LocalVariableTable,
            AttributeType::LocalVariableTypeTable => SpecAttributeType::LocalVariableTypeTable,
            AttributeType::Deprecated(a) => SpecAttributeType::Deprecated(a),
            AttributeType::RuntimeVisibleAnnotations(a) => {
                SpecAttributeType::RuntimeVisibleAnnotations(a.deep_view())
            },
            AttributeType::RuntimeInvisibleAnnotations => {
                SpecAttributeType::RuntimeInvisibleAnnotations
            },
            AttributeType::RuntimeVisibleParameterAnnotations => {
                SpecAttributeType::RuntimeVisibleParameterAnnotations
            },
            AttributeType::RuntimeInvisibleParameterAnnotations => {
                SpecAttributeType::RuntimeInvisibleParameterAnnotations
            },
            AttributeType::AnnotationDefault => SpecAttributeType::AnnotationDefault,
            AttributeType::BootstrapMethods(a) => SpecAttributeType::BootstrapMethods(a.deep_view()),
            AttributeType::Opaque(a) => SpecAttributeType::Opaque(a.deep_view()),
        }
    }
}

impl DeepView for AttributeCode {
    type V = SpecAttributeCode;

    open spec fn deep_view(&self) -> SpecAttributeCode
        decreases *self,
    {
        SpecAttributeCode {
            attribute_name_index: self.attribute_name_index,
            attribute_length: self.attribute_length,
            max_stack: self.max_stack,
            max_locals: self.max_locals,
            code_length: self.code_length,
            code: self.code@,
            exception_table_length: self.exception_table_length,
            exception_table: self.exception_table@,
            attributes_count: self.attributes_count,
            attribute_info: deep_view_attributes(self.attribute_info@),
        }
    }
}

/// The mathematical values of a sequence of attributes, in order. (Written
/// by recursion on the sequence so the mutually recursive views have a
/// well-founded measure.)
pub open spec fn deep_view_attributes(s: Seq<AttributeType>) -> Seq<SpecAttributeType>
    decreases s,
{
    if s.len() == 0 {
        Seq::empty()
    } else {
        deep_view_attributes(s.drop_last()).push(s.last().deep_view())
    }
}

/// The attribute name `"ConstantValue"` as its bytes.
pub open spec fn n_constant_value() -> Seq<u8> {
    seq![67u8, 111u8, 110u8, 115u8, 116u8, 97u8, 110u8, 116u8, 86u8, 97u8, 108u8, 117u8, 101u8]
}

fn name_constant_value() -> (r: Vec<u8>)
    ensures
        r@ == n_constant_value(),
{
    let v: Vec<u8> = vec![67u8, 111u8, 110u8, 115u8, 116u8, 97u8, 110u8, 116u8, 86u8, 97u8, 108u8, 117u8, 101u8];
    proof {
        assert(v@ =~= n_constant_value());
    }
    v
}

/// The attribute name `"Code"` as its bytes.
pub open spec fn n_code() -> Seq<u8> {
    seq![67u8, 111u8, 100u8, 101u8]
}

fn name_code() -> (r: Vec<u8>)
    ensures
        r@ == n_code(),
{
    let v: Vec<u8> = vec![67u8, 111u8, 100u8, 101u8];
    proof {
        assert(v@ =~= n_code());
    }
    v
}

/// The attribute name `"InnerClasses"` as its bytes.
pub open spec fn n_inner_classes() -> Seq<u8> {
    seq![73u8, 110u8, 110u8, 101u8, 114u8, 67u8, 108u8, 97u8, 115u8, 115u8, 101u8, 115u8]
}

fn name_inner_classes() -> (r: Vec<u8>)
    ensures
        r@ == n_inner_classes(),
{
    let v: Vec<u8> = vec![73u8, 110u8, 110u8, 101u8, 114u8, 67u8, 108u8, 97u8, 115u8, 115u8, 101u8, 115u8];
    proof {
        assert(v@ =~= n_inner_classes());
    }
    v
}

/// The attribute name `"Synthetic"` as its bytes.
pub open spec fn n_synthetic() -> Seq<u8> {
    seq![83u8, 121u8, 110u8, 116u8, 104u8, 101u8, 116u8, 105u8, 99u8]
}

fn name_synthetic() -> (r: Vec<u8>)
    ensures
        r@ == n_synthetic(),
{
    let v: Vec<u8> = vec![83u8, 121u8, 110u8, 116u8, 104u8, 101u8, 116u8, 105u8, 99u8];
    proof {
        assert(v@ =~= n_synthetic());
    }
    v
}

/// The attribute name `"Signature"` as its bytes.
pub open spec fn n_signature() -> Seq<u8> {
    seq![83u8, 105u8, 103u8, 110u8, 97u8, 116u8, 117u8, 114u8, 101u8]
}

fn name_signature() -> (r: Vec<u8>)
    ensures
        r@ == n_signature(),
{
    let v: Vec<u8> = vec![83u8, 105u8, 103u8, 110u8, 97u8, 116u8, 117u8, 114u8, 101u8];
    proof {
        assert(v@ =~= n_signature());
    }
    v
}

/// The attribute name `"SourceFile"` as its bytes.
pub open spec fn n_source_file() -> Seq<u8> {
    seq![83u8, 111u8, 117u8, 114u8, 99u8, 101u8, 70u8, 105u8, 108u8, 101u8]
}

fn name_source_file() -> (r: Vec<u8>)
    ensures
        r@ == n_source_file(),
{
    let v: Vec<u8> = vec![83u8, 111u8, 117u8, 114u8, 99u8, 101u8, 70u8, 105u8, 108u8, 101u8];
    proof {
        assert(v@ =~= n_source_file());
    }
    v
}

/// The attribute name `"LineNumberTable"` as its bytes.
pub open spec fn n_line_number_table() -> Seq<u8> {
    seq![76u8, 105u8, 110u8, 101u8, 78u8, 117u8, 109u8, 98u8, 101u8, 114u8, 84u8, 97u8, 98u8, 108u8, 101u8]
}

fn name_line_number_table() -> (r: Vec<u8>)
    ensures
        r@ == n_line_number_table(),
{
    let v: Vec<u8> = vec![76u8, 105u8, 110u8, 101u8, 78u8, 117u8, 109u8, 98u8, 101u8, 114u8, 84u8, 97u8, 98u8, 108u8, 101u8];
    proof {
        assert(v@ =~= n_line_number_table());
    }
    v
}

/// The attribute name `"Deprecated"` as its bytes.
pub open spec fn n_deprecated() -> Seq<u8> {
    seq![68u8, 101u8, 112u8, 114u8, 101u8, 99u8, 97u8, 116u8, 101u8, 100u8]
}

fn name_deprecated() -> (r: Vec<u8>)
    ensures
        r@ == n_deprecated(),
{
    let v: Vec<u8> = vec![68u8, 101u8, 112u8, 114u8, 101u8, 99u8, 97u8, 116u8, 101u8, 100u8];
    proof {
        assert(v@ =~= n_deprecated());
    }
    v
}

/// The attribute name `"RuntimeVisibleAnnotations"` as its bytes.
pub open spec fn n_runtime_visible_annotations() -> Seq<u8> {
    seq![82u8, 117u8, 110u8, 116u8, 105u8, 109u8, 101u8, 86u8, 105u8, 115u8, 105u8, 98u8, 108u8, 101u8, 65u8, 110u8, 110u8, 111u8, 116u8, 97u8, 116u8, 105u8, 111u8, 110u8, 115u8]
}

fn name_runtime_visible_annotations() -> (r: Vec<u8>)
    ensures
        r@ == n_runtime_visible_annotations(),
{
    let v: Vec<u8> = vec![82u8, 117u8, 110u8, 116u8, 105u8, 109u8, 101u8, 86u8, 105u8, 115u8, 105u8, 98u8, 108u8, 101u8, 65u8, 110u8, 110u8, 111u8, 116u8, 97u8, 116u8, 105u8, 111u8, 110u8, 115u8];
    proof {
        assert(v@ =~= n_runtime_visible_annotations());
    }
    v
}

/// The attribute name `"BootstrapMethods"` as its bytes.
pub open spec fn n_bootstrap_methods() -> Seq<u8> {
    seq![66u8, 111u8, 111u8, 116u8, 115u8, 116u8, 114u8, 97u8, 112u8, 77u8, 101u8, 116u8, 104u8, 111u8, 100u8, 115u8]
}

fn name_bootstrap_methods() -> (r: Vec<u8>)
    ensures
        r@ == n_bootstrap_methods(),
{
    let v: Vec<u8> = vec![66u8, 111u8, 111u8, 116u8, 115u8, 116u8, 114u8, 97u8, 112u8, 77u8, 101u8, 116u8, 104u8, 111u8, 100u8, 115u8];
    proof {
        assert(v@ =~= n_bootstrap_methods());
    }
    v
}

/// Whether two byte vectors hold the same bytes.
#[verifier::loop_isolation(false)]
fn bytes_eq(a: &Vec<u8>, b: &Vec<u8>) -> (r: bool)
    ensures
        r == (a@ == b@),
{
    if a.len() != b.len() {
        return false;
    }
    let n = a.len();
    let mut i: usize = 0;
    while i < n
        invariant
            i <= n,
            n == a@.len(),
            n == b@.len(),
            forall|j: int| 0 <= j < i ==> a@[j] == b@[j],
        decreases n - i,
    {
        if a[i] != b[i] {
            return false;
        }
        i = i + 1;
    }
    proof {
        assert(a@ =~= b@);
    }
    true
}

/// Specification-level parse of a `ConstantValue` body: one pool index.
pub open spec fn s_constant_value_body(b: Seq<u8>, pos: int, name_index: u16, alen: u32)
    -> Result<(SpecAttributeType, int), DecodeError> {
    if pos + 2 > b.len() {
        Err(DecodeError::Truncated)
    } else {
        Ok((
            SpecAttributeType::ConstantValue(
                AttributeConstantValue {
                    attribute_name_index: name_index,
                    attribute_length: alen,
                    constantvalue_index: be16(b, pos),
                },
            ),
            pos + 2,
        ))
    }
}

/// Specification-level parse of a `Synthetic` body: no fields.
pub open spec fn s_synthetic_body(b: Seq<u8>, pos: int, name_index: u16, alen: u32)
    -> Result<(SpecAttributeType, int), DecodeError> {
    Ok((
        SpecAttributeType::Synthetic(
            AttributeSynthetic { attribute_name_index: name_index, attribute_length: alen },
        ),
        pos,
    ))
}

/// Specification-level parse of a `Deprecated` body: no fields.
pub open spec fn s_deprecated_body(b: Seq<u8>, pos: int, name_index: u16, alen: u32)
    -> Result<(SpecAttributeType, int), DecodeError> {
    Ok((
        SpecAttributeType::Deprecated(
            AttributeDeprecated { attribute_name_index: name_index, attribute_length: alen },
        ),
        pos,
    ))
}

/// Specification-level parse of a `Signature` body: one pool index.
pub open spec fn s_signature_body(b: Seq<u8>, pos: int, name_index: u16, alen: u32)
    -> Result<(SpecAttributeType, int), DecodeError> {
    if pos + 2 > b.len() {
        Err(DecodeError::Truncated)
    } else {
        Ok((
            SpecAttributeType::Signature(
                AttributeSignature {
                    attribute_name_index: name_index,
                    attribute_length: alen,
                    signature_index: be16(b, pos),
                },
            ),
            pos + 2,
        ))
    }
}

/// Specification-level parse of a `SourceFile` body: one pool index.
pub open spec fn s_source_file_body(b: Seq<u8>, pos: int, name_index: u16, alen: u32)
    -> Result<(SpecAttributeType, int), DecodeError> {
    if pos + 2 > b.len() {
        Err(DecodeError::Truncated)
    } else {
        Ok((
            SpecAttributeType::SourceFile(
                AttributeSourceFile {
                    attribute_name_index: name_index,
                    attribute_length: alen,
                    sourcefile_index: be16(b, pos),
                },
            ),
            pos + 2,
        ))
    }
}

/// Specification-level parse of `n` line-number records, appended to `acc`.
pub open spec fn s_line_number_entries(b: Seq<u8>, pos: int, n: nat, acc: Seq<LineNumberTable_Element>)
    -> Result<(Seq<LineNumberTable_Element>, int), DecodeError>
    decreases n,
{
    if n == 0 {
        Ok((acc, pos))
    } else if pos + 4 > b.len() {
        Err(DecodeError::Truncated)
    } else {
        s_line_number_entries(
            b,
            pos + 4,
            (n - 1) as nat,
            acc.push(
                LineNumberTable_Element { start_pc: be16(b, pos), line_number: be16(b, pos + 2) },
            ),
        )
    }
}

/// Specification-level parse of a `LineNumberTable` body: a count, then
/// that many records.
pub open spec fn s_line_number_table_body(b: Seq<u8>, pos: int, name_index: u16, alen: u32)
    -> Result<(SpecAttributeType, int), DecodeError> {
    if pos + 2 > b.len() {
        Err(DecodeError::Truncated)
    } else {
        let n = be16(b, pos);
        match s_line_number_entries(b, pos + 2, n as nat, Seq::empty()) {
            Err(e) => Err(e),
            Ok((es, p2)) => Ok((
                SpecAttributeType::LineNumberTable(
                    SpecAttributeLineNumberTable {
                        attribute_name_index: name_index,
                        attribute_length: alen,
                        line_number_table_length: n,
                        line_number_table: es,
                    },
                ),
                p2,
            )),
        }
    }
}

/// Specification-level parse of `n` inner-class records, appended to `acc`.
pub open spec fn s_inner_class_entries(b: Seq<u8>, pos: int, n: nat, acc: Seq<InnerClass>)
    -> Result<(Seq<InnerClass>, int), DecodeError>
    decreases n,
{
    if n == 0 {
        Ok((acc, pos))
    } else if pos + 8 > b.len() {
        Err(DecodeError::Truncated)
    } else {
        s_inner_class_entries(
            b,
            pos + 8,
            (n - 1) as nat,
            acc.push(
                InnerClass {
                    inner_class_info_index: be16(b, pos),
                    outer_class_info_index: be16(b, pos + 2),
                    inner_name_index: be16(b, pos + 4),
                    inner_class_access_flags: be16(b, pos + 6),
                },
            ),
        )
    }
}

/// Specification-level parse of an `InnerClasses` body: a count, then that
/// many records.
pub open spec fn s_inner_classes_body(b: Seq<u8>, pos: int, name_index: u16, alen: u32)
    -> Result<(SpecAttributeType, int), DecodeError> {
    if pos + 2 > b.len() {
        Err(DecodeError::Truncated)
    } else {
        let n = be16(b, pos);
        match s_inner_class_entries(b, pos + 2, n as nat, Seq::empty()) {
            Err(e) => Err(e),
            Ok((es, p2)) => Ok((
                SpecAttributeType::InnerClasses(
                    SpecAttributeInnerClasses {
                        attribute_name_index: name_index,
                        attribute_length: alen,
                        number_of_classes: n,
                        classes: es,
                    },
                ),
                p2,
            )),
        }
    }
}

/// Specification-level parse of `n` bootstrap-method records, appended to
/// `acc`: each is a method reference, an argument count, and that many
/// argument pool indices.
pub open spec fn s_bootstrap_method_list(b: Seq<u8>, pos: int, n: nat, acc: Seq<SpecBootstrapMethodElement>)
    -> Result<(Seq<SpecBootstrapMethodElement>, int), DecodeError>
    decreases n,
{
    if n == 0 {
        Ok((acc, pos))
    } else if pos + 4 > b.len() {
        Err(DecodeError::Truncated)
    } else {
        let rf = be16(b, pos);
        let na = be16(b, pos + 2);
        match s_u16s(b, pos + 4, na as nat, Seq::empty()) {
            Err(e) => Err(e),
            Ok((args, p2)) => s_bootstrap_method_list(
                b,
                p2,
                (n - 1) as nat,
                acc.push(
                    SpecBootstrapMethodElement {
                        bootstrap_method_ref: rf,
                        num_bootstrap_arguments: na,
                        bootstrap_arguments: args,
                    },
                ),
            ),
        }
    }
}

/// Specification-level parse of a `BootstrapMethods` body: a count, then
/// that many records.
pub open spec fn s_bootstrap_methods_body(b: Seq<u8>, pos: int, name_index: u16, alen: u32)
    -> Result<(SpecAttributeType, int), DecodeError> {
    if pos + 2 > b.len() {
        Err(DecodeError::Truncated)
    } else {
        let n = be16(b, pos);
        match s_bootstrap_method_list(b, pos + 2, n as nat, Seq::empty()) {
            Err(e) => Err(e),
            Ok((ms, p2)) => Ok((
                SpecAttributeType::BootstrapMethods(
                    SpecAttributeBootstrapMethods {
                        attribute_name_index: name_index,
                        attribute_length: alen,
                        num_bootstrap_methods: n,
                        bootstrap_methods: ms,
                    },
                ),
                p2,
            )),
        }
    }
}

/// Specification-level parse of a `RuntimeVisibleAnnotations` body: a
/// count, then that many annotations.
pub open spec fn s_runtime_visible_annotations_body(b: Seq<u8>, pos: int, name_index: u16, alen: u32)
    -> Result<(SpecAttributeType, int), DecodeError> {
    if pos + 2 > b.len() {
        Err(DecodeError::Truncated)
    } else {
        let n = be16(b, pos);
        match s_annotations(b, pos + 2, n as nat, Seq::empty()) {
            Err(e) => Err(e),
            Ok((anns, p2)) => Ok((
                SpecAttributeType::RuntimeVisibleAnnotations(
                    SpecAttributeRuntimeVisibleAnnotations {
                        attribute_name_index: name_index,
                        attribute_length: alen,
                        num_annotations: n,
                        annotations: anns,
                    },
                ),
                p2,
            )),
        }
    }
}

/// Specification-level parse of an unrecognized or deferred body: exactly
/// `alen` raw bytes.
pub open spec fn s_opaque_body(b: Seq<u8>, pos: int, name_index: u16, alen: u32)
    -> Result<(SpecAttributeType, int), DecodeError> {
    if pos + alen > b.len() {
        Err(DecodeError::Truncated)
    } else {
        Ok((
            SpecAttributeType::Opaque(
                SpecAttributeOpaque {
                    attribute_name_index: name_index,
                    attribute_length: alen,
                    raw_bytes: b.subrange(pos, pos + alen),
                },
            ),
            pos + alen,
        ))
    }
}

/// Specification-level parse of `n` exception-table records, appended to
/// `acc`.
pub open spec fn s_exception_entries(b: Seq<u8>, pos: int, n: nat, acc: Seq<ExceptionTableEntry>)
    -> Result<(Seq<ExceptionTableEntry>, int), DecodeError>
    decreases n,
{
    if n == 0 {
        Ok((acc, pos))
    } else if pos + 8 > b.len() {
        Err(DecodeError::Truncated)
    } else {
        s_exception_entries(
            b,
            pos + 8,
            (n - 1) as nat,
            acc.push(
                ExceptionTableEntry {
                    start_pc: be16(b, pos),
                    end_pc: be16(b, pos + 2),
                    handler_pc: be16(b, pos + 4),
                    catch_type: be16(b, pos + 6),
                },
            ),
        )
    }
}

/// Specification-level parse of a `Code` body: stack and local sizes, the
/// raw instruction bytes, an exception table, and a nested attribute table
/// decoded by the attribute grammar itself.
pub open spec fn s_code_body(b: Seq<u8>, pos: int, name_index: u16, alen: u32, pool: Seq<Option<SpecConstant>>)
    -> Result<(SpecAttributeType, int), DecodeError>
    decreases b.len() - pos, 0int, 0nat,
{
    if pos + 8 > b.len() {
        Err(DecodeError::Truncated)
    } else {
        let max_stack = be16(b, pos);
        let max_locals = be16(b, pos + 2);
        let code_length = be32(b, pos + 4);
        let p = pos + 8;
        if p + code_length > b.len() {
            Err(DecodeError::Truncated)
        } else {
            let code = b.subrange(p, p + code_length);
            let q = p + code_length;
            if q + 2 > b.len() {
                Err(DecodeError::Truncated)
            } else {
                let etl = be16(b, q);
                match s_exception_entries(b, q + 2, etl as nat, Seq::empty()) {
                    Err(e) => Err(e),
                    Ok((et, q2)) => if q2 + 2 > b.len() {
                        Err(DecodeError::Truncated)
                    } else {
                        let ac = be16(b, q2);
                        let q3 = q2 + 2;
                        if pos < q3 && q3 <= b.len() {
                            match s_attributes(b, q3, ac as nat, Seq::empty(), pool) {
                                Err(e) => Err(e),
                                Ok((ats, q4)) => Ok((
                                    SpecAttributeType::Code(
                                        SpecAttributeCode {
                                            attribute_name_index: name_index,
                                            attribute_length: alen,
                                            max_stack,
                                            max_locals,
                                            code_length,
                                            code,
                                            exception_table_length: etl,
                                            exception_table: et,
                                            attributes_count: ac,
                                            attribute_info: ats,
                                        },
                                    ),
                                    q4,
                                )),
                            }
                        } else {
                            // the exception table ends past its start and
                            // within the buffer, so this branch is never
                            // reached
                            Err(DecodeError::Truncated)
                        }
                    },
                }
            }
        }
    }
}

/// Specification-level parse of one attribute-table entry at `pos`: name
/// index and declared length, the name resolved through the pool, the body
/// by the name's grammar (opaque for unrecognized or deferred names), and
/// the length accounting check: a body of any size other than the declared
/// length is `AttributeLengthMismatch`.
pub open spec fn s_attribute(b: Seq<u8>, pos: int, pool: Seq<Option<SpecConstant>>)
    -> Result<(SpecAttributeType, int), DecodeError>
    decreases b.len() - pos, 1int, 0nat,
{
    if pos + 2 > b.len() {
        Err(DecodeError::Truncated)
    } else if pos + 6 > b.len() {
        Err(DecodeError::Truncated)
    } else {
        let name_index = be16(b, pos);
        let alen = be32(b, pos + 2);
        match s_lookup_utf8(pool, name_index as int) {
            Err(e) => Err(e),
            Ok(name) => {
                let body = pos + 6;
                let parsed = if name == n_constant_value() {
                    s_constant_value_body(b, body, name_index, alen)
                } else if name == n_code() {
                    s_code_body(b, body, name_index, alen, pool)
                } else if name == n_inner_classes() {
                    s_inner_classes_body(b, body, name_index, alen)
                } else if name == n_synthetic() {
                    s_synthetic_body(b, body, name_index, alen)
                } else if name == n_signature() {
                    s_signature_body(b, body, name_index, alen)
                } else if name == n_source_file() {
                    s_source_file_body(b, body, name_index, alen)
                } else if name == n_line_number_table() {
                    s_line_number_table_body(b, body, name_index, alen)
                } else if name == n_deprecated() {
                    s_deprecated_body(b, body, name_index, alen)
                } else if name == n_runtime_visible_annotations() {
                    s_runtime_visible_annotations_body(b, body, name_index, alen)
                } else if name == n_bootstrap_methods() {
                    s_bootstrap_methods_body(b, body, name_index, alen)
                } else {
                    s_opaque_body(b, body, name_index, alen)
                };
                match parsed {
                    Err(e) => Err(e),
                    Ok((att, p2)) => if p2 - body == alen {
                        Ok((att, p2))
                    } else {
                        Err(DecodeError::AttributeLengthMismatch)
                    },
                }
            },
        }
    }
}

/// Specification-level parse of `n` consecutive attribute-table entries,
/// appended to `acc` in order.
pub open spec fn s_attributes(b: Seq<u8>, pos: int, n: nat, acc: Seq<SpecAttributeType>, pool: Seq<Option<SpecConstant>>)
    -> Result<(Seq<SpecAttributeType>, int), DecodeError>
    decreases b.len() - pos, 2int, n,
{
    if n == 0 {
        Ok((acc, pos))
    } else {
        match s_attribute(b, pos, pool) {
            Err(e) => Err(e),
            Ok((a, p2)) => if pos < p2 && p2 <= b.len() {
                s_attributes(b, p2, (n - 1) as nat, acc.push(a), pool)
            } else {
                // a parsed attribute always ends past its start and within
                // the buffer, so this branch is never reached
                Err(DecodeError::Truncated)
            },
        }
    }
}


/// Read `n` exception-table records.
#[verifier::loop_isolation(false)]
fn read_exception_entries(c: &mut ByteCursor, n: u16) -> (r: Result<Vec<ExceptionTableEntry>, DecodeError>)
    requires
        old(c).wf(),
    ensures
        final(c).wf(),
        final(c).bytes() == old(c).bytes(),
        old(c).pos <= final(c).pos,
        (match r {
            Ok(v) => s_exception_entries(old(c).bytes(), old(c).pos as int, n as nat, Seq::empty())
                == Ok::<_, DecodeError>((v@, final(c).pos as int)),
            Err(e) => s_exception_entries(old(c).bytes(), old(c).pos as int, n as nat, Seq::empty())
                == Err::<(Seq<ExceptionTableEntry>, int), _>(e),
        }),
{
    let ghost b = c.bytes();
    let ghost start = c.pos as int;
    let mut out: Vec<ExceptionTableEntry> = Vec::new();
    let mut k: u16 = 0;
    while k < n
        invariant
            k <= n,
            c.wf(),
            c.bytes() == b,
            start <= c.pos,
            s_exception_entries(b, start, n as nat, Seq::empty())
                == s_exception_entries(b, c.pos as int, (n - k) as nat, out@),
        decreases n - k,
    {
        let start_pc = c.read_u16()?;
        let end_pc = c.read_u16()?;
        let handler_pc = c.read_u16()?;
        let catch_type = c.read_u16()?;
        out.push(ExceptionTableEntry { start_pc, end_pc, handler_pc, catch_type });
        k = k + 1;
    }
    Ok(out)
}

/// Read `n` line-number records.
#[verifier::loop_isolation(false)]
fn read_line_number_entries(c: &mut ByteCursor, n: u16) -> (r: Result<Vec<LineNumberTable_Element>, DecodeError>)
    requires
        old(c).wf(),
    ensures
        final(c).wf(),
        final(c).bytes() == old(c).bytes(),
        old(c).pos <= final(c).pos,
        (match r {
            Ok(v) => s_line_number_entries(old(c).bytes(), old(c).pos as int, n as nat, Seq::empty())
                == Ok::<_, DecodeError>((v@, final(c).pos as int)),
            Err(e) => s_line_number_entries(old(c).bytes(), old(c).pos as int, n as nat, Seq::empty())
                == Err::<(Seq<LineNumberTable_Element>, int), _>(e),
        }),
{
    let ghost b = c.bytes();
    let ghost start = c.pos as int;
    let mut out: Vec<LineNumberTable_Element> = Vec::new();
    let mut k: u16 = 0;
    while k < n
        invariant
            k <= n,
            c.wf(),
            c.bytes() == b,
            start <= c.pos,
            s_line_number_entries(b, start, n as nat, Seq::empty())
                == s_line_number_entries(b, c.pos as int, (n - k) as nat, out@),
        decreases n - k,
    {
        let start_pc = c.read_u16()?;
        let line_number = c.read_u16()?;
        out.push(LineNumberTable_Element { start_pc, line_number });
        k = k + 1;
    }
    Ok(out)
}

/// Read `n` inner-class records.
#[verifier::loop_isolation(false)]
fn read_inner_class_entries(c: &mut ByteCursor, n: u16) -> (r: Result<Vec<InnerClass>, DecodeError>)
    requires
        old(c).wf(),
    ensures
        final(c).wf(),
        final(c).bytes() == old(c).bytes(),
        old(c).pos <= final(c).pos,
        (match r {
            Ok(v) => s_inner_class_entries(old(c).bytes(), old(c).pos as int, n as nat, Seq::empty())
                == Ok::<_, DecodeError>((v@, final(c).pos as int)),
            Err(e) => s_inner_class_entries(old(c).bytes(), old(c).pos as int, n as nat, Seq::empty())
                == Err::<(Seq<InnerClass>, int), _>(e),
        }),
{
    let ghost b = c.bytes();
    let ghost start = c.pos as int;
    let mut out: Vec<InnerClass> = Vec::new();
    let mut k: u16 = 0;
    while k < n
        invariant
            k <= n,
            c.wf(),
            c.bytes() == b,
            start <= c.pos,
            s_inner_class_entries(b, start, n as nat, Seq::empty())
                == s_inner_class_entries(b, c.pos as int, (n - k) as nat, out@),
        decreases n - k,
    {
        let inner_class_info_index = c.read_u16()?;
        let outer_class_info_index = c.read_u16()?;
        let inner_name_index = c.read_u16()?;
        let inner_class_access_flags = c.read_u16()?;
        out.push(InnerClass {
            inner_class_info_index,
            outer_class_info_index,
            inner_name_index,
            inner_class_access_flags,
        });
        k = k + 1;
    }
    Ok(out)
}

/// Read `n` bootstrap-method records.
#[verifier::loop_isolation(false)]
fn read_bootstrap_method_list(c: &mut ByteCursor, n: u16) -> (r: Result<Vec<BootstrapMethodElement>, DecodeError>)
    requires
        old(c).wf(),
    ensures
        final(c).wf(),
        final(c).bytes() == old(c).bytes(),
        old(c).pos <= final(c).pos,
        (match r {
            Ok(v) => s_bootstrap_method_list(old(c).bytes(), old(c).pos as int, n as nat, Seq::empty())
                == Ok::<_, DecodeError>((v.deep_view(), final(c).pos as int)),
            Err(e) => s_bootstrap_method_list(old(c).bytes(), old(c).pos as int, n as nat, Seq::empty())
                == Err::<(Seq<SpecBootstrapMethodElement>, int), _>(e),
        }),
{
    let ghost b = c.bytes();
    let ghost start = c.pos as int;
    let mut out: Vec<BootstrapMethodElement> = Vec::new();
    let ghost mut acc: Seq<SpecBootstrapMethodElement> = Seq::empty();
    let mut k: u16 = 0;
    proof {
        assert(out.deep_view() =~= acc);
    }
    while k < n
        invariant
            k <= n,
            c.wf(),
            c.bytes() == b,
            start <= c.pos,
            out.deep_view() == acc,
            s_bootstrap_method_list(b, start, n as nat, Seq::empty())
                == s_bootstrap_method_list(b, c.pos as int, (n - k) as nat, acc),
        decreases n - k,
    {
        let bootstrap_method_ref = c.read_u16()?;
        let num_bootstrap_arguments = c.read_u16()?;
        match c.read_u16_list(num_bootstrap_arguments) {
            Err(e) => {
                return Err(e);
            },
            Ok(bootstrap_arguments) => {
                let m = BootstrapMethodElement {
                    bootstrap_method_ref,
                    num_bootstrap_arguments,
                    bootstrap_arguments,
                };
                let ghost old_dv = out.deep_view();
                out.push(m);
                proof {
                    acc = acc.push(m.deep_view());
                    assert(out.deep_view() =~= old_dv.push(m.deep_view()));
                }
                k = k + 1;
            },
        }
    }
    Ok(out)
}

/// Decode a `ConstantValue` body.
fn decode_constant_value_attribute(c: &mut ByteCursor, attribute_name_index: u16, attribute_length: u32)
    -> (r: Result<AttributeType, DecodeError>)
    requires
        old(c).wf(),
    ensures
        final(c).wf(),
        final(c).bytes() == old(c).bytes(),
        old(c).pos <= final(c).pos,
        (match r {
            Ok(v) => s_constant_value_body(old(c).bytes(), old(c).pos as int, attribute_name_index, attribute_length)
                == Ok::<_, DecodeError>((v.deep_view(), final(c).pos as int)),
            Err(e) => s_constant_value_body(old(c).bytes(), old(c).pos as int, attribute_name_index, attribute_length)
                == Err::<(SpecAttributeType, int), _>(e),
        }),
{
    let constantvalue_index = c.read_u16()?;
    Ok(AttributeType::ConstantValue(
        AttributeConstantValue { attribute_name_index, attribute_length, constantvalue_index },
    ))
}

/// Decode a `Signature` body.
fn decode_signature_attribute(c: &mut ByteCursor, attribute_name_index: u16, attribute_length: u32)
    -> (r: Result<AttributeType, DecodeError>)
    requires
        old(c).wf(),
    ensures
        final(c).wf(),
        final(c).bytes() == old(c).bytes(),
        old(c).pos <= final(c).pos,
        (match r {
            Ok(v) => s_signature_body(old(c).bytes(), old(c).pos as int, attribute_name_index, attribute_length)
                == Ok::<_, DecodeError>((v.deep_view(), final(c).pos as int)),
            Err(e) => s_signature_body(old(c).bytes(), old(c).pos as int, attribute_name_index, attribute_length)
                == Err::<(SpecAttributeType, int), _>(e),
        }),
{
    let signature_index = c.read_u16()?;
    Ok(AttributeType::Signature(
        AttributeSignature { attribute_name_index, attribute_length, signature_index },
    ))
}

/// Decode a `SourceFile` body.
fn decode_source_file_attribute(c: &mut ByteCursor, attribute_name_index: u16, attribute_length: u32)
    -> (r: Result<AttributeType, DecodeError>)
    requires
        old(c).wf(),
    ensures
        final(c).wf(),
        final(c).bytes() == old(c).bytes(),
        old(c).pos <= final(c).pos,
        (match r {
            Ok(v) => s_source_file_body(old(c).bytes(), old(c).pos as int, attribute_name_index, attribute_length)
                == Ok::<_, DecodeError>((v.deep_view(), final(c).pos as int)),
            Err(e) => s_source_file_body(old(c).bytes(), old(c).pos as int, attribute_name_index, attribute_length)
                == Err::<(SpecAttributeType, int), _>(e),
        }),
{
    let sourcefile_index = c.read_u16()?;
    Ok(AttributeType::SourceFile(
        AttributeSourceFile { attribute_name_index, attribute_length, sourcefile_index },
    ))
}

/// Decode a `LineNumberTable` body.
fn decode_line_number_table_attribute(c: &mut ByteCursor, attribute_name_index: u16, attribute_length: u32)
    -> (r: Result<AttributeType, DecodeError>)
    requires
        old(c).wf(),
    ensures
        final(c).wf(),
        final(c).bytes() == old(c).bytes(),
        old(c).pos <= final(c).pos,
        (match r {
            Ok(v) => s_line_number_table_body(old(c).bytes(), old(c).pos as int, attribute_name_index, attribute_length)
                == Ok::<_, DecodeError>((v.deep_view(), final(c).pos as int)),
            Err(e) => s_line_number_table_body(old(c).bytes(), old(c).pos as int, attribute_name_index, attribute_length)
                == Err::<(SpecAttributeType, int), _>(e),
        }),
{
    let line_number_table_length = c.read_u16()?;
    match read_line_number_entries(c, line_number_table_length) {
        Err(e) => Err(e),
        Ok(line_number_table) => Ok(AttributeType::LineNumberTable(
            AttributeLineNumberTable {
                attribute_name_index,
                attribute_length,
                line_number_table_length,
                line_number_table,
            },
        )),
    }
}

/// Decode an `InnerClasses` body.
fn decode_inner_classes_attribute(c: &mut ByteCursor, attribute_name_index: u16, attribute_length: u32)
    -> (r: Result<AttributeType, DecodeError>)
    requires
        old(c).wf(),
    ensures
        final(c).wf(),
        final(c).bytes() == old(c).bytes(),
        old(c).pos <= final(c).pos,
        (match r {
            Ok(v) => s_inner_classes_body(old(c).bytes(), old(c).pos as int, attribute_name_index, attribute_length)
                == Ok::<_, DecodeError>((v.deep_view(), final(c).pos as int)),
            Err(e) => s_inner_classes_body(old(c).bytes(), old(c).pos as int, attribute_name_index, attribute_length)
                == Err::<(SpecAttributeType, int), _>(e),
        }),
{
    let number_of_classes = c.read_u16()?;
    match read_inner_class_entries(c, number_of_classes) {
        Err(e) => Err(e),
        Ok(classes) => Ok(AttributeType::InnerClasses(
            AttributeInnerClasses {
                attribute_name_index,
                attribute_length,
                number_of_classes,
                classes,
            },
        )),
    }
}

/// Decode a `BootstrapMethods` body.
fn decode_bootstrap_methods_attribute(c: &mut ByteCursor, attribute_name_index: u16, attribute_length: u32)
    -> (r: Result<AttributeType, DecodeError>)
    requires
        old(c).wf(),
    ensures
        final(c).wf(),
        final(c).bytes() == old(c).bytes(),
        old(c).pos <= final(c).pos,
        (match r {
            Ok(v) => s_bootstrap_methods_body(old(c).bytes(), old(c).pos as int, attribute_name_index, attribute_length)
                == Ok::<_, DecodeError>((v.deep_view(), final(c).pos as int)),
            Err(e) => s_bootstrap_methods_body(old(c).bytes(), old(c).pos as int, attribute_name_index, attribute_length)
                == Err::<(SpecAttributeType, int), _>(e),
        }),
{
    let num_bootstrap_methods = c.read_u16()?;
    match read_bootstrap_method_list(c, num_bootstrap_methods) {
        Err(e) => Err(e),
        Ok(bootstrap_methods) => Ok(AttributeType::BootstrapMethods(
            AttributeBootstrapMethods {
                attribute_name_index,
                attribute_length,
                num_bootstrap_methods,
                bootstrap_methods,
            },
        )),
    }
}

/// Decode a `RuntimeVisibleAnnotations` body.
fn decode_runtime_visible_annotations_attribute(c: &mut ByteCursor, attribute_name_index: u16, attribute_length: u32)
    -> (r: Result<AttributeType, DecodeError>)
    requires
        old(c).wf(),
    ensures
        final(c).wf(),
        final(c).bytes() == old(c).bytes(),
        old(c).pos <= final(c).pos,
        (match r {
            Ok(v) => s_runtime_visible_annotations_body(old(c).bytes(), old(c).pos as int, attribute_name_index, attribute_length)
                == Ok::<_, DecodeError>((v.deep_view(), final(c).pos as int)),
            Err(e) => s_runtime_visible_annotations_body(old(c).bytes(), old(c).pos as int, attribute_name_index, attribute_length)
                == Err::<(SpecAttributeType, int), _>(e),
        }),
{
    let num_annotations = c.read_u16()?;
    match decode_annotations(c, num_annotations) {
        Err(e) => Err(e),
        Ok(annotations) => Ok(AttributeType::RuntimeVisibleAnnotations(
            AttributeRuntimeVisibleAnnotations {
                attribute_name_index,
                attribute_length,
                num_annotations,
                annotations,
            },
        )),
    }
}

/// Decode an unrecognized or deferred body: exactly `attribute_length` raw
/// bytes, kept verbatim.
fn decode_opaque_attribute(c: &mut ByteCursor, attribute_name_index: u16, attribute_length: u32)
    -> (r: Result<AttributeType, DecodeError>)
    requires
        old(c).wf(),
    ensures
        final(c).wf(),
        final(c).bytes() == old(c).bytes(),
        old(c).pos <= final(c).pos,
        (match r {
            Ok(v) => s_opaque_body(old(c).bytes(), old(c).pos as int, attribute_name_index, attribute_length)
                == Ok::<_, DecodeError>((v.deep_view(), final(c).pos as int)),
            Err(e) => s_opaque_body(old(c).bytes(), old(c).pos as int, attribute_name_index, attribute_length)
                == Err::<(SpecAttributeType, int), _>(e),
        }),
{
    let raw_bytes = c.read_bytes(attribute_length as usize)?;
    Ok(AttributeType::Opaque(
        AttributeOpaque { attribute_name_index, attribute_length, raw_bytes },
    ))
}

/// Decode a `Code` body: stack and local sizes, the raw instruction bytes,
/// an exception table, and a nested attribute table decoded recursively.
fn decode_code_attribute(c: &mut ByteCursor, constant_pool: &Vec<Option<Constant>>, attribute_name_index: u16, attribute_length: u32)
    -> (r: Result<AttributeType, DecodeError>)
    requires
        old(c).wf(),
    ensures
        final(c).wf(),
        final(c).bytes() == old(c).bytes(),
        old(c).pos <= final(c).pos,
        (match r {
            Ok(v) => s_code_body(old(c).bytes(), old(c).pos as int, attribute_name_index, attribute_length, constant_pool.deep_view())
                == Ok::<_, DecodeError>((v.deep_view(), final(c).pos as int)),
            Err(e) => s_code_body(old(c).bytes(), old(c).pos as int, attribute_name_index, attribute_length, constant_pool.deep_view())
                == Err::<(SpecAttributeType, int), _>(e),
        }),
    decreases old(c).bytes().len() - old(c).pos, 0int,
{
    let max_stack = c.read_u16()?;
    let max_locals = c.read_u16()?;
    let code_length = c.read_u32()?;
    let code = c.read_bytes(code_length as usize)?;
    let exception_table_length = c.read_u16()?;
    let exception_table = match read_exception_entries(c, exception_table_length) {
        Err(e) => {
            return Err(e);
        },
        Ok(v) => v,
    };
    let attributes_count = c.read_u16()?;
    let attribute_info = match generate_attributes(attributes_count, constant_pool, c) {
        Err(e) => {
            return Err(e);
        },
        Ok(v) => v,
    };
    Ok(AttributeType::Code(
        AttributeCode {
            attribute_name_index,
            attribute_length,
            max_stack,
            max_locals,
            code_length,
            code,
            exception_table_length,
            exception_table,
            attributes_count,
            attribute_info,
        },
    ))
}

/// Decode one attribute-table entry at the cursor: name index, declared
/// length, the body by the resolved name's grammar (opaque for any other
/// name), and the length accounting check.
pub fn decode_attribute(c: &mut ByteCursor, constant_pool: &Vec<Option<Constant>>)
    -> (r: Result<AttributeType, DecodeError>)
    requires
        old(c).wf(),
    ensures
        final(c).wf(),
        final(c).bytes() == old(c).bytes(),
        old(c).pos <= final(c).pos,
        (match r {
            Ok(v) => s_attribute(old(c).bytes(), old(c).pos as int, constant_pool.deep_view())
                == Ok::<_, DecodeError>((v.deep_view(), final(c).pos as int))
                && old(c).pos < final(c).pos,
            Err(e) => s_attribute(old(c).bytes(), old(c).pos as int, constant_pool.deep_view())
                == Err::<(SpecAttributeType, int), _>(e),
        }),
    decreases old(c).bytes().len() - old(c).pos, 1int,
{
    let attribute_name_index = c.read_u16()?;
    let attribute_length = c.read_u32()?;
    let name = match lookup_utf8(constant_pool, attribute_name_index) {
        Err(e) => {
            return Err(e);
        },
        Ok(v) => v,
    };
    let body_start = c.pos;
    let parsed = if bytes_eq(&name, &name_constant_value()) {
        decode_constant_value_attribute(c, attribute_name_index, attribute_length)
    } else if bytes_eq(&name, &name_code()) {
        decode_code_attribute(c, constant_pool, attribute_name_index, attribute_length)
    } else if bytes_eq(&name, &name_inner_classes()) {
        decode_inner_classes_attribute(c, attribute_name_index, attribute_length)
    } else if bytes_eq(&name, &name_synthetic()) {
        Ok(AttributeType::Synthetic(
            AttributeSynthetic { attribute_name_index, attribute_length },
        ))
    } else if bytes_eq(&name, &name_signature()) {
        decode_signature_attribute(c, attribute_name_index, attribute_length)
    } else if bytes_eq(&name, &name_source_file()) {
        decode_source_file_attribute(c, attribute_name_index, attribute_length)
    } else if bytes_eq(&name, &name_line_number_table()) {
        decode_line_number_table_attribute(c, attribute_name_index, attribute_length)
    } else if bytes_eq(&name, &name_deprecated()) {
        Ok(AttributeType::Deprecated(
            AttributeDeprecated { attribute_name_index, attribute_length },
        ))
    } else if bytes_eq(&name, &name_runtime_visible_annotations()) {
        decode_runtime_visible_annotations_attribute(c, attribute_name_index, attribute_length)
    } else if bytes_eq(&name, &name_bootstrap_methods()) {
        decode_bootstrap_methods_attribute(c, attribute_name_index, attribute_length)
    } else {
        decode_opaque_attribute(c, attribute_name_index, attribute_length)
    };
    let att = match parsed {
        Err(e) => {
            return Err(e);
        },
        Ok(v) => v,
    };
    if c.pos - body_start == attribute_length as usize {
        Ok(att)
    } else {
        Err(DecodeError::AttributeLengthMismatch)
    }
}

/// Decode `attribute_count` consecutive attribute-table entries at the
/// cursor, resolving names through the constant pool.
#[verifier::loop_isolation(false)]
pub fn generate_attributes(attribute_count: u16, constant_pool: &Vec<Option<Constant>>, c: &mut ByteCursor)
    -> (r: Result<Vec<AttributeType>, DecodeError>)
    requires
        old(c).wf(),
    ensures
        final(c).wf(),
        final(c).bytes() == old(c).bytes(),
        old(c).pos <= final(c).pos,
        (match r {
            Ok(v) => s_attributes(old(c).bytes(), old(c).pos as int, attribute_count as nat, Seq::empty(), constant_pool.deep_view())
                == Ok::<_, DecodeError>((deep_view_attributes(v@), final(c).pos as int)),
            Err(e) => s_attributes(old(c).bytes(), old(c).pos as int, attribute_count as nat, Seq::empty(), constant_pool.deep_view())
                == Err::<(Seq<SpecAttributeType>, int), _>(e),
        }),
    decreases old(c).bytes().len() - old(c).pos, 2int,
{
    let ghost b = c.bytes();
    let ghost start = c.pos as int;
    let ghost pool = constant_pool.deep_view();
    let mut attributes: Vec<AttributeType> = Vec::new();
    let ghost mut acc: Seq<SpecAttributeType> = Seq::empty();
    let mut k: u16 = 0;
    proof {
        assert(deep_view_attributes(attributes@) == acc);
    }
    while k < attribute_count
        invariant
            k <= attribute_count,
            c.wf(),
            c.bytes() == b,
            start <= c.pos,
            deep_view_attributes(attributes@) == acc,
            s_attributes(b, start, attribute_count as nat, Seq::empty(), pool)
                == s_attributes(b, c.pos as int, (attribute_count - k) as nat, acc, pool),
        decreases attribute_count - k,
    {
        match decode_attribute(c, constant_pool) {
            Err(e) => {
                return Err(e);
            },
            Ok(a) => {
                let ghost old_seq = attributes@;
                attributes.push(a);
                proof {
                    acc = acc.push(a.deep_view());
                    assert(attributes@.drop_last() =~= old_seq);
                    assert(deep_view_attributes(attributes@) == acc);
                }
                k = k + 1;
            },
        }
    }
    Ok(attributes)
}


/// Whether `name` is one of the attribute names this decoder interprets
/// structurally; every other name is captured as an opaque blob.
pub open spec fn in_decoded_registry(name: Seq<u8>) -> bool {
    name == n_constant_value() || name == n_code() || name == n_inner_classes()
        || name == n_synthetic() || name == n_signature() || name == n_source_file()
        || name == n_line_number_table() || name == n_deprecated()
        || name == n_runtime_visible_annotations() || name == n_bootstrap_methods()
}

/// Round-trip of length accounting: every attribute record that decodes
/// successfully, recognized or opaque, ends exactly `attribute_length`
/// bytes after its six-byte header, so the bytes consumed by its body equal
/// its declared length.
pub proof fn lemma_attribute_length_accounting(b: Seq<u8>, pos: int, pool: Seq<Option<SpecConstant>>)
    ensures
        (s_attribute(b, pos, pool) matches Ok(r) ==> r.1 == pos + 6 + be32(b, pos + 2)),
{
}

/// Opaque fallback: an attribute whose name resolves to a Utf8 record
/// outside the decoded registry is decoded as an opaque blob of exactly
/// `attribute_length` bytes, without error; it ends exactly at the next
/// sibling, so decoding of the enclosing table continues there.
pub proof fn lemma_opaque_fallback(b: Seq<u8>, pos: int, pool: Seq<Option<SpecConstant>>)
    requires
        pos + 6 <= b.len(),
        s_lookup_utf8(pool, be16(b, pos) as int) is Ok,
        !in_decoded_registry(s_lookup_utf8(pool, be16(b, pos) as int)->Ok_0),
        pos + 6 + be32(b, pos + 2) <= b.len(),
    ensures
        s_attribute(b, pos, pool) == Ok::<_, DecodeError>((
            SpecAttributeType::Opaque(
                SpecAttributeOpaque {
                    attribute_name_index: be16(b, pos),
                    attribute_length: be32(b, pos + 2),
                    raw_bytes: b.subrange(pos + 6, pos + 6 + be32(b, pos + 2)),
                },
            ),
            pos + 6 + be32(b, pos + 2),
        )),
{
}

} // verus!
