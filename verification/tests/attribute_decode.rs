//! Attribute and annotation decoding scenarios: structured kinds, the
//! opaque fallback, length accounting, and the recursive annotation
//! grammar.

use classfile::annotations::{ElementValueEnum};
use classfile::attributes::{decode_attribute, AttributeType};
use classfile::class_file::ClassFile;
use classfile::constant_pool::generate_constant_pool;
use classfile::cursor::ByteCursor;
use classfile::error::DecodeError;

fn utf8_entry(text: &[u8]) -> Vec<u8> {
    let mut v = vec![1u8];
    v.extend_from_slice(&(text.len() as u16).to_be_bytes());
    v.extend_from_slice(text);
    v
}

fn attr_entry(name_index: u16, body: &[u8]) -> Vec<u8> {
    let mut v = Vec::new();
    v.extend_from_slice(&name_index.to_be_bytes());
    v.extend_from_slice(&(body.len() as u32).to_be_bytes());
    v.extend_from_slice(body);
    v
}

fn class_bytes(pool: &[Vec<u8>], attrs: &[Vec<u8>]) -> Vec<u8> {
    let mut v = vec![0xCA, 0xFE, 0xBA, 0xBE, 0x00, 0x00, 0x00, 0x34];
    v.extend_from_slice(&((pool.len() + 1) as u16).to_be_bytes());
    for e in pool {
        v.extend_from_slice(e);
    }
    v.extend_from_slice(&[0, 0, 0, 0, 0, 0, 0, 0, 0, 0, 0, 0]);
    v.extend_from_slice(&(attrs.len() as u16).to_be_bytes());
    for a in attrs {
        v.extend_from_slice(a);
    }
    v
}

/// The pool of the given entries, decoded on its own.
fn pool_of(entries: &[Vec<u8>]) -> Vec<Option<classfile::constant_pool::Constant>> {
    let mut v = Vec::new();
    for e in entries {
        v.extend_from_slice(e);
    }
    let mut c = ByteCursor::new(v);
    generate_constant_pool(&mut c, (entries.len() + 1) as u16).unwrap()
}

#[test]
fn opaque_fallback_keeps_bytes_and_continues() {
    // an unknown name becomes an opaque blob of exactly the declared
    // length, and the next sibling attribute still decodes
    let pool = [utf8_entry(b"Custom"), utf8_entry(b"Deprecated")];
    let attrs = [attr_entry(1, &[9, 8, 7]), attr_entry(2, &[])];
    let cf = ClassFile::new(class_bytes(&pool, &attrs)).unwrap();
    assert_eq!(cf.attributes.len(), 2);
    match &cf.attributes[0] {
        AttributeType::Opaque(o) => {
            assert_eq!(o.attribute_name_index, 1);
            assert_eq!(o.attribute_length, 3);
            assert_eq!(o.raw_bytes, vec![9u8, 8, 7]);
        },
        other => panic!("expected an opaque attribute, got {:?}", other),
    }
    match &cf.attributes[1] {
        AttributeType::Deprecated(d) => {
            assert_eq!(d.attribute_name_index, 2);
            assert_eq!(d.attribute_length, 0);
        },
        other => panic!("expected a Deprecated attribute, got {:?}", other),
    }
}

#[test]
fn deferred_registry_name_is_opaque() {
    // a registry name whose full decoding is deferred degrades to a blob
    let pool = [utf8_entry(b"StackMapTable")];
    let attrs = [attr_entry(1, &[1, 2])];
    let cf = ClassFile::new(class_bytes(&pool, &attrs)).unwrap();
    match &cf.attributes[0] {
        AttributeType::Opaque(o) => assert_eq!(o.raw_bytes, vec![1u8, 2]),
        other => panic!("expected an opaque attribute, got {:?}", other),
    }
}

#[test]
fn attribute_consumes_exactly_declared_length() {
    // header (6 bytes) plus declared length, no more and no less
    let pool = [utf8_entry(b"Custom")];
    let body = [5u8, 6, 7, 8];
    let mut stream = attr_entry(1, &body);
    stream.extend_from_slice(&[0xAA, 0xBB]); // trailing bytes of a sibling
    let p = pool_of(&pool);
    let mut c = ByteCursor::new(stream);
    decode_attribute(&mut c, &p).unwrap();
    assert_eq!(c.pos, 6 + body.len());
}

#[test]
fn constant_value_attribute() {
    let pool = [utf8_entry(b"ConstantValue"), vec![3u8, 0, 0, 0, 1]];
    let attrs = [attr_entry(1, &2u16.to_be_bytes())];
    let cf = ClassFile::new(class_bytes(&pool, &attrs)).unwrap();
    match &cf.attributes[0] {
        AttributeType::ConstantValue(a) => {
            assert_eq!(a.attribute_name_index, 1);
            assert_eq!(a.attribute_length, 2);
            assert_eq!(a.constantvalue_index, 2);
        },
        other => panic!("expected a ConstantValue attribute, got {:?}", other),
    }
}

#[test]
fn signature_and_source_file_attributes() {
    let pool = [
        utf8_entry(b"Signature"),
        utf8_entry(b"SourceFile"),
        utf8_entry(b"LFoo;"),
        utf8_entry(b"Foo.java"),
    ];
    let attrs = [attr_entry(1, &3u16.to_be_bytes()), attr_entry(2, &4u16.to_be_bytes())];
    let cf = ClassFile::new(class_bytes(&pool, &attrs)).unwrap();
    match (&cf.attributes[0], &cf.attributes[1]) {
        (AttributeType::Signature(s), AttributeType::SourceFile(f)) => {
            assert_eq!(s.signature_index, 3);
            assert_eq!(f.sourcefile_index, 4);
        },
        other => panic!("expected Signature and SourceFile, got {:?}", other),
    }
}

#[test]
fn synthetic_attribute_has_empty_body() {
    let pool = [utf8_entry(b"Synthetic")];
    let attrs = [attr_entry(1, &[])];
    let cf = ClassFile::new(class_bytes(&pool, &attrs)).unwrap();
    match &cf.attributes[0] {
        AttributeType::Synthetic(s) => assert_eq!(s.attribute_length, 0),
        other => panic!("expected a Synthetic attribute, got {:?}", other),
    }
}

#[test]
fn synthetic_with_nonzero_length_is_mismatch() {
    // Synthetic reads no body bytes, so a nonzero declared length cannot
    // be accounted for
    let pool = [utf8_entry(b"Synthetic")];
    let attrs = [attr_entry(1, &[0])];
    assert_eq!(
        ClassFile::new(class_bytes(&pool, &attrs)),
        Err(DecodeError::AttributeLengthMismatch),
    );
}

#[test]
fn line_number_table_attribute() {
    let pool = [utf8_entry(b"LineNumberTable")];
    let mut body = 2u16.to_be_bytes().to_vec();
    body.extend_from_slice(&0u16.to_be_bytes());
    body.extend_from_slice(&10u16.to_be_bytes());
    body.extend_from_slice(&5u16.to_be_bytes());
    body.extend_from_slice(&11u16.to_be_bytes());
    let attrs = [attr_entry(1, &body)];
    let cf = ClassFile::new(class_bytes(&pool, &attrs)).unwrap();
    match &cf.attributes[0] {
        AttributeType::LineNumberTable(t) => {
            assert_eq!(t.line_number_table_length, 2);
            assert_eq!(t.line_number_table.len(), 2);
            assert_eq!(t.line_number_table[0].start_pc, 0);
            assert_eq!(t.line_number_table[0].line_number, 10);
            assert_eq!(t.line_number_table[1].start_pc, 5);
            assert_eq!(t.line_number_table[1].line_number, 11);
        },
        other => panic!("expected a LineNumberTable attribute, got {:?}", other),
    }
}

#[test]
fn inner_classes_attribute() {
    let pool = [utf8_entry(b"InnerClasses"), vec![7u8, 0, 3], utf8_entry(b"Inner")];
    let mut body = 1u16.to_be_bytes().to_vec();
    body.extend_from_slice(&2u16.to_be_bytes()); // inner_class_info_index
    body.extend_from_slice(&0u16.to_be_bytes()); // outer_class_info_index
    body.extend_from_slice(&3u16.to_be_bytes()); // inner_name_index
    body.extend_from_slice(&0x0001u16.to_be_bytes()); // access flags
    let attrs = [attr_entry(1, &body)];
    let cf = ClassFile::new(class_bytes(&pool, &attrs)).unwrap();
    match &cf.attributes[0] {
        AttributeType::InnerClasses(a) => {
            assert_eq!(a.number_of_classes, 1);
            assert_eq!(a.classes[0].inner_class_info_index, 2);
            assert_eq!(a.classes[0].outer_class_info_index, 0);
            assert_eq!(a.classes[0].inner_name_index, 3);
            assert_eq!(a.classes[0].inner_class_access_flags, 1);
        },
        other => panic!("expected an InnerClasses attribute, got {:?}", other),
    }
}

#[test]
fn bootstrap_methods_attribute() {
    let pool = [utf8_entry(b"BootstrapMethods"), vec![15u8, 6, 0, 1]];
    let mut body = 1u16.to_be_bytes().to_vec();
    body.extend_from_slice(&2u16.to_be_bytes()); // bootstrap_method_ref
    body.extend_from_slice(&2u16.to_be_bytes()); // num_bootstrap_arguments
    body.extend_from_slice(&1u16.to_be_bytes());
    body.extend_from_slice(&2u16.to_be_bytes());
    let attrs = [attr_entry(1, &body)];
    let cf = ClassFile::new(class_bytes(&pool, &attrs)).unwrap();
    match &cf.attributes[0] {
        AttributeType::BootstrapMethods(a) => {
            assert_eq!(a.num_bootstrap_methods, 1);
            assert_eq!(a.bootstrap_methods[0].bootstrap_method_ref, 2);
            assert_eq!(a.bootstrap_methods[0].num_bootstrap_arguments, 2);
            assert_eq!(a.bootstrap_methods[0].bootstrap_arguments, vec![1u16, 2u16]);
        },
        other => panic!("expected a BootstrapMethods attribute, got {:?}", other),
    }
}

#[test]
fn attribute_name_resolving_to_non_utf8_is_rejected() {
    let pool = [vec![3u8, 0, 0, 0, 1]]; // Integer at index 1
    let attrs = [attr_entry(1, &[])];
    assert_eq!(
        ClassFile::new(class_bytes(&pool, &attrs)),
        Err(DecodeError::WrongConstantKind),
    );
}

#[test]
fn attribute_name_resolving_to_absent_slot_is_rejected() {
    let pool = [utf8_entry(b"x")];
    let attrs = [attr_entry(7, &[])];
    assert_eq!(
        ClassFile::new(class_bytes(&pool, &attrs)),
        Err(DecodeError::DanglingIndex),
    );
}

/// One annotation with two pairs: a nested annotation and an array of two
/// constant values. The structure delimits itself through its counts.
fn nested_annotation_body() -> Vec<u8> {
    let mut body = 1u16.to_be_bytes().to_vec(); // num_annotations
    body.extend_from_slice(&2u16.to_be_bytes()); // type_index
    body.extend_from_slice(&2u16.to_be_bytes()); // num_element_value_pairs
    // pair 1: name 3, nested annotation with no pairs
    body.extend_from_slice(&3u16.to_be_bytes());
    body.push(b'@');
    body.extend_from_slice(&2u16.to_be_bytes()); // nested type_index
    body.extend_from_slice(&0u16.to_be_bytes()); // nested pair count
    // pair 2: name 4, array of two int constants
    body.extend_from_slice(&4u16.to_be_bytes());
    body.push(b'[');
    body.extend_from_slice(&2u16.to_be_bytes()); // num_values
    body.push(b'I');
    body.extend_from_slice(&5u16.to_be_bytes());
    body.push(b'I');
    body.extend_from_slice(&6u16.to_be_bytes());
    body
}

#[test]
fn runtime_visible_annotations_nested() {
    let pool = [utf8_entry(b"RuntimeVisibleAnnotations")];
    let attrs = [attr_entry(1, &nested_annotation_body())];
    let cf = ClassFile::new(class_bytes(&pool, &attrs)).unwrap();
    match &cf.attributes[0] {
        AttributeType::RuntimeVisibleAnnotations(a) => {
            assert_eq!(a.num_annotations, 1);
            let ann = &a.annotations[0];
            assert_eq!(ann.type_index, 2);
            assert_eq!(ann.num_element_value_pairs, 2);
            assert_eq!(ann.element_value_pairs[0].element_name_index, 3);
            match &ann.element_value_pairs[0].value.value {
                ElementValueEnum::AnnotationValue(nested) => {
                    assert_eq!(nested.type_index, 2);
                    assert_eq!(nested.num_element_value_pairs, 0);
                },
                other => panic!("expected a nested annotation, got {:?}", other),
            }
            match &ann.element_value_pairs[1].value.value {
                ElementValueEnum::ArrayValue(arr) => {
                    assert_eq!(arr.num_values, 2);
                    match &arr.values[0].value {
                        ElementValueEnum::ConstantValueIndex(c) => {
                            assert_eq!(c.const_value_index, 5);
                        },
                        other => panic!("expected a constant value, got {:?}", other),
                    }
                },
                other => panic!("expected an array value, got {:?}", other),
            }
        },
        other => panic!("expected a RuntimeVisibleAnnotations attribute, got {:?}", other),
    }
}

#[test]
fn annotation_body_consumes_exactly_declared_length() {
    // the annotation grammar is self-delimiting: the decoder consumes
    // exactly the declared attribute length
    let pool = [utf8_entry(b"RuntimeVisibleAnnotations")];
    let body = nested_annotation_body();
    let p = pool_of(&pool);
    let mut stream = attr_entry(1, &body);
    stream.extend_from_slice(&[0xEE]); // a trailing byte past the attribute
    let mut c = ByteCursor::new(stream);
    decode_attribute(&mut c, &p).unwrap();
    assert_eq!(c.pos, 6 + body.len());
}

#[test]
fn annotation_length_mismatch_is_rejected() {
    // the same well-formed body under a wrong declared length
    let pool = [utf8_entry(b"RuntimeVisibleAnnotations")];
    let body = nested_annotation_body();
    let mut attr = Vec::new();
    attr.extend_from_slice(&1u16.to_be_bytes());
    attr.extend_from_slice(&((body.len() + 1) as u32).to_be_bytes());
    attr.extend_from_slice(&body);
    attr.push(0); // pad so the declared length is available
    assert_eq!(
        ClassFile::new(class_bytes(&pool, &[attr])),
        Err(DecodeError::AttributeLengthMismatch),
    );
}

#[test]
fn invalid_annotation_tag_is_rejected() {
    let pool = [utf8_entry(b"RuntimeVisibleAnnotations")];
    let mut body = 1u16.to_be_bytes().to_vec();
    body.extend_from_slice(&2u16.to_be_bytes()); // type_index
    body.extend_from_slice(&1u16.to_be_bytes()); // one pair
    body.extend_from_slice(&3u16.to_be_bytes()); // element name
    body.push(b'X'); // no such tag
    body.extend_from_slice(&4u16.to_be_bytes());
    let attrs = [attr_entry(1, &body)];
    assert_eq!(
        ClassFile::new(class_bytes(&pool, &attrs)),
        Err(DecodeError::InvalidAnnotationTag(b'X')),
    );
}

#[test]
fn enum_and_class_element_values() {
    let pool = [utf8_entry(b"RuntimeVisibleAnnotations")];
    let mut body = 1u16.to_be_bytes().to_vec();
    body.extend_from_slice(&2u16.to_be_bytes()); // type_index
    body.extend_from_slice(&2u16.to_be_bytes()); // two pairs
    body.extend_from_slice(&3u16.to_be_bytes());
    body.push(b'e');
    body.extend_from_slice(&4u16.to_be_bytes()); // type_name_index
    body.extend_from_slice(&5u16.to_be_bytes()); // const_name_index
    body.extend_from_slice(&6u16.to_be_bytes());
    body.push(b'c');
    body.extend_from_slice(&7u16.to_be_bytes()); // class_info_index
    let attrs = [attr_entry(1, &body)];
    let cf = ClassFile::new(class_bytes(&pool, &attrs)).unwrap();
    match &cf.attributes[0] {
        AttributeType::RuntimeVisibleAnnotations(a) => {
            let ann = &a.annotations[0];
            match &ann.element_value_pairs[0].value.value {
                ElementValueEnum::EnumConstValue(e) => {
                    assert_eq!(e.type_name_index, 4);
                    assert_eq!(e.const_name_index, 5);
                },
                other => panic!("expected an enum constant, got {:?}", other),
            }
            match &ann.element_value_pairs[1].value.value {
                ElementValueEnum::ClassInfoIndex(ci) => assert_eq!(ci.class_info_index, 7),
                other => panic!("expected a class literal, got {:?}", other),
            }
        },
        other => panic!("expected a RuntimeVisibleAnnotations attribute, got {:?}", other),
    }
}

#[test]
fn code_attribute_with_nested_table() {
    let pool = [
        utf8_entry(b"Code"),            // 1
        utf8_entry(b"LineNumberTable"), // 2
        utf8_entry(b"name"),            // 3
        utf8_entry(b"()V"),             // 4
        vec![7u8, 0, 3],                // 5: Class
    ];
    // nested LineNumberTable attribute with one record
    let mut lnt_body = 1u16.to_be_bytes().to_vec();
    lnt_body.extend_from_slice(&0u16.to_be_bytes());
    lnt_body.extend_from_slice(&1u16.to_be_bytes());
    let nested = attr_entry(2, &lnt_body);
    // Code body
    let mut code_body = Vec::new();
    code_body.extend_from_slice(&2u16.to_be_bytes()); // max_stack
    code_body.extend_from_slice(&1u16.to_be_bytes()); // max_locals
    code_body.extend_from_slice(&3u32.to_be_bytes()); // code_length
    code_body.extend_from_slice(&[0x03, 0xAC, 0x00]); // instruction bytes
    code_body.extend_from_slice(&1u16.to_be_bytes()); // exception_table_length
    code_body.extend_from_slice(&0u16.to_be_bytes()); // start_pc
    code_body.extend_from_slice(&3u16.to_be_bytes()); // end_pc
    code_body.extend_from_slice(&0u16.to_be_bytes()); // handler_pc
    code_body.extend_from_slice(&5u16.to_be_bytes()); // catch_type
    code_body.extend_from_slice(&1u16.to_be_bytes()); // nested attributes_count
    code_body.extend_from_slice(&nested);
    // one method carrying the Code attribute
    let mut bytes = vec![0xCA, 0xFE, 0xBA, 0xBE, 0x00, 0x00, 0x00, 0x34];
    bytes.extend_from_slice(&((pool.len() + 1) as u16).to_be_bytes());
    for e in &pool {
        bytes.extend_from_slice(e);
    }
    bytes.extend_from_slice(&[0, 0, 0, 0, 0, 0, 0, 0, 0, 0]); // access..fields_count
    bytes.extend_from_slice(&1u16.to_be_bytes()); // methods_count
    bytes.extend_from_slice(&0u16.to_be_bytes()); // method access_flags
    bytes.extend_from_slice(&3u16.to_be_bytes()); // name_index
    bytes.extend_from_slice(&4u16.to_be_bytes()); // descriptor_index
    bytes.extend_from_slice(&1u16.to_be_bytes()); // method attributes_count
    bytes.extend_from_slice(&attr_entry(1, &code_body));
    bytes.extend_from_slice(&0u16.to_be_bytes()); // class attributes_count
    let cf = ClassFile::new(bytes).unwrap();
    assert_eq!(cf.methods_count, 1);
    let m = &cf.methods[0];
    assert_eq!(m.name_index, 3);
    assert_eq!(m.descriptor_index, 4);
    match &m.attributes[0] {
        AttributeType::Code(code) => {
            assert_eq!(code.max_stack, 2);
            assert_eq!(code.max_locals, 1);
            assert_eq!(code.code_length, 3);
            assert_eq!(code.code, vec![0x03u8, 0xAC, 0x00]);
            assert_eq!(code.exception_table_length, 1);
            assert_eq!(code.exception_table[0].start_pc, 0);
            assert_eq!(code.exception_table[0].end_pc, 3);
            assert_eq!(code.exception_table[0].handler_pc, 0);
            assert_eq!(code.exception_table[0].catch_type, 5);
            assert_eq!(code.attributes_count, 1);
            match &code.attribute_info[0] {
                AttributeType::LineNumberTable(t) => {
                    assert_eq!(t.line_number_table_length, 1);
                },
                other => panic!("expected a nested LineNumberTable, got {:?}", other),
            }
        },
        other => panic!("expected a Code attribute, got {:?}", other),
    }
}

#[test]
fn code_attribute_wrong_length_is_mismatch() {
    let pool = [utf8_entry(b"Code")];
    let mut code_body = Vec::new();
    code_body.extend_from_slice(&1u16.to_be_bytes());
    code_body.extend_from_slice(&1u16.to_be_bytes());
    code_body.extend_from_slice(&1u32.to_be_bytes());
    code_body.push(0x03);
    code_body.extend_from_slice(&0u16.to_be_bytes()); // no exceptions
    code_body.extend_from_slice(&0u16.to_be_bytes()); // no nested attributes
    // declare one byte more than the body and pad the stream accordingly
    let mut attr = Vec::new();
    attr.extend_from_slice(&1u16.to_be_bytes());
    attr.extend_from_slice(&((code_body.len() + 1) as u32).to_be_bytes());
    attr.extend_from_slice(&code_body);
    attr.push(0);
    assert_eq!(
        ClassFile::new(class_bytes(&pool, &[attr])),
        Err(DecodeError::AttributeLengthMismatch),
    );
}

#[test]
fn field_with_constant_value() {
    let pool = [
        utf8_entry(b"ConstantValue"), // 1
        utf8_entry(b"count"),         // 2
        utf8_entry(b"I"),             // 3
        vec![3u8, 0, 0, 0, 9],        // 4: Integer 9
    ];
    let mut bytes = vec![0xCA, 0xFE, 0xBA, 0xBE, 0x00, 0x00, 0x00, 0x34];
    bytes.extend_from_slice(&((pool.len() + 1) as u16).to_be_bytes());
    for e in &pool {
        bytes.extend_from_slice(e);
    }
    bytes.extend_from_slice(&[0, 0, 0, 0, 0, 0, 0, 0]); // access..ifaces
    bytes.extend_from_slice(&1u16.to_be_bytes()); // fields_count
    bytes.extend_from_slice(&0x0019u16.to_be_bytes()); // field access_flags
    bytes.extend_from_slice(&2u16.to_be_bytes()); // name_index
    bytes.extend_from_slice(&3u16.to_be_bytes()); // descriptor_index
    bytes.extend_from_slice(&1u16.to_be_bytes()); // field attributes_count
    bytes.extend_from_slice(&attr_entry(1, &4u16.to_be_bytes()));
    bytes.extend_from_slice(&[0, 0, 0, 0]); // methods, class attributes
    let cf = ClassFile::new(bytes).unwrap();
    assert_eq!(cf.fields_count, 1);
    let f = &cf.fields[0];
    assert_eq!(f.access_flags, 0x0019);
    assert_eq!(f.name_index, 2);
    assert_eq!(f.descriptor_index, 3);
    match &f.attributes[0] {
        AttributeType::ConstantValue(a) => assert_eq!(a.constantvalue_index, 4),
        other => panic!("expected a ConstantValue attribute, got {:?}", other),
    }
}

#[test]
fn deeply_nested_annotation_consumes_exactly_declared_length() {
    // an array holding a nested annotation that itself holds an array:
    // the counts alone delimit the structure at every depth
    let pool = [utf8_entry(b"RuntimeVisibleAnnotations")];
    let mut body = 1u16.to_be_bytes().to_vec(); // num_annotations
    body.extend_from_slice(&2u16.to_be_bytes()); // type_index
    body.extend_from_slice(&1u16.to_be_bytes()); // one pair
    body.extend_from_slice(&3u16.to_be_bytes()); // element name
    body.push(b'[');
    body.extend_from_slice(&2u16.to_be_bytes()); // two values
    // value 1: nested annotation with one enum pair
    body.push(b'@');
    body.extend_from_slice(&4u16.to_be_bytes()); // nested type_index
    body.extend_from_slice(&1u16.to_be_bytes()); // one pair
    body.extend_from_slice(&5u16.to_be_bytes()); // element name
    body.push(b'e');
    body.extend_from_slice(&6u16.to_be_bytes());
    body.extend_from_slice(&7u16.to_be_bytes());
    // value 2: an inner array of one boolean constant
    body.push(b'[');
    body.extend_from_slice(&1u16.to_be_bytes());
    body.push(b'Z');
    body.extend_from_slice(&8u16.to_be_bytes());
    let p = pool_of(&pool);
    let mut stream = attr_entry(1, &body);
    stream.extend_from_slice(&[0x55, 0x66]); // bytes of a following sibling
    let mut c = ByteCursor::new(stream);
    let att = decode_attribute(&mut c, &p).unwrap();
    assert_eq!(c.pos, 6 + body.len());
    match att {
        AttributeType::RuntimeVisibleAnnotations(a) => {
            assert_eq!(a.num_annotations, 1);
            match &a.annotations[0].element_value_pairs[0].value.value {
                ElementValueEnum::ArrayValue(arr) => assert_eq!(arr.num_values, 2),
                other => panic!("expected an array value, got {:?}", other),
            }
        },
        other => panic!("expected a RuntimeVisibleAnnotations attribute, got {:?}", other),
    }
}

#[test]
fn all_primitive_element_tags_accepted() {
    let pool = [utf8_entry(b"RuntimeVisibleAnnotations")];
    let tags = [b'B', b'C', b'D', b'F', b'I', b'J', b'S', b'Z', b's'];
    let mut body = 1u16.to_be_bytes().to_vec(); // num_annotations
    body.extend_from_slice(&2u16.to_be_bytes()); // type_index
    body.extend_from_slice(&(tags.len() as u16).to_be_bytes());
    for (i, t) in tags.iter().enumerate() {
        body.extend_from_slice(&(i as u16).to_be_bytes()); // element name
        body.push(*t);
        body.extend_from_slice(&(100 + i as u16).to_be_bytes()); // const index
    }
    let attrs = [attr_entry(1, &body)];
    let cf = ClassFile::new(class_bytes(&pool, &attrs)).unwrap();
    match &cf.attributes[0] {
        AttributeType::RuntimeVisibleAnnotations(a) => {
            let ann = &a.annotations[0];
            assert_eq!(ann.element_value_pairs.len(), tags.len());
            for (i, t) in tags.iter().enumerate() {
                let pair = &ann.element_value_pairs[i];
                assert_eq!(pair.value.tag, *t);
                match &pair.value.value {
                    ElementValueEnum::ConstantValueIndex(c) => {
                        assert_eq!(c.const_value_index, 100 + i as u16);
                    },
                    other => panic!("expected a constant value, got {:?}", other),
                }
            }
        },
        other => panic!("expected a RuntimeVisibleAnnotations attribute, got {:?}", other),
    }
}

#[test]
fn opaque_attribute_longer_than_stream_is_truncated() {
    // the declared length runs past the end of the buffer
    let pool = [utf8_entry(b"Custom")];
    let mut attr = Vec::new();
    attr.extend_from_slice(&1u16.to_be_bytes());
    attr.extend_from_slice(&16u32.to_be_bytes()); // declares 16 body bytes
    attr.extend_from_slice(&[1, 2, 3]); // but only three follow
    assert_eq!(
        ClassFile::new(class_bytes(&pool, &[attr])),
        Err(DecodeError::Truncated),
    );
}
