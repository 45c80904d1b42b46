//! Whole-file decoding scenarios: the header, the constant pool, and the
//! error taxonomy at the classfile level.

use classfile::class_file::ClassFile;
use classfile::constant_pool::Constant;
use classfile::cursor::ByteCursor;
use classfile::error::DecodeError;

/// A Utf8 pool entry: tag 1, a 2-byte length, then the bytes.
fn utf8_entry(text: &[u8]) -> Vec<u8> {
    let mut v = vec![1u8];
    v.extend_from_slice(&(text.len() as u16).to_be_bytes());
    v.extend_from_slice(text);
    v
}

/// One attribute-table entry: a name index, the body length, then the body.
fn attr_entry(name_index: u16, body: &[u8]) -> Vec<u8> {
    let mut v = Vec::new();
    v.extend_from_slice(&name_index.to_be_bytes());
    v.extend_from_slice(&(body.len() as u32).to_be_bytes());
    v.extend_from_slice(body);
    v
}

/// A classfile with the given pool entries and class-level attributes, no
/// interfaces, fields or methods.
fn class_bytes(pool: &[Vec<u8>], attrs: &[Vec<u8>]) -> Vec<u8> {
    let mut v = vec![0xCA, 0xFE, 0xBA, 0xBE, 0x00, 0x00, 0x00, 0x34];
    v.extend_from_slice(&((pool.len() + 1) as u16).to_be_bytes());
    for e in pool {
        v.extend_from_slice(e);
    }
    v.extend_from_slice(&[0, 0]); // access_flags
    v.extend_from_slice(&[0, 0]); // this_class
    v.extend_from_slice(&[0, 0]); // super_class
    v.extend_from_slice(&[0, 0]); // interfaces_count
    v.extend_from_slice(&[0, 0]); // fields_count
    v.extend_from_slice(&[0, 0]); // methods_count
    v.extend_from_slice(&(attrs.len() as u16).to_be_bytes());
    for a in attrs {
        v.extend_from_slice(a);
    }
    v
}

#[test]
fn minimal_header() {
    // magic, minor=0, major=52, pool_count=1: the header reads back
    // exactly and the declared pool decodes to no entries at all.
    let bytes = vec![0xCA, 0xFE, 0xBA, 0xBE, 0x00, 0x00, 0x00, 0x34, 0x00, 0x01];
    let mut c = ByteCursor::new(bytes);
    let magic = c.read_u32().unwrap();
    let minor = c.read_u16().unwrap();
    let major = c.read_u16().unwrap();
    let pool_count = c.read_u16().unwrap();
    assert_eq!(magic, 0xCAFEBABE);
    assert_eq!(minor, 0);
    assert_eq!(major, 52);
    assert_eq!(pool_count, 1);
    let pool = classfile::constant_pool::generate_constant_pool(&mut c, pool_count).unwrap();
    assert_eq!(pool.len(), 1);
    assert!(pool[0].is_none());
    assert_eq!(c.pos, 10);
}

#[test]
fn minimal_class_file() {
    // the shortest complete classfile: empty pool and empty sections
    let bytes = class_bytes(&[], &[]);
    let cf = ClassFile::new(bytes).unwrap();
    assert_eq!(cf.magic, 0xCAFEBABE);
    assert_eq!(cf.minor_version, 0);
    assert_eq!(cf.major_version, 52);
    assert_eq!(cf.constant_pool_count, 1);
    assert_eq!(cf.constant_pool.len(), 1);
    assert!(cf.constant_pool[0].is_none());
    assert_eq!(cf.interfaces_count, 0);
    assert_eq!(cf.fields_count, 0);
    assert_eq!(cf.methods_count, 0);
    assert_eq!(cf.attributes_count, 0);
}

#[test]
fn single_utf8_entry() {
    // pool_count=2, one entry with tag 1, length 4, bytes "Test"
    let bytes = class_bytes(&[utf8_entry(b"Test")], &[]);
    let cf = ClassFile::new(bytes).unwrap();
    assert_eq!(cf.constant_pool.len(), 2);
    match &cf.constant_pool[1] {
        Some(Constant::Utf8Info(u)) => {
            assert_eq!(u.tag, 1);
            assert_eq!(u.utf_str, vec![84u8, 101, 115, 116]);
        },
        other => panic!("expected a Utf8 entry at index 1, got {:?}", other),
    }
}

#[test]
fn truncated_mid_attribute_length() {
    // the buffer ends half-way through the u32 attribute_length field
    let pool = [utf8_entry(b"SourceFile")];
    let mut bytes = class_bytes(&pool, &[]);
    // declare one class-level attribute, then supply the name index and
    // only two of the four length bytes
    let n = bytes.len();
    bytes[n - 2..].copy_from_slice(&1u16.to_be_bytes());
    bytes.extend_from_slice(&1u16.to_be_bytes());
    bytes.extend_from_slice(&[0x00, 0x00]);
    assert_eq!(ClassFile::new(bytes), Err(DecodeError::Truncated));
}

#[test]
fn unknown_constant_tag() {
    // a pool entry with tag 99 is rejected with the tag preserved
    let bytes = class_bytes(&[vec![99u8, 0, 0]], &[]);
    assert_eq!(ClassFile::new(bytes), Err(DecodeError::UnknownConstantTag(99)));
}

#[test]
fn bad_magic() {
    let mut bytes = class_bytes(&[], &[]);
    bytes[0] = 0xCB;
    assert_eq!(ClassFile::new(bytes), Err(DecodeError::BadMagic));
}

#[test]
fn redecode_is_structurally_equal() {
    // decoding the same byte buffer twice yields structurally equal values
    let pool = [
        utf8_entry(b"SourceFile"),
        utf8_entry(b"Hello.java"),
        vec![7u8, 0, 2], // Class -> Utf8 at 2
    ];
    let attrs = [attr_entry(1, &2u16.to_be_bytes())];
    let bytes = class_bytes(&pool, &attrs);
    let first = ClassFile::new(bytes.clone()).unwrap();
    let second = ClassFile::new(bytes).unwrap();
    assert_eq!(first, second);
}

#[test]
fn invalid_text_zero_byte() {
    // modified UTF-8 has no zero byte
    let bytes = class_bytes(&[utf8_entry(&[0x41, 0x00])], &[]);
    assert_eq!(ClassFile::new(bytes), Err(DecodeError::InvalidText));
}

#[test]
fn invalid_text_bad_lead_byte() {
    // 0xF5 can open no sequence in modified UTF-8
    let bytes = class_bytes(&[utf8_entry(&[0xF5])], &[]);
    assert_eq!(ClassFile::new(bytes), Err(DecodeError::InvalidText));
}

#[test]
fn invalid_text_missing_continuation() {
    // a two-byte sequence whose second byte is no continuation
    let bytes = class_bytes(&[utf8_entry(&[0xC3, 0x41])], &[]);
    assert_eq!(ClassFile::new(bytes), Err(DecodeError::InvalidText));
}

#[test]
fn multi_byte_text_accepted() {
    // two- and three-byte sequences are kept verbatim
    let text = [0xC3u8, 0xA9, 0xE2, 0x82, 0xAC];
    let bytes = class_bytes(&[utf8_entry(&text)], &[]);
    let cf = ClassFile::new(bytes).unwrap();
    match &cf.constant_pool[1] {
        Some(Constant::Utf8Info(u)) => assert_eq!(u.utf_str, text.to_vec()),
        other => panic!("expected a Utf8 entry, got {:?}", other),
    }
}

#[test]
fn dangling_pool_index_rejected() {
    // a Class entry whose name index points past the pool
    let bytes = class_bytes(&[vec![7u8, 0, 9]], &[]);
    assert_eq!(ClassFile::new(bytes), Err(DecodeError::DanglingIndex));
}

#[test]
fn dangling_pool_index_zero_rejected() {
    // index 0 is reserved and never populated
    let bytes = class_bytes(&[vec![7u8, 0, 0]], &[]);
    assert_eq!(ClassFile::new(bytes), Err(DecodeError::DanglingIndex));
}

#[test]
fn pool_indices_within_range_accepted() {
    // every index field of every entry resolves to a populated slot
    let pool = [
        utf8_entry(b"name"),           // 1
        utf8_entry(b"(I)V"),           // 2
        vec![12u8, 0, 1, 0, 2],        // 3: NameAndType -> 1, 2
        vec![7u8, 0, 1],               // 4: Class -> 1
        vec![10u8, 0, 4, 0, 3],        // 5: MethodRef -> 4, 3
        vec![8u8, 0, 1],               // 6: String -> 1
        vec![15u8, 5, 0, 5],           // 7: MethodHandle -> 5
        vec![16u8, 0, 2],              // 8: MethodType -> 2
        vec![18u8, 0, 0, 0, 3],        // 9: InvokeDynamic, bootstrap 0, -> 3
    ];
    let cf = ClassFile::new(class_bytes(&pool, &[])).unwrap();
    assert_eq!(cf.constant_pool.len(), 10);
    for i in 1..10 {
        assert!(cf.constant_pool[i].is_some());
    }
}

#[test]
fn long_and_double_occupy_one_slot() {
    // this decoder gives an 8-byte constant a single logical slot, so the
    // next entry sits at the immediately following index
    let pool = [
        vec![5u8, 0, 0, 0, 1, 0, 0, 0, 2],  // 1: Long
        vec![6u8, 0x3F, 0xF0, 0, 0, 0, 0, 0, 0],  // 2: Double
        utf8_entry(b"after"),  // 3
    ];
    let cf = ClassFile::new(class_bytes(&pool, &[])).unwrap();
    match &cf.constant_pool[1] {
        Some(Constant::Long(l)) => {
            assert_eq!(l.high_bytes, 1);
            assert_eq!(l.low_bytes, 2);
        },
        other => panic!("expected a Long entry, got {:?}", other),
    }
    match &cf.constant_pool[2] {
        Some(Constant::Double(d)) => {
            assert_eq!(d.high_bytes, 0x3FF00000);
            assert_eq!(d.low_bytes, 0);
        },
        other => panic!("expected a Double entry, got {:?}", other),
    }
    match &cf.constant_pool[3] {
        Some(Constant::Utf8Info(u)) => assert_eq!(u.utf_str, b"after".to_vec()),
        other => panic!("expected a Utf8 entry, got {:?}", other),
    }
}

#[test]
fn all_constant_kinds_decode() {
    let pool = [
        utf8_entry(b"x"),            // 1
        vec![3u8, 0, 0, 0, 42],      // 2: Integer
        vec![4u8, 0x41, 0x20, 0, 0], // 3: Float bits
        vec![7u8, 0, 1],             // 4: Class
        vec![9u8, 0, 4, 0, 6],       // 5: FieldRef
        vec![12u8, 0, 1, 0, 1],      // 6: NameAndType
        vec![11u8, 0, 4, 0, 6],      // 7: InterfaceMethodRef
    ];
    let cf = ClassFile::new(class_bytes(&pool, &[])).unwrap();
    match &cf.constant_pool[2] {
        Some(Constant::Integer(i)) => assert_eq!(i.bytes, 42),
        other => panic!("expected an Integer entry, got {:?}", other),
    }
    match &cf.constant_pool[3] {
        Some(Constant::Float(f)) => assert_eq!(f.bytes, 0x41200000),
        other => panic!("expected a Float entry, got {:?}", other),
    }
    match (&cf.constant_pool[5], &cf.constant_pool[7]) {
        (Some(Constant::Ref(f)), Some(Constant::Ref(i))) => {
            assert_eq!(f.tag, 9);
            assert_eq!(f.class_index, 4);
            assert_eq!(f.name_and_type_index, 6);
            assert_eq!(i.tag, 11);
        },
        other => panic!("expected two Ref entries, got {:?}", other),
    }
}

#[test]
fn member_name_must_be_utf8() {
    // a field whose name index resolves to an Integer entry is rejected
    let pool = [
        vec![3u8, 0, 0, 0, 7], // 1: Integer
        utf8_entry(b"I"),      // 2
    ];
    let mut bytes = vec![0xCA, 0xFE, 0xBA, 0xBE, 0x00, 0x00, 0x00, 0x34];
    bytes.extend_from_slice(&3u16.to_be_bytes());
    for e in &pool {
        bytes.extend_from_slice(e);
    }
    bytes.extend_from_slice(&[0, 0, 0, 0, 0, 0, 0, 0]); // access, this, super, ifaces
    bytes.extend_from_slice(&1u16.to_be_bytes()); // fields_count
    bytes.extend_from_slice(&[0, 0]); // field access_flags
    bytes.extend_from_slice(&1u16.to_be_bytes()); // name_index -> Integer
    bytes.extend_from_slice(&2u16.to_be_bytes()); // descriptor_index
    bytes.extend_from_slice(&[0, 0]); // field attributes_count
    bytes.extend_from_slice(&[0, 0, 0, 0, 0, 0]); // methods, attributes
    assert_eq!(ClassFile::new(bytes), Err(DecodeError::WrongConstantKind));
}

#[test]
fn interfaces_are_read_in_order() {
    let pool = [utf8_entry(b"a"), vec![7u8, 0, 1], vec![7u8, 0, 1]];
    let mut bytes = vec![0xCA, 0xFE, 0xBA, 0xBE, 0x00, 0x00, 0x00, 0x34];
    bytes.extend_from_slice(&4u16.to_be_bytes());
    for e in &pool {
        bytes.extend_from_slice(e);
    }
    bytes.extend_from_slice(&[0, 0, 0, 0, 0, 0]); // access, this, super
    bytes.extend_from_slice(&2u16.to_be_bytes()); // interfaces_count
    bytes.extend_from_slice(&2u16.to_be_bytes());
    bytes.extend_from_slice(&3u16.to_be_bytes());
    bytes.extend_from_slice(&[0, 0, 0, 0, 0, 0]); // fields, methods, attributes
    let cf = ClassFile::new(bytes).unwrap();
    assert_eq!(cf.interfaces, vec![2u16, 3u16]);
}

#[test]
fn empty_input_is_truncated() {
    assert_eq!(ClassFile::new(Vec::new()), Err(DecodeError::Truncated));
}

#[test]
fn pool_count_zero_reads_no_entries() {
    // a declared count of zero leaves the pool empty, like a count of one
    let mut bytes = vec![0xCA, 0xFE, 0xBA, 0xBE, 0x00, 0x00, 0x00, 0x34];
    bytes.extend_from_slice(&0u16.to_be_bytes());
    bytes.extend_from_slice(&[0, 0, 0, 0, 0, 0, 0, 0, 0, 0, 0, 0, 0, 0]);
    let cf = ClassFile::new(bytes).unwrap();
    assert_eq!(cf.constant_pool_count, 0);
    assert_eq!(cf.constant_pool.len(), 0);
}
