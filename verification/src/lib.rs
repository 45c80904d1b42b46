//! A verified decoder for the classfile container format: a raw byte stream
//! is turned into a structured `ClassFile` value (header, constant pool,
//! inheritance references, field and method tables, and a nested,
//! self-describing attribute system), or rejected with one `DecodeError`.
//!
//! Every decoder is proved equal to a specification-level parser over the
//! input byte sequence, so the result of a decode is pinned down exactly,
//! decoding the same bytes twice yields structurally equal values, every
//! attribute body consumes exactly its declared length, and a successfully
//! decoded constant pool has no dangling index fields.

pub mod annotations;
pub mod attributes;
pub mod class_file;
pub mod constant_pool;
pub mod cursor;
pub mod error;
pub mod fields;
pub mod interfaces;
pub mod methods;

pub use class_file::ClassFile;
pub use cursor::ByteCursor;
pub use error::DecodeError;
