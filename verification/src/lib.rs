//! A decoder for the ObjectProperty binary format: a schema-driven,
//! bit-packed and optionally zlib-compressed encoding of typed object
//! graphs.
//!
//! The crate is organised leaves first: [`reader`] holds the bit cursor,
//! [`flags`] the stream and property flag sets, [`type_list`] the type
//! registry, [`value`] the decoded value tree and [`type_tag`] the two ways
//! an object's identity is written. [`framing`] and [`format`] say, as
//! mathematical functions, how a buffer is framed and what its bits mean;
//! [`serialization`] holds the decode engine, which is proved to compute
//! them.

pub mod endian;
pub mod error;
pub mod flags;
pub mod format;
pub mod framing;
pub mod reader;
pub mod serialization;
pub mod type_list;
pub mod type_tag;
pub mod value;
pub mod zlib;

pub use crate::error::DecodeError;
pub use crate::flags::{PropertyFlags, SerializerFlags};
pub use crate::reader::BitReader;
pub use crate::serialization::{deserialize_buffer, Deserializer, DeserializerOptions};
pub use crate::type_list::{BitWidth, Primitive, Property, PropertyType, TypeDef, TypeList};
pub use crate::type_tag::{CoreObject, PropertyClass, TypeTag};
pub use crate::value::{Field, Value, ValueView};
