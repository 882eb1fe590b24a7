//! Schema-driven bridging between spreadsheet-style rows and the textual
//! record-definition language used for EPICS process-variable databases.
//!
//! The crate has two engines that share one schema model:
//!
//! * record projection: a registered type descriptor plus a list of runtime
//!   values is turned into one or more `record(<type>, "<name>") { ... }`
//!   text blocks;
//! * row deserialization: an ordered row of typed cell values is consumed,
//!   field by field, into a typed object or a located parse error.
//!
//! Schemas are validated once, at registration; both engines then work on
//! the immutable descriptors.

pub mod cell;
pub mod error;
pub mod laws;
pub mod record;
pub mod row;
pub mod schema;
pub mod text;
pub mod value;

pub use cell::CellValue;
pub use error::Context;
pub use error::ParseError;
pub use error::ParseErrorKind;
pub use error::XlsxLocation;
pub use row::RowError;
pub use schema::AttrKey;
pub use schema::AttrLoc;
pub use schema::AttrScope;
pub use schema::ElemType;
pub use schema::FieldDecl;
pub use schema::FieldMeta;
pub use schema::FieldProps;
pub use schema::SchemaError;
pub use schema::StructMeta;
pub use schema::TypeDecl;
pub use schema::TypeProps;
pub use schema::occurrence_error;
pub use schema::rec_def_error;
pub use schema::register_type;
pub use value::ReprTarget;
pub use value::Value;
