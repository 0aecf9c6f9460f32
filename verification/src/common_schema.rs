//! The normalized schema model produced by the format-specific
//! schema inspectors: a flat list of fields, each with a name, a type
//! label and a nullability flag, tagged with the file format it came
//! from.
//!
//! The filesystem layer never reads file contents; it interacts with
//! inspection only through this model. The inspectors themselves read
//! files on disk and therefore live outside the verified crate; they
//! implement [`SchemaInspectable`].

use vstd::prelude::*;

verus! {

/// The supported columnar file formats.
#[derive(Debug, Clone, PartialEq, Eq, Structural)]
pub enum FileFormat {
    Arrow,
    Parquet,
}

/// One field of a table schema.
#[derive(Debug, Clone, PartialEq, Eq)]
pub struct TableField {
    pub name: String,
    pub data_type: String,
    pub nullable: bool,
}

/// A normalized table schema: the fields in declaration order, and
/// the format of the file they were read from.
#[derive(Debug, Clone, PartialEq, Eq)]
pub struct TableSchema {
    pub fields: Vec<TableField>,
    pub format: FileFormat,
}

/// The capability of reading the schema of a data file at `path`,
/// returning the normalized model or a message naming why the file
/// could not be parsed. Format-specific inspectors implement this.
pub trait SchemaInspectable {
    fn inspect_schema(path: &str) -> Result<TableSchema, String>;
}

} // verus!
