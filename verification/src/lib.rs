//! A read-only virtual filesystem that projects columnar data files
//! (`arrow`, `parquet`, `feather`) found under a source directory as
//! empty virtual directories, one per discovered table.

pub mod common_schema;
pub mod file_discovery;
pub mod filesystem;
pub mod naming;

pub use common_schema::FileFormat;
pub use common_schema::SchemaInspectable;
pub use common_schema::TableField;
pub use common_schema::TableSchema;

pub use file_discovery::discover_data_files;
pub use file_discovery::is_hidden;
pub use file_discovery::FsNode;

pub use filesystem::DirEntry;
pub use filesystem::Entry;
pub use filesystem::FileAttr;
pub use filesystem::FileKind;
pub use filesystem::FsError;
pub use filesystem::MAX_LISTING;
pub use filesystem::QuiverFS;
pub use filesystem::ROOT_INO;
pub use filesystem::TTL_SECONDS;
