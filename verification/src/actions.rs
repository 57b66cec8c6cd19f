//! The actions of a table's log: their schemas, and the sidecar action.

use vstd::prelude::*;

use crate::error::Error;
use crate::files::{FileMeta, FileMetaView};
use crate::location::{join_location, url_join};
use crate::schema::{
    boolean_type, fields_view, integer_type, long_type, nullable_field, required_field,
    text_map_type, text_type, DataType, DataTypeView, FieldView, PrimitiveType, SchemaView,
    StructField, StructType,
};

verus! {

pub const ADD_NAME: &'static str = "add";

pub const REMOVE_NAME: &'static str = "remove";

pub const SIDECAR_NAME: &'static str = "sidecar";

pub const STATS_PARSED: &'static str = "stats_parsed";

pub const PARTITION_VALUES_PARSED: &'static str = "partitionValues_parsed";

/// The directory below the log that holds the sidecars of its checkpoints.
pub const SIDECAR_DIRECTORY: &'static str = "_sidecars/";

/// The children of a deletion vector descriptor.
pub open spec fn deletion_vector_view() -> SchemaView {
    seq![
        required_field("storageType"@, text_type()),
        required_field("pathOrInlineDv"@, text_type()),
        nullable_field("offset"@, integer_type()),
        required_field("sizeInBytes"@, integer_type()),
        required_field("cardinality"@, long_type()),
    ]
}

/// The children of an add action.
pub open spec fn add_view() -> SchemaView {
    seq![
        required_field("path"@, text_type()),
        required_field("partitionValues"@, text_map_type()),
        required_field("size"@, long_type()),
        required_field("modificationTime"@, long_type()),
        required_field("dataChange"@, boolean_type()),
        nullable_field("stats"@, text_type()),
        nullable_field("tags"@, text_map_type()),
        nullable_field("deletionVector"@, DataTypeView::Struct(deletion_vector_view())),
        nullable_field("baseRowId"@, long_type()),
        nullable_field("defaultRowCommitVersion"@, long_type()),
        nullable_field("clusteringProvider"@, text_type()),
    ]
}

/// The children of a remove action.
pub open spec fn remove_view() -> SchemaView {
    seq![
        required_field("path"@, text_type()),
        nullable_field("deletionTimestamp"@, long_type()),
        required_field("dataChange"@, boolean_type()),
        nullable_field("extendedFileMetadata"@, boolean_type()),
        nullable_field("partitionValues"@, text_map_type()),
        nullable_field("size"@, long_type()),
        nullable_field("stats"@, text_type()),
        nullable_field("tags"@, text_map_type()),
        nullable_field("deletionVector"@, DataTypeView::Struct(deletion_vector_view())),
        nullable_field("baseRowId"@, long_type()),
        nullable_field("defaultRowCommitVersion"@, long_type()),
    ]
}

/// The children of a sidecar action.
pub open spec fn sidecar_view() -> SchemaView {
    seq![
        required_field("path"@, text_type()),
        required_field("sizeInBytes"@, long_type()),
        required_field("modificationTime"@, long_type()),
        nullable_field("tags"@, text_map_type()),
    ]
}

/// The column of remove actions in the union of actions.
pub open spec fn remove_field_view() -> FieldView {
    nullable_field(REMOVE_NAME@, DataTypeView::Struct(remove_view()))
}

/// The column of sidecar actions in the union of actions.
pub open spec fn sidecar_field_view() -> FieldView {
    nullable_field(SIDECAR_NAME@, DataTypeView::Struct(sidecar_view()))
}

fn text() -> (r: DataType)
    ensures
        r@ == text_type(),
{
    DataType::Primitive(PrimitiveType::Text)
}

fn long() -> (r: DataType)
    ensures
        r@ == long_type(),
{
    DataType::Primitive(PrimitiveType::Long)
}

fn integer() -> (r: DataType)
    ensures
        r@ == integer_type(),
{
    DataType::Primitive(PrimitiveType::Integer)
}

fn boolean() -> (r: DataType)
    ensures
        r@ == boolean_type(),
{
    DataType::Primitive(PrimitiveType::Boolean)
}

/// The type of a deletion vector descriptor.
pub fn deletion_vector_type() -> (r: DataType)
    ensures
        r@ == DataTypeView::Struct(deletion_vector_view()),
{
    let fields = vec![
        StructField::not_null("storageType", text()),
        StructField::not_null("pathOrInlineDv", text()),
        StructField::nullable("offset", integer()),
        StructField::not_null("sizeInBytes", integer()),
        StructField::not_null("cardinality", long()),
    ];
    assert(fields_view(fields@) =~= deletion_vector_view());
    DataType::struct_of(fields)
}

/// The schema of an add action.
pub fn add_schema() -> (r: StructType)
    ensures
        r@ == add_view(),
{
    let fields = vec![
        StructField::not_null("path", text()),
        StructField::not_null("partitionValues", DataType::text_map()),
        StructField::not_null("size", long()),
        StructField::not_null("modificationTime", long()),
        StructField::not_null("dataChange", boolean()),
        StructField::nullable("stats", text()),
        StructField::nullable("tags", DataType::text_map()),
        StructField::nullable("deletionVector", deletion_vector_type()),
        StructField::nullable("baseRowId", long()),
        StructField::nullable("defaultRowCommitVersion", long()),
        StructField::nullable("clusteringProvider", text()),
    ];
    assert(fields_view(fields@) =~= add_view());
    StructType::new_unchecked(fields)
}

/// The column of remove actions in the union of actions.
pub fn remove_field() -> (r: StructField)
    ensures
        r@ == remove_field_view(),
{
    let fields = vec![
        StructField::not_null("path", text()),
        StructField::nullable("deletionTimestamp", long()),
        StructField::not_null("dataChange", boolean()),
        StructField::nullable("extendedFileMetadata", boolean()),
        StructField::nullable("partitionValues", DataType::text_map()),
        StructField::nullable("size", long()),
        StructField::nullable("stats", text()),
        StructField::nullable("tags", DataType::text_map()),
        StructField::nullable("deletionVector", deletion_vector_type()),
        StructField::nullable("baseRowId", long()),
        StructField::nullable("defaultRowCommitVersion", long()),
    ];
    assert(fields_view(fields@) =~= remove_view());
    StructField::nullable(REMOVE_NAME, DataType::struct_of(fields))
}

/// The column of sidecar actions in the union of actions.
pub fn sidecar_field() -> (r: StructField)
    ensures
        r@ == sidecar_field_view(),
{
    let fields = vec![
        StructField::not_null("path", text()),
        StructField::not_null("sizeInBytes", long()),
        StructField::not_null("modificationTime", long()),
        StructField::nullable("tags", DataType::text_map()),
    ];
    assert(fields_view(fields@) =~= sidecar_view());
    StructField::nullable(SIDECAR_NAME, DataType::struct_of(fields))
}

/// A reference to a file of actions that belongs to a checkpoint.
#[derive(Debug, PartialEq)]
pub struct Sidecar {
    /// Where the file lies, as a URL reference from the sidecar directory of the log.
    pub path: String,
    pub size_in_bytes: i64,
    pub modification_time: i64,
}

/// A sidecar as a mathematical value.
pub struct SidecarView {
    pub path: Seq<char>,
    pub size_in_bytes: int,
    pub modification_time: int,
}

impl View for Sidecar {
    type V = SidecarView;

    open spec fn view(&self) -> SidecarView {
        SidecarView {
            path: self.path@,
            size_in_bytes: self.size_in_bytes as int,
            modification_time: self.modification_time as int,
        }
    }
}

/// Where a sidecar of the given path lies, in a log at the given location.
pub open spec fn sidecar_location(log_root: Seq<char>, path: Seq<char>) -> Option<Seq<char>> {
    match url_join(log_root, SIDECAR_DIRECTORY@) {
        Some(directory) => url_join(directory, path),
        None => None,
    }
}

impl SidecarView {
    /// The file that this sidecar is, lying at the given location.
    pub open spec fn file_at(self, location: Seq<char>) -> FileMetaView {
        FileMetaView { location, last_modified: self.modification_time, size: self.size_in_bytes }
    }

    /// The file that this sidecar of a log at the given location is, or why there is none: its
    /// location cannot be resolved, or its size is negative.
    pub open spec fn file(self, log_root: Seq<char>) -> Result<FileMetaView, Error> {
        match sidecar_location(log_root, self.path) {
            Some(location) => if self.size_in_bytes >= 0 {
                Ok(self.file_at(location))
            } else {
                Err(Error::NegativeFileSize)
            },
            None => Err(Error::InvalidUrl),
        }
    }
}

impl Sidecar {
    /// The file that this sidecar is, lying at the given location.
    pub fn filemeta_at(&self, location: String) -> (r: Result<FileMeta, Error>)
        ensures
            r is Ok <==> self@.size_in_bytes >= 0,
            r matches Ok(meta) ==> meta@ == self@.file_at(location@),
            r matches Err(e) ==> e == Error::NegativeFileSize,
    {
        if self.size_in_bytes < 0 {
            return Err(Error::NegativeFileSize);
        }
        Ok(
            FileMeta {
                location,
                last_modified: self.modification_time,
                size: self.size_in_bytes as u64,
            },
        )
    }

    /// The file that this sidecar of a log at the given location is.
    pub fn to_filemeta(&self, log_root: &str) -> (r: Result<FileMeta, Error>)
        ensures
            match r {
                Ok(meta) => self@.file(log_root@) == Ok::<FileMetaView, Error>(meta@),
                Err(e) => self@.file(log_root@) == Err::<FileMetaView, Error>(e),
            },
    {
        let directory = join_location(log_root, SIDECAR_DIRECTORY)?;
        let location = join_location(directory.as_str(), self.path.as_str())?;
        self.filemeta_at(location)
    }
}

} // verus!
