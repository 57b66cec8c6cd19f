//! Files of a table, and how a plan names them.

use vstd::prelude::*;

use crate::expressions::{Scalar, ScalarView};

verus! {

/// How a file of actions is encoded.
#[derive(Debug, Clone, Copy, PartialEq, Eq, Structural)]
pub enum FileType {
    Json,
    Parquet,
}

/// A file and what is known of it without reading it.
#[derive(Debug, PartialEq)]
pub struct FileMeta {
    /// The absolute URL of the file.
    pub location: String,
    /// When the file was last modified, in milliseconds since the epoch.
    pub last_modified: i64,
    /// The size in bytes.
    pub size: u64,
}

/// A file as a mathematical value.
pub struct FileMetaView {
    pub location: Seq<char>,
    pub last_modified: int,
    pub size: int,
}

/// A file to scan, with the values of the scan's file-constant columns for it.
#[derive(Debug, PartialEq)]
pub struct ScanFile {
    pub meta: FileMeta,
    pub constants: Vec<Scalar>,
}

/// A file to scan as a mathematical value.
pub struct ScanFileView {
    pub meta: FileMetaView,
    pub constants: Seq<ScalarView>,
}

impl View for FileMeta {
    type V = FileMetaView;

    open spec fn view(&self) -> FileMetaView {
        FileMetaView {
            location: self.location@,
            last_modified: self.last_modified as int,
            size: self.size as int,
        }
    }
}

/// The views of a sequence of constants.
pub open spec fn scalars_view(s: Seq<Scalar>) -> Seq<ScalarView> {
    Seq::new(s.len(), |i: int| s[i]@)
}

impl View for ScanFile {
    type V = ScanFileView;

    open spec fn view(&self) -> ScanFileView {
        ScanFileView { meta: self.meta@, constants: scalars_view(self.constants@) }
    }
}

/// The views of a sequence of files to scan.
pub open spec fn scan_files_view(files: Seq<ScanFile>) -> Seq<ScanFileView> {
    Seq::new(files.len(), |i: int| files[i]@)
}

/// A file to scan that is tagged with a log version.
pub open spec fn version_tagged(meta: FileMetaView, version: int) -> ScanFileView {
    ScanFileView { meta, constants: seq![ScalarView::Long(version)] }
}

impl FileMeta {
    /// A copy of the file's description.
    pub fn copy(&self) -> (r: FileMeta)
        ensures
            r@ == self@,
    {
        FileMeta {
            location: self.location.clone(),
            last_modified: self.last_modified,
            size: self.size,
        }
    }
}

impl ScanFile {
    /// A file to scan without file-constant columns.
    pub fn plain(meta: FileMeta) -> (r: ScanFile)
        ensures
            r@ == (ScanFileView { meta: meta@, constants: seq![] }),
    {
        let constants: Vec<Scalar> = Vec::new();
        assert(scalars_view(constants@) =~= seq![]);
        ScanFile { meta, constants }
    }

    /// A file to scan that is tagged with a log version.
    pub fn tagged(meta: FileMeta, version: i64) -> (r: ScanFile)
        ensures
            r@ == version_tagged(meta@, version as int),
    {
        let constants = vec![Scalar::Long(version)];
        assert(scalars_view(constants@) =~= seq![ScalarView::Long(version as int)]);
        ScanFile { meta, constants }
    }
}

} // verus!
