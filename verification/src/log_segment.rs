//! The files of a log that make up one version of a table.

use std::sync::Arc;

use vstd::prelude::*;

use crate::actions::{sidecar_field, sidecar_field_view, Sidecar, SidecarView};
use crate::error::Error;
use crate::files::{
    scan_files_view, version_tagged, FileMeta, FileMetaView, FileType, ScanFile, ScanFileView,
};
use crate::schema::{fields_view, opt_schema_view, share, SchemaRef, SchemaView, StructType};

verus! {

/// A file of the log.
#[derive(Debug)]
pub struct LogPath {
    pub location: FileMeta,
    /// What follows the last dot of the file's name.
    pub extension: String,
    /// The log version that the file describes.
    pub version: u64,
}

/// The files that a listing of the log found.
#[derive(Debug)]
pub struct ListedLogFiles {
    /// The parts of the newest checkpoint.
    pub checkpoint_parts: Vec<LogPath>,
    /// JSON files that together hold each commit after the checkpoint once.
    pub commit_cover: Vec<LogPath>,
}

/// The files of a log that make up one version of a table.
#[derive(Debug)]
pub struct LogSegment {
    /// The URL of the log's directory.
    pub log_root: String,
    pub listed: ListedLogFiles,
    /// The schema of the checkpoint, if it is already known.
    pub checkpoint_schema: Option<SchemaRef>,
    /// All sidecars of the checkpoint, if the log's pointer to its last checkpoint lists them.
    pub checkpoint_sidecars: Option<Vec<Sidecar>>,
}

/// A table at one version.
#[derive(Debug)]
pub struct Snapshot {
    pub log_segment: LogSegment,
}

/// A file of the log as a mathematical value.
pub struct LogPathView {
    pub location: FileMetaView,
    pub extension: Seq<char>,
    pub version: int,
}

/// A log segment as a mathematical value.
pub struct LogSegmentView {
    pub log_root: Seq<char>,
    pub checkpoint_parts: Seq<LogPathView>,
    pub commit_cover: Seq<LogPathView>,
    pub checkpoint_schema: Option<SchemaView>,
    pub checkpoint_sidecars: Option<Seq<SidecarView>>,
}

impl View for LogPath {
    type V = LogPathView;

    open spec fn view(&self) -> LogPathView {
        LogPathView {
            location: self.location@,
            extension: self.extension@,
            version: self.version as int,
        }
    }
}

/// The views of a sequence of log files.
pub open spec fn log_paths_view(paths: Seq<LogPath>) -> Seq<LogPathView> {
    Seq::new(paths.len(), |i: int| paths[i]@)
}

/// The views of a sequence of sidecars.
pub open spec fn sidecars_view(sidecars: Seq<Sidecar>) -> Seq<SidecarView> {
    Seq::new(sidecars.len(), |i: int| sidecars[i]@)
}

impl View for LogSegment {
    type V = LogSegmentView;

    open spec fn view(&self) -> LogSegmentView {
        LogSegmentView {
            log_root: self.log_root@,
            checkpoint_parts: log_paths_view(self.listed.checkpoint_parts@),
            commit_cover: log_paths_view(self.listed.commit_cover@),
            checkpoint_schema: opt_schema_view(self.checkpoint_schema),
            checkpoint_sidecars: match self.checkpoint_sidecars {
                Some(sidecars) => Some(sidecars_view(sidecars@)),
                None => None,
            },
        }
    }
}

impl LogPathView {
    /// How the file is encoded, by its extension.
    pub open spec fn file_type(self) -> FileType {
        if self.extension == "json"@ {
            FileType::Json
        } else {
            FileType::Parquet
        }
    }
}

/// Files of the log, each tagged with its version; all versions must fit the version column.
pub open spec fn tag_with_versions(paths: Seq<LogPathView>) -> Result<Seq<ScanFileView>, Error> {
    if exists|i: int| 0 <= i < paths.len() && (#[trigger] paths[i]).version > i64::MAX {
        Err(Error::VersionOutOfRange)
    } else {
        Ok(
            Seq::new(
                paths.len(),
                |i: int| version_tagged(paths[i].location, paths[i].version),
            ),
        )
    }
}

/// The files that sidecars are, each tagged with the same version; the first sidecar that is no
/// file decides the error.
pub open spec fn tag_sidecars(
    sidecars: Seq<SidecarView>,
    log_root: Seq<char>,
    version: int,
) -> Result<Seq<ScanFileView>, Error>
    decreases sidecars.len(),
{
    if sidecars.len() == 0 {
        Ok(seq![])
    } else {
        match tag_sidecars(sidecars.drop_last(), log_root, version) {
            Err(e) => Err(e),
            Ok(files) => match sidecars.last().file(log_root) {
                Err(e) => Err(e),
                Ok(file) => Ok(files.push(version_tagged(file, version))),
            },
        }
    }
}

/// An error at one sidecar stays the outcome whatever sidecars follow.
pub proof fn lemma_tag_sidecars_error(
    sidecars: Seq<SidecarView>,
    log_root: Seq<char>,
    version: int,
    n: int,
)
    requires
        0 <= n <= sidecars.len(),
        tag_sidecars(sidecars.take(n), log_root, version) is Err,
    ensures
        tag_sidecars(sidecars, log_root, version) == tag_sidecars(
            sidecars.take(n),
            log_root,
            version,
        ),
    decreases sidecars.len(),
{
    if n == sidecars.len() {
        assert(sidecars.take(n) =~= sidecars);
    } else {
        assert(sidecars.drop_last().take(n) =~= sidecars.take(n));
        lemma_tag_sidecars_error(sidecars.drop_last(), log_root, version, n);
    }
}

impl LogSegmentView {
    /// The checkpoint's encoding and its parts, each tagged with its version.
    pub open spec fn tagged_checkpoint(self) -> Result<
        Option<(FileType, Seq<ScanFileView>)>,
        Error,
    > {
        if self.checkpoint_parts.len() == 0 {
            Ok(None)
        } else {
            match tag_with_versions(self.checkpoint_parts) {
                Ok(files) => Ok(Some((self.checkpoint_parts[0].file_type(), files))),
                Err(e) => Err(e),
            }
        }
    }

    /// The checkpoint's sidecars as files tagged with the checkpoint's version, if they are known
    /// without reading the checkpoint.
    pub open spec fn tagged_hint_sidecars(self) -> Result<Option<Seq<ScanFileView>>, Error> {
        match self.checkpoint_sidecars {
            Some(sidecars) if self.checkpoint_parts.len() > 0 => {
                let version = self.checkpoint_parts[0].version;
                if version > i64::MAX {
                    Err(Error::VersionOutOfRange)
                } else {
                    match tag_sidecars(sidecars, self.log_root, version) {
                        Ok(files) => Ok(Some(files)),
                        Err(e) => Err(e),
                    }
                }
            },
            _ => Ok(None),
        }
    }
}

/// The schema of a scan that reads nothing but the sidecar actions.
pub open spec fn sidecar_only_view() -> SchemaView {
    seq![sidecar_field_view()]
}

fn tag_paths(paths: &Vec<LogPath>) -> (r: Result<Vec<ScanFile>, Error>)
    ensures
        match r {
            Ok(files) => tag_with_versions(log_paths_view(paths@)) == Ok::<
                Seq<ScanFileView>,
                Error,
            >(scan_files_view(files@)),
            Err(e) => tag_with_versions(log_paths_view(paths@)) == Err::<Seq<ScanFileView>, Error>(
                e,
            ),
        },
{
    let ghost views = log_paths_view(paths@);
    let mut out: Vec<ScanFile> = Vec::new();
    let mut i: usize = 0;
    while i < paths.len()
        invariant
            i <= paths.len(),
            out.len() == i,
            views == log_paths_view(paths@),
            forall|j: int| 0 <= j < i ==> (#[trigger] views[j]).version <= i64::MAX,
            forall|j: int|
                0 <= j < i ==> (#[trigger] out@[j])@ == version_tagged(
                    views[j].location,
                    views[j].version,
                ),
        decreases paths.len() - i,
    {
        let version = paths[i].version;
        assert(views[i as int] == paths@[i as int]@);
        if version > i64::MAX as u64 {
            return Err(Error::VersionOutOfRange);
        }
        out.push(ScanFile::tagged(paths[i].location.copy(), version as i64));
        i = i + 1;
    }
    assert(scan_files_view(out@) =~= Seq::new(
        views.len(),
        |i: int| version_tagged(views[i].location, views[i].version),
    ));
    Ok(out)
}

impl LogPath {
    /// How the file is encoded, by its extension.
    pub fn file_type(&self) -> (r: FileType)
        ensures
            r == self@.file_type(),
    {
        let json = "json".to_owned();
        if self.extension == json {
            FileType::Json
        } else {
            FileType::Parquet
        }
    }
}

impl LogSegment {
    /// The schema of the checkpoint, if it is already known.
    pub fn checkpoint_schema(&self) -> (r: Option<SchemaRef>)
        ensures
            r == self.checkpoint_schema,
    {
        match &self.checkpoint_schema {
            Some(schema) => Some(share(schema)),
            None => None,
        }
    }

    /// The schema of a scan that reads nothing but the sidecar actions.
    pub fn sidecar_read_schema() -> (r: SchemaRef)
        ensures
            r@ == sidecar_only_view(),
    {
        let fields = vec![sidecar_field()];
        assert(fields_view(fields@) =~= sidecar_only_view());
        Arc::new(StructType::new_unchecked(fields))
    }

    /// The checkpoint's encoding and its parts, each tagged with its version.
    pub fn checkpoint_version_tagged_scan_files(&self) -> (r: Result<
        Option<(FileType, Vec<ScanFile>)>,
        Error,
    >)
        ensures
            match r {
                Ok(None) => self@.tagged_checkpoint() == Ok::<
                    Option<(FileType, Seq<ScanFileView>)>,
                    Error,
                >(None),
                Ok(Some((file_type, files))) => self@.tagged_checkpoint() == Ok::<
                    Option<(FileType, Seq<ScanFileView>)>,
                    Error,
                >(Some((file_type, scan_files_view(files@)))),
                Err(e) => self@.tagged_checkpoint() == Err::<
                    Option<(FileType, Seq<ScanFileView>)>,
                    Error,
                >(e),
            },
    {
        let parts = &self.listed.checkpoint_parts;
        if parts.len() == 0 {
            return Ok(None);
        }
        let files = tag_paths(parts)?;
        Ok(Some((parts[0].file_type(), files)))
    }

    /// The checkpoint's sidecars as files tagged with the checkpoint's version, if they are known
    /// without reading the checkpoint.
    pub fn checkpoint_hint_version_tagged_sidecar_scan_files(&self) -> (r: Result<
        Option<Vec<ScanFile>>,
        Error,
    >)
        ensures
            match r {
                Ok(None) => self@.tagged_hint_sidecars() == Ok::<
                    Option<Seq<ScanFileView>>,
                    Error,
                >(None),
                Ok(Some(files)) => self@.tagged_hint_sidecars() == Ok::<
                    Option<Seq<ScanFileView>>,
                    Error,
                >(Some(scan_files_view(files@))),
                Err(e) => self@.tagged_hint_sidecars() == Err::<Option<Seq<ScanFileView>>, Error>(
                    e,
                ),
            },
    {
        let sidecars = match &self.checkpoint_sidecars {
            Some(sidecars) => sidecars,
            None => {
                return Ok(None);
            },
        };
        if self.listed.checkpoint_parts.len() == 0 {
            return Ok(None);
        }
        let version = self.listed.checkpoint_parts[0].version;
        if version > i64::MAX as u64 {
            return Err(Error::VersionOutOfRange);
        }
        let ghost views = sidecars_view(sidecars@);
        let mut out: Vec<ScanFile> = Vec::new();
        let mut i: usize = 0;
        assert(scan_files_view(out@) =~= seq![]);
        while i < sidecars.len()
            invariant
                i <= sidecars.len(),
                version <= i64::MAX,
                views == sidecars_view(sidecars@),
                self@.checkpoint_sidecars == Some(views),
                self@.checkpoint_parts.len() > 0,
                self@.checkpoint_parts[0].version == version,
                tag_sidecars(views.take(i as int), self@.log_root, version as int) == Ok::<
                    Seq<ScanFileView>,
                    Error,
                >(scan_files_view(out@)),
            decreases sidecars.len() - i,
        {
            let ghost before = scan_files_view(out@);
            assert(views.take(i + 1).drop_last() =~= views.take(i as int));
            assert(views.take(i + 1).last() == sidecars@[i as int]@);
            match sidecars[i].to_filemeta(self.log_root.as_str()) {
                Ok(meta) => {
                    out.push(ScanFile::tagged(meta, version as i64));
                    assert(scan_files_view(out@) =~= before.push(
                        version_tagged(meta@, version as int),
                    ));
                },
                Err(e) => {
                    proof {
                        lemma_tag_sidecars_error(views, self@.log_root, version as int, i + 1);
                    }
                    return Err(e);
                },
            }
            i = i + 1;
        }
        assert(views.take(i as int) =~= views);
        Ok(Some(out))
    }

    /// The commit files, each tagged with its version.
    pub fn commit_cover_version_tagged_scan_files(&self) -> (r: Result<Vec<ScanFile>, Error>)
        ensures
            match r {
                Ok(files) => tag_with_versions(self@.commit_cover) == Ok::<
                    Seq<ScanFileView>,
                    Error,
                >(scan_files_view(files@)),
                Err(e) => tag_with_versions(self@.commit_cover) == Err::<Seq<ScanFileView>, Error>(
                    e,
                ),
            },
    {
        tag_paths(&self.listed.commit_cover)
    }
}

impl Snapshot {
    pub fn log_segment(&self) -> (r: &LogSegment)
        ensures
            *r == self.log_segment,
    {
        &self.log_segment
    }
}

} // verus!
