//! The files that a scan of the log reads, and the version that each is read at.

use vstd::prelude::*;

use crate::actions::SidecarView;
use crate::error::Error;
use crate::expressions::ScalarView;
use crate::files::{FileMetaView, FileType, ScanFileView};
use crate::location::url_join;
use crate::log_segment::{tag_sidecars, tag_with_versions, LogPathView, LogSegmentView};

verus! {

// --- Files of the log ---

/// A file of the log is JSON exactly if its extension says so.
pub proof fn law_file_type(path: LogPathView)
    ensures
        path.file_type() == FileType::Json <==> path.extension == "json"@,
        path.file_type() == FileType::Parquet <==> path.extension != "json"@,
{
}

/// Whether files to scan are the given files of the log: all of them, in their order, each with
/// its version as its one constant.
pub open spec fn are_tagged(files: Seq<ScanFileView>, paths: Seq<LogPathView>) -> bool {
    &&& files.len() == paths.len()
    &&& forall|i: int|
        0 <= i < paths.len() ==> {
            &&& (#[trigger] files[i]).meta == paths[i].location
            &&& files[i].constants == seq![ScalarView::Long(paths[i].version)]
        }
}

/// Files of the log are tagged without loss: every file is scanned, at its own version. That fails
/// exactly if some version does not fit the version column.
pub proof fn law_every_file_is_tagged(paths: Seq<LogPathView>)
    ensures
        match tag_with_versions(paths) {
            Ok(files) => {
                &&& are_tagged(files, paths)
                &&& forall|i: int|
                    0 <= i < paths.len() ==> (#[trigger] paths[i]).version <= i64::MAX
            },
            Err(e) => {
                &&& e == Error::VersionOutOfRange
                &&& exists|i: int| 0 <= i < paths.len() && (#[trigger] paths[i]).version > i64::MAX
            },
        },
{
}

/// All parts of a checkpoint are scanned, at their versions and in the encoding of the first.
/// Without parts there is nothing to scan.
pub proof fn law_every_part_is_tagged(segment: LogSegmentView)
    ensures
        match segment.tagged_checkpoint() {
            Ok(Some((file_type, files))) => {
                &&& segment.checkpoint_parts.len() > 0
                &&& file_type == FileType::Json <==> segment.checkpoint_parts[0].extension
                    == "json"@
                &&& are_tagged(files, segment.checkpoint_parts)
            },
            Ok(None) => segment.checkpoint_parts.len() == 0,
            Err(e) => {
                &&& e == Error::VersionOutOfRange
                &&& exists|i: int|
                    0 <= i < segment.checkpoint_parts.len() && (
                    #[trigger] segment.checkpoint_parts[i]).version > i64::MAX
            },
        },
{
    law_every_file_is_tagged(segment.checkpoint_parts);
}

// --- Sidecars ---

/// Whether a file is the given sidecar of a log: it lies where the sidecar's path leads from the
/// directory `_sidecars/` of the log, and has the sidecar's size and time.
pub open spec fn is_file_of(file: FileMetaView, sidecar: SidecarView, log_root: Seq<char>) -> bool {
    &&& url_join(log_root, "_sidecars/"@) is Some
    &&& url_join(url_join(log_root, "_sidecars/"@)->0, sidecar.path) == Some(file.location)
    &&& file.size == sidecar.size_in_bytes
    &&& file.last_modified == sidecar.modification_time
}

/// Whether a sidecar of a log is no file, for the given reason: its path leads nowhere, or it does
/// and the size is negative.
pub open spec fn is_no_file(sidecar: SidecarView, log_root: Seq<char>, e: Error) -> bool {
    let leads = url_join(log_root, "_sidecars/"@) is Some && url_join(
        url_join(log_root, "_sidecars/"@)->0,
        sidecar.path,
    ) is Some;
    ||| e == Error::InvalidUrl && !leads
    ||| e == Error::NegativeFileSize && leads && sidecar.size_in_bytes < 0
}

/// A sidecar is the file that its path leads to, or is none and the error says why.
pub proof fn law_sidecar_file(sidecar: SidecarView, log_root: Seq<char>)
    ensures
        match sidecar.file(log_root) {
            Ok(file) => is_file_of(file, sidecar, log_root) && file.size >= 0,
            Err(e) => is_no_file(sidecar, log_root, e),
        },
        forall|e: Error| #[trigger]
            is_no_file(sidecar, log_root, e) ==> sidecar.file(log_root) == Err::<
                FileMetaView,
                Error,
            >(e),
{
}

/// Whether files to scan are the given sidecars: all of them, in their order, each with the given
/// version as its one constant.
pub open spec fn are_sidecar_files(
    files: Seq<ScanFileView>,
    sidecars: Seq<SidecarView>,
    log_root: Seq<char>,
    version: int,
) -> bool {
    &&& files.len() == sidecars.len()
    &&& forall|i: int|
        0 <= i < sidecars.len() ==> {
            &&& is_file_of((#[trigger] files[i]).meta, sidecars[i], log_root)
            &&& files[i].constants == seq![ScalarView::Long(version)]
        }
}

/// Sidecars are tagged without loss: every one is scanned, at the given version. That fails exactly
/// if some sidecar is no file, and the first such sidecar says why.
pub proof fn law_every_sidecar_is_tagged(
    sidecars: Seq<SidecarView>,
    log_root: Seq<char>,
    version: int,
)
    ensures
        match tag_sidecars(sidecars, log_root, version) {
            Ok(files) => {
                &&& are_sidecar_files(files, sidecars, log_root, version)
                &&& forall|i: int|
                    0 <= i < sidecars.len() ==> (#[trigger] sidecars[i]).size_in_bytes >= 0
            },
            Err(e) => exists|i: int|
                {
                    &&& 0 <= i < sidecars.len()
                    &&& is_no_file(#[trigger] sidecars[i], log_root, e)
                    &&& forall|j: int, other: Error|
                        0 <= j < i ==> !(#[trigger] is_no_file(sidecars[j], log_root, other))
                },
        },
    decreases sidecars.len(),
{
    if sidecars.len() > 0 {
        let n = sidecars.len() - 1;
        let before = sidecars.drop_last();
        law_every_sidecar_is_tagged(before, log_root, version);
        law_sidecar_file(sidecars[n], log_root);
        match tag_sidecars(before, log_root, version) {
            Err(e) => {
                let i = choose|i: int|
                    {
                        &&& 0 <= i < before.len()
                        &&& is_no_file(#[trigger] before[i], log_root, e)
                        &&& forall|j: int, other: Error|
                            0 <= j < i ==> !(#[trigger] is_no_file(before[j], log_root, other))
                    };
                assert(is_no_file(sidecars[i], log_root, e));
                assert forall|j: int, other: Error| 0 <= j < i implies !(#[trigger] is_no_file(
                    sidecars[j],
                    log_root,
                    other,
                )) by {
                    assert(sidecars[j] == before[j]);
                }
            },
            Ok(files) => {
                assert forall|j: int, other: Error| 0 <= j < n implies !(#[trigger] is_no_file(
                    sidecars[j],
                    log_root,
                    other,
                )) by {
                    assert(sidecars[j] == before[j]);
                    assert(is_file_of(files[j].meta, before[j], log_root));
                }
                if let Ok(all) = tag_sidecars(sidecars, log_root, version) {
                    assert forall|i: int| 0 <= i < sidecars.len() implies is_file_of(
                        (#[trigger] all[i]).meta,
                        sidecars[i],
                        log_root,
                    ) && all[i].constants == seq![ScalarView::Long(version)] by {
                        if i < n {
                            assert(all[i] == files[i]);
                            assert(before[i] == sidecars[i]);
                        }
                    }
                    assert forall|i: int| 0 <= i < sidecars.len() implies (
                    #[trigger] sidecars[i]).size_in_bytes >= 0 by {
                        if i < n {
                            assert(before[i] == sidecars[i]);
                        }
                    }
                }
            },
        }
    }
}

/// The sidecars that the hint lists are all scanned, at the version of the checkpoint. There are
/// none to scan exactly if there is no hint or no checkpoint.
pub proof fn law_every_hint_sidecar_is_tagged(segment: LogSegmentView)
    ensures
        match segment.tagged_hint_sidecars() {
            Ok(Some(files)) => {
                &&& segment.checkpoint_sidecars is Some
                &&& segment.checkpoint_parts.len() > 0
                &&& segment.checkpoint_parts[0].version <= i64::MAX
                &&& are_sidecar_files(
                    files,
                    segment.checkpoint_sidecars->0,
                    segment.log_root,
                    segment.checkpoint_parts[0].version,
                )
            },
            Ok(None) => segment.checkpoint_sidecars is None || segment.checkpoint_parts.len() == 0,
            Err(e) => {
                &&& segment.checkpoint_sidecars is Some
                &&& segment.checkpoint_parts.len() > 0
                &&& if segment.checkpoint_parts[0].version > i64::MAX {
                    e == Error::VersionOutOfRange
                } else {
                    exists|i: int|
                        {
                            &&& 0 <= i < segment.checkpoint_sidecars->0.len()
                            &&& is_no_file(
                                #[trigger] segment.checkpoint_sidecars->0[i],
                                segment.log_root,
                                e,
                            )
                        }
                }
            },
        },
{
    if segment.checkpoint_sidecars is Some && segment.checkpoint_parts.len() > 0 {
        law_every_sidecar_is_tagged(
            segment.checkpoint_sidecars->0,
            segment.log_root,
            segment.checkpoint_parts[0].version,
        );
    }
}

} // verus!
