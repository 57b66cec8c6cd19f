//! When a metadata scan has a plan, and when it fails to have one.

use std::sync::Arc;

use vstd::prelude::*;

use crate::arm_laws::{checkpoint_error, checkpoint_file_count, law_checkpoint_arm, law_commit_arm};
use crate::checkpoint_shape::{CheckpointType, ShapeView};
use crate::error::Error;
use crate::expressions::PredicateView;
use crate::location::url_join;
use crate::log_laws::{
    is_file_of, is_no_file, law_every_file_is_tagged, law_every_hint_sidecar_is_tagged,
    law_every_part_is_tagged, law_every_sidecar_is_tagged,
};
use crate::log_segment::LogPathView;
use crate::plan::Plan;
use crate::replay_laws::{law_plan_reconciles, plan_error};
use crate::scan_plan::{
    checkpoint_relation, commit_relation, metadata_relation, plans, returns_live_adds, ScanView,
};
use crate::semantics::{empty_engine, is_sound, rows_of, rows_of_plan, Engine};

verus! {

/// Whether the version of some file does not fit the version column.
pub open spec fn has_late_version(paths: Seq<LogPathView>) -> bool {
    exists|i: int| 0 <= i < paths.len() && (#[trigger] paths[i]).version > i64::MAX
}

/// Whether a checkpoint cannot be read, for the given reason: a version does not fit; or the
/// sidecars of a manifest are listed and one of them is no file, or are not listed and their
/// directory has no location.
pub open spec fn checkpoint_fails(scan: ScanView, shape: ShapeView, e: Error) -> bool {
    let segment = scan.segment;
    &&& segment.checkpoint_parts.len() > 0
    &&& if has_late_version(segment.checkpoint_parts) {
        e == Error::VersionOutOfRange
    } else {
        &&& shape.checkpoint_type == CheckpointType::Manifest
        &&& match segment.checkpoint_sidecars {
            Some(sidecars) => exists|i: int|
                0 <= i < sidecars.len() && is_no_file(#[trigger] sidecars[i], segment.log_root, e),
            None => e == Error::InvalidUrl && url_join(segment.log_root, "_sidecars/"@) is None,
        }
    }
}

/// Whether a scan has no plan, for the given reason: it is to return parsed statistics and parses
/// none; or the version of a commit does not fit; or the checkpoint cannot be read.
pub open spec fn plan_fails(scan: ScanView, shape: ShapeView, e: Error) -> bool {
    if scan.stats_output_schema is Some && scan.stats_schema is None {
        e == Error::UnknownColumn
    } else if has_late_version(scan.segment.commit_cover) {
        e == Error::VersionOutOfRange
    } else {
        checkpoint_fails(scan, shape, e)
    }
}

/// Whether there is nothing to read: no commits, and no checkpoint or one whose hint lists no
/// sidecars although it is a manifest.
pub open spec fn nothing_to_read(scan: ScanView, shape: ShapeView) -> bool {
    &&& scan.segment.commit_cover.len() == 0
    &&& {
        ||| scan.segment.checkpoint_parts.len() == 0
        ||| shape.checkpoint_type == CheckpointType::Absent
        ||| shape.checkpoint_type == CheckpointType::Manifest && (
        scan.segment.checkpoint_sidecars matches Some(sidecars) && sidecars.len() == 0)
    }
}

/// A checkpoint cannot be read exactly if there is a reason, and the reason is the error.
pub proof fn law_checkpoint_failures(scan: ScanView, shape: ShapeView)
    ensures
        match checkpoint_relation(scan, shape) {
            Ok(_) => {
                &&& checkpoint_error(scan, shape) is None
                &&& forall|e: Error| !(#[trigger] checkpoint_fails(scan, shape, e))
            },
            Err(e) => checkpoint_fails(scan, shape, e) && checkpoint_error(scan, shape) == Some(e),
        },
{
    let segment = scan.segment;
    assert(is_sound(empty_engine()));
    law_checkpoint_arm(empty_engine(), scan, shape);
    law_every_part_is_tagged(segment);
    law_every_hint_sidecar_is_tagged(segment);
    if checkpoint_relation(scan, shape) is Ok {
        assert forall|e: Error| !(#[trigger] checkpoint_fails(scan, shape, e)) by {
            if checkpoint_fails(scan, shape, e) {
                assert(!has_late_version(segment.checkpoint_parts)) by {
                    law_every_file_is_tagged(segment.checkpoint_parts);
                }
                if let Some(sidecars) = segment.checkpoint_sidecars {
                    let i = choose|i: int|
                        0 <= i < sidecars.len() && is_no_file(
                            #[trigger] sidecars[i],
                            segment.log_root,
                            e,
                        );
                    let files = segment.tagged_hint_sidecars()->Ok_0->0;
                    law_every_sidecar_is_tagged(
                        sidecars,
                        segment.log_root,
                        segment.checkpoint_parts[0].version,
                    );
                    assert(is_file_of(
                        files[i].meta,
                        sidecars[i],
                        segment.log_root,
                    ));
                }
            }
        }
    } else {
        law_every_file_is_tagged(segment.checkpoint_parts);
    }
}

/// The commits cannot be read exactly if the version of one does not fit.
pub proof fn law_commit_failures(scan: ScanView)
    ensures
        match commit_relation(scan) {
            Ok(_) => !has_late_version(scan.segment.commit_cover),
            Err(e) => e == Error::VersionOutOfRange && has_late_version(scan.segment.commit_cover),
        },
{
    assert(is_sound(empty_engine()));
    law_commit_arm(empty_engine(), scan);
    law_every_file_is_tagged(scan.segment.commit_cover);
}

/// A scan has a relation of live adds exactly if there is no reason against it, and the reason is
/// the error. Its relation is empty without a plan exactly if there is nothing to read.
pub proof fn law_plan_failures(scan: ScanView, shape: ShapeView, prune: Option<PredicateView>)
    ensures
        match metadata_relation(scan, shape, prune) {
            Ok(relation) => {
                &&& plan_error(scan, shape) is None
                &&& forall|e: Error| !(#[trigger] plan_fails(scan, shape, e))
                &&& relation.plan is None <==> nothing_to_read(scan, shape)
            },
            Err(e) => plan_fails(scan, shape, e) && plan_error(scan, shape) == Some(e),
        },
        checkpoint_file_count(scan, shape) == 0 && scan.segment.commit_cover.len() == 0
            <==> nothing_to_read(scan, shape),
{
    assert(is_sound(empty_engine()));
    law_plan_reconciles(empty_engine(), scan, shape, prune);
    law_commit_arm(empty_engine(), scan);
    law_checkpoint_arm(empty_engine(), scan, shape);
    law_checkpoint_failures(scan, shape);
    law_commit_failures(scan);
}

/// A plan that is built is the one of the live adds: on every engine it yields their rows, and
/// where there is no plan there are no rows. It is not built exactly if the relation is not, for
/// the same reason.
pub proof fn law_plan_is_of_the_relation(
    r: Result<Option<Arc<Plan>>, Error>,
    scan: ScanView,
    shape: ShapeView,
    prune: Option<PredicateView>,
)
    requires
        plans(r, metadata_relation(scan, shape, prune)),
    ensures
        match (r, metadata_relation(scan, shape, prune)) {
            (Ok(plan), Ok(relation)) => {
                &&& plan is None <==> relation.plan is None
                &&& forall|engine: Engine|
                    is_sound(engine) ==> #[trigger] rows_of(engine, relation) == (match plan {
                        Some(p) => rows_of_plan(engine, p@),
                        None => seq![],
                    })
            },
            (Err(e), Err(f)) => e == f,
            _ => false,
        },
{
}

/// A plan that returns the live adds yields the rows of the relation of live adds, on every engine.
pub proof fn law_live_adds_are_the_relation(
    plan: Option<Arc<Plan>>,
    scan: ScanView,
    shape: ShapeView,
    prune: Option<PredicateView>,
    engine: Engine,
)
    requires
        returns_live_adds(plan, scan, shape, prune),
        metadata_relation(scan, shape, prune) is Ok,
        is_sound(engine),
    ensures
        rows_of(engine, metadata_relation(scan, shape, prune)->Ok_0) == (match plan {
            Some(p) => rows_of_plan(engine, p@),
            None => seq![],
        }),
{
    law_plan_reconciles(engine, scan, shape, prune);
}

} // verus!
