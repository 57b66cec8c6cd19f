//! What holds of every resolution of a checkpoint's shape.

use vstd::prelude::*;

use crate::actions::SIDECAR_NAME;
use crate::checkpoint_shape::{
    footer_of, is_fruitless, left_before, resolves, resolves_scan, sidecar_in, until_footer,
    CheckpointShape, CheckpointType,
};
use crate::error::Error;
use crate::executor::Exchange;
use crate::files::{FileMetaView, FileType};
use crate::log_segment::LogSegment;
use crate::schema::{has_field, SchemaRef};
use crate::stats_rules::StatsRules;

verus! {

/// Without checkpoint files there is no checkpoint, no parsed statistics, and nothing is asked.
pub proof fn law_no_checkpoint<R: StatsRules, B>(
    segment: &LogSegment,
    stats_schema: Option<SchemaRef>,
    asked: Seq<Exchange<B>>,
    outcome: Result<CheckpointShape, Error>,
)
    requires
        resolves::<R, B>(segment, stats_schema, asked, outcome),
        segment.listed.checkpoint_parts.len() == 0,
    ensures
        asked.len() == 0,
        outcome matches Ok(shape) && shape.checkpoint_type == CheckpointType::Absent
            && shape.parsed_stats_schema is None,
{
}

/// With checkpoint files, the checkpoint is a leaf or a manifest.
pub proof fn law_checkpoint_has_a_type<R: StatsRules, B>(
    segment: &LogSegment,
    stats_schema: Option<SchemaRef>,
    asked: Seq<Exchange<B>>,
    outcome: Result<CheckpointShape, Error>,
)
    requires
        resolves::<R, B>(segment, stats_schema, asked, outcome),
        segment.listed.checkpoint_parts.len() > 0,
    ensures
        outcome matches Ok(shape) ==> shape.checkpoint_type != CheckpointType::Absent,
{
}

/// A hint of sidecars decides the type without a look at the checkpoint: a manifest if it lists
/// some, a leaf if it lists none. No more than one footer is read, no file is scanned, and nothing
/// at all is asked if no statistics are wanted.
pub proof fn law_hint_decides<R: StatsRules, B>(
    segment: &LogSegment,
    stats_schema: Option<SchemaRef>,
    asked: Seq<Exchange<B>>,
    outcome: Result<CheckpointShape, Error>,
)
    requires
        resolves::<R, B>(segment, stats_schema, asked, outcome),
        segment.listed.checkpoint_parts.len() > 0,
        segment.checkpoint_sidecars is Some,
    ensures
        outcome matches Ok(shape) ==> shape.checkpoint_type == (
        if segment.checkpoint_sidecars->0.len() > 0 {
            CheckpointType::Manifest
        } else {
            CheckpointType::Leaf
        }),
        asked.len() <= 1,
        forall|i: int| 0 <= i < asked.len() ==> (#[trigger] asked[i]) is Footer,
        stats_schema is None ==> asked.len() == 0,
{
}

/// The parsed statistics of a shape are the wanted ones, or none. Where none are wanted, there are
/// none.
pub proof fn law_parsed_stats_are_wanted<R: StatsRules, B>(
    segment: &LogSegment,
    stats_schema: Option<SchemaRef>,
    asked: Seq<Exchange<B>>,
    outcome: Result<CheckpointShape, Error>,
)
    requires
        resolves::<R, B>(segment, stats_schema, asked, outcome),
    ensures
        outcome matches Ok(shape) ==> shape.parsed_stats_schema is None
            || shape.parsed_stats_schema == stats_schema,
{
}

/// A JSON leaf has no schema to read, so it has no parsed statistics.
pub proof fn law_json_leaf_has_no_parsed_stats<R: StatsRules, B>(
    segment: &LogSegment,
    stats_schema: Option<SchemaRef>,
    asked: Seq<Exchange<B>>,
    outcome: Result<CheckpointShape, Error>,
)
    requires
        resolves::<R, B>(segment, stats_schema, asked, outcome),
        segment.listed.checkpoint_parts.len() > 0,
        segment@.checkpoint_parts[0].file_type() == FileType::Json,
    ensures
        outcome matches Ok(shape) ==> shape.checkpoint_type == CheckpointType::Leaf
            ==> shape.parsed_stats_schema is None,
{
}

/// What the requests of a resolution that scans the sidecar column look like, from the scan on.
proof fn lemma_scan_shape<R: StatsRules, B>(
    segment: &LogSegment,
    root: FileMetaView,
    file_type: FileType,
    leaf_schema: Option<SchemaRef>,
    stats_schema: Option<SchemaRef>,
    asked: Seq<Exchange<B>>,
    outcome: Result<CheckpointShape, Error>,
)
    requires
        resolves_scan::<R, B>(
            segment,
            root,
            file_type,
            leaf_schema,
            stats_schema,
            asked,
            outcome,
        ),
    ensures
        ({
            let n = until_footer(asked) as int;
            &&& 1 <= n <= asked.len() <= n + 1
            &&& asked[0] is Query
            &&& forall|i: int| 1 <= i < n ==> (#[trigger] asked[i]) is Batch
            &&& forall|i: int| 1 <= i < n - 1 ==> is_fruitless(#[trigger] asked[i])
            &&& forall|i: int, j: int|
                0 <= i && j == i + 1 && j < n ==> comes_next(
                    #[trigger] asked[i],
                    #[trigger] asked[j],
                )
            &&& asked.len() > n ==> asked[n] is Footer
            &&& outcome matches Ok(shape) ==> (shape.checkpoint_type == CheckpointType::Manifest
                <==> n > 1 && has_sidecar(asked[n - 1]))
        }),
{
    let n = until_footer(asked) as int;
    lemma_until_footer_len(asked);
    let scan = asked.take(n);
    let pulls = scan.skip(1);
    assert(scan[0] == asked[0]);
    assert forall|i: int| 1 <= i < n implies (#[trigger] asked[i]) is Batch by {
        assert(asked[i] == pulls[i - 1]);
        if i < n - 1 {
            assert(is_fruitless(pulls[i - 1]));
        }
    }
    assert forall|i: int| 1 <= i < n - 1 implies is_fruitless(#[trigger] asked[i]) by {
        assert(asked[i] == pulls[i - 1]);
    }
    assert forall|i: int, j: int| 0 <= i && j == i + 1 && j < n implies comes_next(
        #[trigger] asked[i],
        #[trigger] asked[j],
    ) by {
        assert(asked[j] == pulls[j - 1]);
        if i > 0 {
            assert(asked[i] == pulls[i - 1]);
        }
    }
    if asked.len() > n {
        assert(asked.skip(n)[0] == asked[n]);
    }
    if n > 1 {
        assert(pulls.last() == asked[n - 1]);
    }
}

/// No more requests are made before the first for a footer than are made at all.
proof fn lemma_until_footer_len<B>(asked: Seq<Exchange<B>>)
    ensures
        until_footer(asked) <= asked.len(),
    decreases asked.len(),
{
    if asked.len() > 0 {
        lemma_until_footer_len(asked.drop_first());
    }
}

/// Whether a batch is the next one after a request: the first of the plan that the request ran, or
/// the one after a batch that the request took and that held no sidecar.
pub open spec fn comes_next<B>(x: Exchange<B>, batch: Exchange<B>) -> bool {
    &&& batch is Batch
    &&& match x {
        Exchange::Query(_, Ok(batches)) => left_before(batch) == batches,
        Exchange::Batch(_, _, left) => is_fruitless(x) && left_before(batch) == left,
        _ => false,
    }
}

/// The batches that are taken are those that the engine handed out for the plan, from the first one
/// on, in their order and with none passed over: each is the next one after the request before it.
pub proof fn law_batches_are_taken_in_order<R: StatsRules, B>(
    segment: &LogSegment,
    stats_schema: Option<SchemaRef>,
    asked: Seq<Exchange<B>>,
    outcome: Result<CheckpointShape, Error>,
    j: int,
)
    requires
        resolves::<R, B>(segment, stats_schema, asked, outcome),
        0 <= j < asked.len(),
        asked[j] is Batch,
    ensures
        j > 0,
        comes_next(asked[j - 1], asked[j]),
{
    lemma_requests::<R, B>(segment, stats_schema, asked, outcome);
    let s = scan_start(asked);
    assert(s < j < s + until_footer(asked.skip(s)));
}

/// Whether a batch was taken that holds a sidecar.
pub open spec fn has_sidecar<B>(x: Exchange<B>) -> bool {
    x matches Exchange::Batch(_, Some(Ok(batch)), _) && sidecar_in(batch.rows@) is Some
}

/// The engine is asked for at most two footers and one scan. Batches are taken only after the
/// scan was started, and only if the ones before hold no sidecar: none is taken after the first
/// sidecar, a failure or the end.
pub proof fn law_few_requests<R: StatsRules, B>(
    segment: &LogSegment,
    stats_schema: Option<SchemaRef>,
    asked: Seq<Exchange<B>>,
    outcome: Result<CheckpointShape, Error>,
)
    requires
        resolves::<R, B>(segment, stats_schema, asked, outcome),
    ensures
        forall|i: int, j: int, k: int|
            0 <= i < j < k < asked.len() && (#[trigger] asked[i]) is Footer && (
            #[trigger] asked[j]) is Footer ==> !((#[trigger] asked[k]) is Footer),
        forall|i: int, j: int|
            0 <= i < j < asked.len() && (#[trigger] asked[i]) is Query ==> !((
            #[trigger] asked[j]) is Query),
        forall|i: int, j: int|
            0 <= i < j < asked.len() && (#[trigger] asked[i]) is Batch && (
            #[trigger] asked[j]) is Batch ==> is_fruitless(asked[i]),
        forall|j: int|
            0 <= j < asked.len() && (#[trigger] asked[j]) is Batch ==> exists|i: int|
                0 <= i < j && (#[trigger] asked[i]) is Query,
{
    lemma_requests::<R, B>(segment, stats_schema, asked, outcome);
    let s = scan_start(asked);
    assert forall|j: int| 0 <= j < asked.len() && (#[trigger] asked[j]) is Batch implies exists|
        i: int,
    |
        0 <= i < j && (#[trigger] asked[i]) is Query by {
        assert(asked[s] is Query);
    }
}

/// Where a scan would start: after the footer of the checkpoint, if that is read first.
spec fn scan_start<B>(asked: Seq<Exchange<B>>) -> int {
    if asked.len() > 0 && asked[0] is Footer {
        1
    } else {
        0
    }
}

/// What the requests of every resolution look like: a footer or none; a scan or none, which is
/// taken from as long as there is no sidecar; a footer or none.
proof fn lemma_requests<R: StatsRules, B>(
    segment: &LogSegment,
    stats_schema: Option<SchemaRef>,
    asked: Seq<Exchange<B>>,
    outcome: Result<CheckpointShape, Error>,
)
    requires
        resolves::<R, B>(segment, stats_schema, asked, outcome),
    ensures
        ({
            let s = scan_start(asked);
            let n = s + until_footer(asked.skip(s));
            &&& 0 <= s <= n <= asked.len() <= n + 1
            &&& n > s ==> asked[s] is Query
            &&& forall|i: int| s < i < n ==> (#[trigger] asked[i]) is Batch
            &&& forall|i: int| s < i < n - 1 ==> is_fruitless(#[trigger] asked[i])
            &&& forall|i: int, j: int|
                s <= i && j == i + 1 && j < n ==> comes_next(
                    #[trigger] asked[i],
                    #[trigger] asked[j],
                )
            &&& asked.len() > n ==> asked[n] is Footer
            &&& outcome matches Ok(shape) ==> segment.checkpoint_sidecars is None ==> (
            shape.checkpoint_type == CheckpointType::Manifest <==> n - 1 > s && has_sidecar(
                asked[n - 1],
            ))
        }),
{
    let parts = segment@.checkpoint_parts;
    let s = scan_start(asked);
    let rest = asked.skip(s);
    reveal_with_fuel(until_footer, 2);
    if parts.len() > 0 && segment.checkpoint_sidecars is None {
        let root = parts[0].location;
        let file_type = parts[0].file_type();
        if file_type == FileType::Json {
            lemma_scan_shape::<R, B>(segment, root, file_type, None, stats_schema, asked, outcome);
            assert(rest =~= asked);
        } else {
            let (from, schema) = match segment.checkpoint_schema {
                Some(schema) => (0int, Some(schema)),
                None => (
                    1int,
                    match footer_of(asked[0], root) {
                        Some(Ok(footer)) => Some(footer.schema),
                        _ => None,
                    },
                ),
            };
            if schema matches Some(known) && has_field(known@, SIDECAR_NAME@) {
                let later = asked.skip(from);
                assert(from == 0 ==> later =~= asked);
                lemma_scan_shape::<R, B>(
                    segment,
                    root,
                    file_type,
                    schema,
                    stats_schema,
                    later,
                    outcome,
                );
                assert(later[0] == asked[from]);
                assert(s == from);
                let n = s + until_footer(rest);
                assert forall|i: int| s < i < n implies (#[trigger] asked[i]) is Batch by {
                    assert(later[i - s] == asked[i]);
                }
                assert forall|i: int| s < i < n - 1 implies is_fruitless(
                    #[trigger] asked[i],
                ) by {
                    assert(later[i - s] == asked[i]);
                }
                assert forall|i: int, j: int| s <= i && j == i + 1 && j < n implies comes_next(
                    #[trigger] asked[i],
                    #[trigger] asked[j],
                ) by {
                    assert(later[i - s] == asked[i]);
                    assert(later[j - s] == asked[j]);
                }
                if asked.len() > n {
                    assert(later[n - s] == asked[n]);
                }
                assert(n - 1 > s ==> later[n - 1 - s] == asked[n - 1]);
            }
        }
    }
}

/// A schema of the checkpoint that is already known is not read again: a Parquet checkpoint whose
/// known schema has no sidecar column is a leaf, and nothing is asked; otherwise the first request
/// is the scan of its sidecar column.
pub proof fn law_known_schema_is_not_read<R: StatsRules, B>(
    segment: &LogSegment,
    stats_schema: Option<SchemaRef>,
    asked: Seq<Exchange<B>>,
    outcome: Result<CheckpointShape, Error>,
)
    requires
        resolves::<R, B>(segment, stats_schema, asked, outcome),
        segment.listed.checkpoint_parts.len() > 0,
        segment.checkpoint_sidecars is None,
        segment.checkpoint_schema is Some,
        segment@.checkpoint_parts[0].file_type() == FileType::Parquet,
    ensures
        !has_field(segment.checkpoint_schema->0@, SIDECAR_NAME@) ==> asked.len() == 0 && (
        outcome matches Ok(shape) && shape.checkpoint_type == CheckpointType::Leaf),
        has_field(segment.checkpoint_schema->0@, SIDECAR_NAME@) ==> asked.len() >= 1
            && asked[0] is Query,
{
    let root = segment@.checkpoint_parts[0];
    if has_field(segment.checkpoint_schema->0@, SIDECAR_NAME@) {
        lemma_scan_shape::<R, B>(
            segment,
            root.location,
            root.file_type(),
            segment.checkpoint_schema,
            stats_schema,
            asked,
            outcome,
        );
    }
}

/// Without a hint, a checkpoint is a manifest exactly if a batch of its sidecar column was taken
/// that holds a sidecar.
pub proof fn law_sidecar_makes_a_manifest<R: StatsRules, B>(
    segment: &LogSegment,
    stats_schema: Option<SchemaRef>,
    asked: Seq<Exchange<B>>,
    outcome: Result<CheckpointShape, Error>,
)
    requires
        resolves::<R, B>(segment, stats_schema, asked, outcome),
        segment.checkpoint_sidecars is None,
    ensures
        outcome matches Ok(shape) ==> (shape.checkpoint_type == CheckpointType::Manifest
            <==> exists|i: int| 0 <= i < asked.len() && has_sidecar(#[trigger] asked[i])),
{
    lemma_requests::<R, B>(segment, stats_schema, asked, outcome);
    let s = scan_start(asked);
    let n = s + until_footer(asked.skip(s));
    assert forall|i: int| 0 <= i < asked.len() && has_sidecar(#[trigger] asked[i]) implies i == n
        - 1 && i > s by {}
}

} // verus!
