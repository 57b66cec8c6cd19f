//! How the answers of the engine decide a checkpoint's shape.

use vstd::prelude::*;

use crate::actions::Sidecar;
use crate::checkpoint_shape::{
    asked_between, is_fruitless, is_scan, offers, probed_file, resolves, resolves_hint,
    resolves_manifest, resolves_parquet, resolves_scan, shape_of, sidecar_in, sidecar_query,
    until_footer, went_on, CheckpointShape, CheckpointType,
};
use crate::error::Error;
use crate::executor::{Exchange, Operation, PlanExecutor, Session, SidecarBatch, SidecarBatches};
use crate::files::{FileMetaView, FileType, ScanFileView};
use crate::log_laws::{is_file_of, is_no_file, law_sidecar_file};
use crate::log_segment::LogSegment;
use crate::plan::PlanView;
use crate::schema::SchemaRef;
use crate::schema_laws::{law_lookup_by_name, law_sidecar_schemas};
use crate::stats_rules::StatsRules;

verus! {

// --- The record of a session ---

/// Whether an outcome is one of taking the next of the given batches.
pub open spec fn is_taken_from<B: SidecarBatches>(
    batches: B,
    outcome: Option<Result<SidecarBatch, Error>>,
) -> bool {
    exists|b: &mut B| *b == batches && #[trigger] call_ensures(B::next, (b,), outcome)
}

/// A session goes on with its engine, and its record only grows: by the requests that were made, in
/// their order, each with an answer that the engine, or the batches that it handed out, gave to it.
pub proof fn law_record_grows<E: PlanExecutor>(before: &Session<E>, after: &Session<E>, i: int)
    requires
        went_on(before, after),
    ensures
        after.executor() == before.executor(),
        after.log() == before.log() + asked_between(before.log(), after.log()),
        0 <= i < asked_between(before.log(), after.log()).len() ==> match asked_between(
            before.log(),
            after.log(),
        )[i] {
            Exchange::Footer(file, answer) => call_ensures(
                E::read_parquet_footer,
                (&before.executor(), file),
                answer,
            ),
            Exchange::Query(plan, answer) => call_ensures(
                E::execute_op,
                (&before.executor(), Operation::QueryPlan(plan)),
                answer,
            ),
            Exchange::Batch(batches, answer, _) => is_taken_from(batches, answer),
        },
{
    let n = before.log().len() as int;
    assert(after.log() =~= after.log().take(n) + after.log().skip(n));
}

// --- The first sidecar ---

/// A batch is without a sidecar exactly if all of its rows are null. Otherwise its sidecar is that
/// of the first row that is not null, however many nulls come before.
pub proof fn law_sidecar_of_a_batch(rows: Seq<Option<Sidecar>>)
    ensures
        sidecar_in(rows) is None <==> forall|i: int| 0 <= i < rows.len() ==> rows[i] is None,
        sidecar_in(rows) matches Some(sidecar) ==> exists|i: int|
            {
                &&& 0 <= i < rows.len()
                &&& #[trigger] rows[i] == Some(sidecar)
                &&& forall|j: int| 0 <= j < i ==> rows[j] is None
            },
    decreases rows.len(),
{
    if rows.len() > 0 {
        let rest = rows.drop_first();
        law_sidecar_of_a_batch(rest);
        if rows[0] is None {
            assert forall|i: int| 0 < i < rows.len() implies rows[i] == rest[i - 1] by {}
            if let Some(sidecar) = sidecar_in(rows) {
                let i = choose|i: int|
                    {
                        &&& 0 <= i < rest.len()
                        &&& #[trigger] rest[i] == Some(sidecar)
                        &&& forall|j: int| 0 <= j < i ==> rest[j] is None
                    };
                assert(rows[i + 1] == Some(sidecar));
            } else {
                assert forall|i: int| 0 <= i < rows.len() implies rows[i] is None by {
                    if i > 0 {
                        assert(rest[i - 1] is None);
                    }
                }
            }
            if forall|i: int| 0 <= i < rows.len() ==> rows[i] is None {
                assert forall|i: int| 0 <= i < rest.len() implies rest[i] is None by {
                    assert(rows[i + 1] is None);
                }
            }
        } else {
            assert(rows[0] == sidecar_in(rows));
        }
    }
}

/// Whether a batch was taken whose rows are all null.
pub open spec fn is_all_null<B>(x: Exchange<B>) -> bool {
    x matches Exchange::Batch(_, Some(Ok(batch)), _) && forall|i: int|
        0 <= i < batch.rows@.len() ==> batch.rows@[i] is None
}

/// Whether a batch was taken in which the given sidecar comes first, after nothing but nulls.
pub open spec fn comes_first<B>(x: Exchange<B>, sidecar: Sidecar) -> bool {
    x matches Exchange::Batch(_, Some(Ok(batch)), _) && exists|i: int|
        {
            &&& 0 <= i < batch.rows@.len()
            &&& #[trigger] batch.rows@[i] == Some(sidecar)
            &&& forall|j: int| 0 <= j < i ==> batch.rows@[j] is None
        }
}

/// A batch is passed over exactly if its rows are all null.
pub proof fn law_nulls_are_passed_over<B>(x: Exchange<B>)
    ensures
        is_fruitless(x) <==> is_all_null(x),
        x matches Exchange::Batch(_, Some(Ok(batch)), _) ==> is_fruitless(x) || exists|
            sidecar: Sidecar,
        | #[trigger]
            comes_first(x, sidecar) && sidecar_in(batch.rows@) == Some(sidecar),
{
    if let Exchange::Batch(_, Some(Ok(batch)), _) = x {
        law_sidecar_of_a_batch(batch.rows@);
        if let Some(sidecar) = sidecar_in(batch.rows@) {
            assert(comes_first(x, sidecar));
        }
    }
}

/// A probe reads one column of one file: the sidecars of the file that it is for.
pub proof fn law_probe_plan(file: FileMetaView, file_type: FileType)
    ensures
        ({
            let plan = sidecar_query(file, file_type);
            &&& plan is Scan
            &&& plan->Scan_file_type == file_type
            &&& plan->Scan_files == seq![ScanFileView { meta: file, constants: seq![] }]
            &&& plan->Scan_constants.len() == 0
            &&& plan->Scan_schema.len() == 1
            &&& plan->Scan_schema[0].name == "sidecar"@
        }),
{
    law_sidecar_schemas();
}

/// A probe finds the first sidecar of its batches. All batches before the last one taken are null
/// throughout, and the last one decides: its first sidecar is found, or it failed, or there was
/// none left. A plan that does not run is the only request.
pub proof fn law_probe<B>(asked: Seq<Exchange<B>>, plan: PlanView, log_root: Seq<char>)
    requires
        is_scan(asked, plan),
    ensures
        asked[0] matches Exchange::Query(run, answer) && run@ == plan && match answer {
            Err(e) => asked.len() == 1 && probed_file(asked, log_root) == Err::<
                Option<FileMetaView>,
                Error,
            >(e),
            Ok(batches) => {
                &&& asked.len() >= 2
                &&& asked[1] matches Exchange::Batch(from, _, _) && from == batches
                &&& forall|i: int| 1 <= i < asked.len() - 1 ==> is_all_null(#[trigger] asked[i])
                &&& asked.last() is Batch
                &&& match asked.last() {
                    Exchange::Batch(_, None, _) => probed_file(asked, log_root) == Ok::<
                        Option<FileMetaView>,
                        Error,
                    >(None),
                    Exchange::Batch(_, Some(Err(e)), _) => probed_file(asked, log_root) == Err::<
                        Option<FileMetaView>,
                        Error,
                    >(e),
                    _ => {
                        ||| is_all_null(asked.last()) && asked.len() == 1 + u64::MAX
                            && probed_file(asked, log_root) == Err::<Option<FileMetaView>, Error>(
                            Error::TooManyBatches,
                        )
                        ||| exists|sidecar: Sidecar|
                            {
                                &&& #[trigger] comes_first(asked.last(), sidecar)
                                &&& match probed_file(asked, log_root) {
                                    Ok(Some(file)) => is_file_of(file, sidecar@, log_root),
                                    Ok(None) => false,
                                    Err(e) => is_no_file(sidecar@, log_root, e),
                                }
                            }
                    },
                }
            },
        },
{
    if let Exchange::Query(_, Ok(_)) = asked[0] {
        let pulls = asked.skip(1);
        assert(pulls[0] == asked[1]);
        assert(pulls.last() == asked.last());
        assert forall|i: int| 1 <= i < asked.len() - 1 implies is_all_null(#[trigger] asked[i]) by {
            assert(asked[i] == pulls[i - 1]);
            law_nulls_are_passed_over(asked[i]);
        }
        law_nulls_are_passed_over(asked.last());
        if let Exchange::Batch(_, Some(Ok(batch)), _) = asked.last() {
            if let Some(sidecar) = sidecar_in(batch.rows@) {
                law_sidecar_file(sidecar@, log_root);
                assert(comes_first(asked.last(), sidecar));
            }
        }
    }
}

// --- Parsed statistics ---

/// Whether `parsed` is a verdict of the rules on the wanted statistics and the schema of a file:
/// the wanted schema if they call the two compatible, else nothing.
pub open spec fn is_verdict<R: StatsRules>(
    file: SchemaRef,
    stats: SchemaRef,
    parsed: Option<SchemaRef>,
) -> bool {
    ||| parsed == Some(stats) && call_ensures(
        R::schema_has_compatible_stats_parsed,
        (&*file, &*stats),
        true,
    )
    ||| parsed is None && call_ensures(
        R::schema_has_compatible_stats_parsed,
        (&*file, &*stats),
        false,
    )
}

/// What a file offers of the wanted statistics is the verdict of the rules, and nothing where there
/// is no schema or no statistics are wanted.
pub proof fn law_rules_decide<R: StatsRules>(
    file: Option<SchemaRef>,
    stats: Option<SchemaRef>,
    parsed: Option<SchemaRef>,
)
    requires
        offers::<R>(file, stats, parsed),
    ensures
        file is Some && stats is Some ==> is_verdict::<R>(file->0, stats->0, parsed),
        file is None || stats is None ==> parsed is None,
{
}

/// A shape has the type of its checkpoint, and the parsed statistics on which the rules decide.
pub proof fn law_shape<R: StatsRules>(
    checkpoint_type: CheckpointType,
    file: Option<SchemaRef>,
    stats: Option<SchemaRef>,
    shape: CheckpointShape,
)
    requires
        shape_of::<R>(checkpoint_type, file, stats, shape),
    ensures
        shape.checkpoint_type == checkpoint_type,
        file is Some && stats is Some ==> is_verdict::<R>(
            file->0,
            stats->0,
            shape.parsed_stats_schema,
        ),
        file is None || stats is None ==> shape.parsed_stats_schema is None,
{
    law_rules_decide::<R>(file, stats, shape.parsed_stats_schema);
}

/// A manifest is resolved by the footer of its sidecar if statistics are wanted, and without a
/// request if not. A footer that cannot be read is the failure of the resolution.
pub proof fn law_manifest_is_judged<R: StatsRules, B>(
    sidecar: FileMetaView,
    stats_schema: Option<SchemaRef>,
    asked: Seq<Exchange<B>>,
    outcome: Result<CheckpointShape, Error>,
)
    requires
        resolves_manifest::<R, B>(sidecar, stats_schema, asked, outcome),
    ensures
        outcome matches Ok(shape) ==> shape.checkpoint_type == CheckpointType::Manifest,
        stats_schema is None ==> {
            &&& asked.len() == 0
            &&& outcome matches Ok(shape)
            &&& shape.parsed_stats_schema is None
        },
        stats_schema is Some ==> {
            &&& asked.len() == 1
            &&& asked[0] matches Exchange::Footer(file, answer)
            &&& file@ == sidecar
            &&& match (answer, outcome) {
                (Ok(footer), Ok(shape)) => is_verdict::<R>(
                    footer.schema,
                    stats_schema->0,
                    shape.parsed_stats_schema,
                ),
                (Err(e), Err(f)) => e == f,
                _ => false,
            }
        },
{
}

/// A hint that lists no sidecar makes a leaf. Its parsed statistics are judged by its schema, known
/// or read from the footer of the checkpoint, but for a JSON leaf, which has none.
pub proof fn law_empty_hint<R: StatsRules, B>(
    segment: &LogSegment,
    root: FileMetaView,
    file_type: FileType,
    stats_schema: Option<SchemaRef>,
    asked: Seq<Exchange<B>>,
    outcome: Result<CheckpointShape, Error>,
)
    requires
        segment.checkpoint_sidecars matches Some(sidecars) && sidecars@.len() == 0,
        resolves_hint::<R, B>(segment, root, file_type, stats_schema, asked, outcome),
    ensures
        outcome matches Ok(shape) ==> shape.checkpoint_type == CheckpointType::Leaf,
        ({
            let read = file_type == FileType::Parquet && stats_schema is Some
                && segment.checkpoint_schema is None;
            &&& !read ==> asked.len() == 0 && outcome is Ok
            &&& read ==> {
                &&& asked.len() == 1
                &&& asked[0] matches Exchange::Footer(file, answer)
                &&& file@ == root
                &&& match (answer, outcome) {
                    (Ok(footer), Ok(shape)) => is_verdict::<R>(
                        footer.schema,
                        stats_schema->0,
                        shape.parsed_stats_schema,
                    ),
                    (Err(e), Err(f)) => e == f,
                    _ => false,
                }
            }
        }),
        outcome matches Ok(shape) ==> (file_type == FileType::Json || stats_schema is None
            ==> shape.parsed_stats_schema is None),
        outcome matches Ok(shape) ==> (file_type == FileType::Parquet && stats_schema is Some
            && segment.checkpoint_schema is Some ==> is_verdict::<R>(
            segment.checkpoint_schema->0,
            stats_schema->0,
            shape.parsed_stats_schema,
        )),
{
}

/// A hint that lists sidecars makes a manifest, judged by the file of the first sidecar. If that is
/// no file, the resolution fails for the same reason, with nothing asked.
pub proof fn law_hint_names_the_first_sidecar<R: StatsRules, B>(
    segment: &LogSegment,
    root: FileMetaView,
    file_type: FileType,
    stats_schema: Option<SchemaRef>,
    asked: Seq<Exchange<B>>,
    outcome: Result<CheckpointShape, Error>,
)
    requires
        segment.checkpoint_sidecars matches Some(sidecars) && sidecars@.len() > 0,
        resolves_hint::<R, B>(segment, root, file_type, stats_schema, asked, outcome),
    ensures
        ({
            let first = segment.checkpoint_sidecars->0@[0];
            ||| asked.len() == 0 && (outcome matches Err(e) && is_no_file(
                first@,
                segment.log_root@,
                e,
            ))
            ||| exists|file: FileMetaView|
                {
                    &&& #[trigger] is_file_of(file, first@, segment.log_root@)
                    &&& resolves_manifest::<R, B>(file, stats_schema, asked, outcome)
                }
        }),
{
    let first = segment.checkpoint_sidecars->0@[0];
    assert(segment@.checkpoint_sidecars->0[0] == first@);
    law_sidecar_file(first@, segment.log_root@);
}

// --- Where the answers go ---

/// Whether a resolution without a hint found the file in its batches: it is that of the first
/// sidecar, which the request at `i` took, after nothing but nulls.
pub open spec fn is_found_at<B>(
    asked: Seq<Exchange<B>>,
    i: int,
    sidecar: Sidecar,
    file: FileMetaView,
    log_root: Seq<char>,
) -> bool {
    &&& 0 <= i < asked.len()
    &&& comes_first(asked[i], sidecar)
    &&& forall|j: int| 0 <= j < i && (#[trigger] asked[j]) is Batch ==> is_all_null(asked[j])
    &&& is_file_of(file, sidecar@, log_root)
}

/// What a scan of the sidecar column comes to: a leaf of the given schema if all batches are null,
/// else a manifest that is judged by the file of the first sidecar, unless the scan fails.
pub proof fn law_scan_decides<R: StatsRules, B>(
    segment: &LogSegment,
    root: FileMetaView,
    file_type: FileType,
    leaf_schema: Option<SchemaRef>,
    stats_schema: Option<SchemaRef>,
    asked: Seq<Exchange<B>>,
    outcome: Result<CheckpointShape, Error>,
)
    requires
        resolves_scan::<R, B>(
            segment,
            root,
            file_type,
            leaf_schema,
            stats_schema,
            asked,
            outcome,
        ),
    ensures
        asked.len() > 0,
        asked[0] matches Exchange::Query(run, _) && run@ == sidecar_query(root, file_type),
        match outcome {
            Ok(shape) => match shape.checkpoint_type {
                CheckpointType::Absent => false,
                CheckpointType::Leaf => {
                    &&& asked.last() matches Exchange::Batch(_, None, _)
                    &&& forall|i: int|
                        1 <= i < asked.len() - 1 ==> is_all_null(#[trigger] asked[i])
                    &&& leaf_schema is Some && stats_schema is Some ==> is_verdict::<R>(
                        leaf_schema->0,
                        stats_schema->0,
                        shape.parsed_stats_schema,
                    )
                    &&& leaf_schema is None || stats_schema is None
                        ==> shape.parsed_stats_schema is None
                },
                CheckpointType::Manifest => exists|i: int, sidecar: Sidecar, file: FileMetaView|
                    {
                        &&& #[trigger] is_found_at(asked, i, sidecar, file, segment.log_root@)
                        &&& resolves_manifest::<R, B>(
                            file,
                            stats_schema,
                            asked.skip(i + 1),
                            outcome,
                        )
                    },
            },
            Err(e) => {
                ||| asked.last() matches Exchange::Query(_, Err(f)) && e == f
                ||| asked.last() matches Exchange::Batch(_, Some(Err(f)), _) && e == f
                ||| asked.last() matches Exchange::Footer(_, Err(f)) && e == f
                ||| e == Error::TooManyBatches && asked.len() > u64::MAX
                ||| exists|sidecar: Sidecar|
                    {
                        &&& #[trigger] comes_first(asked.last(), sidecar)
                        &&& is_no_file(sidecar@, segment.log_root@, e)
                    }
            },
        },
{
    let n = until_footer(asked) as int;
    lemma_footer_bound(asked);
    let scan = asked.take(n);
    let plan = sidecar_query(root, file_type);
    law_probe(scan, plan, segment.log_root@);
    assert(scan[0] == asked[0]);
    assert forall|i: int| 0 <= i < n implies scan[i] == asked[i] by {}
    match probed_file(scan, segment.log_root@) {
        Ok(Some(file)) => {
            let sidecar = choose|sidecar: Sidecar|
                {
                    &&& #[trigger] comes_first(scan.last(), sidecar)
                    &&& is_file_of(file, sidecar@, segment.log_root@)
                };
            assert(scan.last() == asked[n - 1]);
            assert forall|j: int| 0 <= j < n - 1 && (#[trigger] asked[j]) is Batch implies
                is_all_null(asked[j]) by {
                assert(scan[j] == asked[j]);
            }
            assert(is_found_at(asked, n - 1, sidecar, file, segment.log_root@));
            law_manifest_is_judged::<R, B>(file, stats_schema, asked.skip(n), outcome);
            if asked.len() > n {
                assert(asked.skip(n)[0] == asked.last());
            }
        },
        _ => {
            assert(scan =~= asked);
        },
    }
}

/// No more requests are made before the first for a footer than are made at all.
proof fn lemma_footer_bound<B>(asked: Seq<Exchange<B>>)
    ensures
        until_footer(asked) <= asked.len(),
    decreases asked.len(),
{
    if asked.len() > 0 {
        lemma_footer_bound(asked.drop_first());
    }
}

/// A Parquet checkpoint is scanned exactly if its schema has a column named `sidecar`. If not, it
/// is a leaf, nothing is asked, and its parsed statistics are judged by that schema.
pub proof fn law_sidecar_column_decides<R: StatsRules, B>(
    segment: &LogSegment,
    root: FileMetaView,
    schema: SchemaRef,
    stats_schema: Option<SchemaRef>,
    asked: Seq<Exchange<B>>,
    outcome: Result<CheckpointShape, Error>,
)
    requires
        resolves_parquet::<R, B>(segment, root, schema, stats_schema, asked, outcome),
    ensures
        if exists|c: int| 0 <= c < schema@.len() && (#[trigger] schema@[c]).name == "sidecar"@ {
            resolves_scan::<R, B>(
                segment,
                root,
                FileType::Parquet,
                Some(schema),
                stats_schema,
                asked,
                outcome,
            )
        } else {
            &&& asked.len() == 0
            &&& outcome matches Ok(shape)
            &&& shape.checkpoint_type == CheckpointType::Leaf
            &&& stats_schema is Some ==> is_verdict::<R>(
                schema,
                stats_schema->0,
                shape.parsed_stats_schema,
            )
            &&& stats_schema is None ==> shape.parsed_stats_schema is None
        },
{
    law_lookup_by_name(schema@, "sidecar"@);
}

/// Without a hint, a JSON checkpoint is scanned and its leaf has no schema. A Parquet checkpoint is
/// taken by its known schema, or by the schema in the footer of its first part, which is then the
/// first request, and whose failure is the failure of the resolution.
pub proof fn law_schema_comes_first<R: StatsRules, B>(
    segment: &LogSegment,
    stats_schema: Option<SchemaRef>,
    asked: Seq<Exchange<B>>,
    outcome: Result<CheckpointShape, Error>,
)
    requires
        resolves::<R, B>(segment, stats_schema, asked, outcome),
        segment.listed.checkpoint_parts@.len() > 0,
        segment.checkpoint_sidecars is None,
    ensures
        ({
            let first = segment.listed.checkpoint_parts@[0];
            let root = first.location@;
            if first.extension@ == "json"@ {
                resolves_scan::<R, B>(
                    segment,
                    root,
                    FileType::Json,
                    None,
                    stats_schema,
                    asked,
                    outcome,
                )
            } else if segment.checkpoint_schema is Some {
                resolves_parquet::<R, B>(
                    segment,
                    root,
                    segment.checkpoint_schema->0,
                    stats_schema,
                    asked,
                    outcome,
                )
            } else {
                &&& asked.len() > 0
                &&& asked[0] matches Exchange::Footer(file, answer)
                &&& file@ == root
                &&& match answer {
                    Err(e) => asked.len() == 1 && (outcome matches Err(f) && e == f),
                    Ok(footer) => resolves_parquet::<R, B>(
                        segment,
                        root,
                        footer.schema,
                        stats_schema,
                        asked.skip(1),
                        outcome,
                    ),
                }
            }
        }),
{
    assert(segment@.checkpoint_parts[0] == segment.listed.checkpoint_parts@[0]@);
}

/// With a hint, a checkpoint is resolved by it, for the first part of the checkpoint.
pub proof fn law_hint_comes_first<R: StatsRules, B>(
    segment: &LogSegment,
    stats_schema: Option<SchemaRef>,
    asked: Seq<Exchange<B>>,
    outcome: Result<CheckpointShape, Error>,
)
    requires
        resolves::<R, B>(segment, stats_schema, asked, outcome),
        segment.listed.checkpoint_parts@.len() > 0,
        segment.checkpoint_sidecars is Some,
    ensures
        ({
            let first = segment.listed.checkpoint_parts@[0];
            resolves_hint::<R, B>(
                segment,
                first.location@,
                if first.extension@ == "json"@ {
                    FileType::Json
                } else {
                    FileType::Parquet
                },
                stats_schema,
                asked,
                outcome,
            )
        }),
{
    assert(segment@.checkpoint_parts[0] == segment.listed.checkpoint_parts@[0]@);
}

} // verus!
