//! Resolves a checkpoint's shape: no checkpoint, a leaf (file actions inline, in one file or in
//! parts), or a manifest (which refers to sidecar files). When statistics are wanted, the shape
//! also says whether the checkpoint holds compatible parsed ones.

use vstd::prelude::*;

use crate::actions::{Sidecar, SIDECAR_NAME};
use crate::error::Error;
use crate::executor::{
    answered_by, opened, Exchange, OpenScan, ParquetFooter, PlanExecutor, Session, SidecarBatch,
};
use crate::expressions::strs_view;
use crate::files::{scan_files_view, FileMeta, FileMetaView, FileType, ScanFile, ScanFileView};
use crate::log_segment::{sidecar_only_view, LogSegment, Snapshot};
use crate::plan::{PlanBuilder, PlanView};
use crate::schema::{has_field, opt_schema_view, share, SchemaRef, SchemaView};
use crate::stats_rules::StatsRules;

verus! {

/// The topology of a checkpoint: where its file actions live.
#[derive(Debug, Clone, Copy, PartialEq, Eq, Structural)]
pub enum CheckpointType {
    /// No checkpoint files.
    Absent,
    /// File actions inline, in one file or in parts.
    Leaf,
    /// The checkpoint refers to sidecar files that hold the file actions.
    Manifest,
}

/// A snapshot's checkpoint type and the schema of its parsed statistics.
#[derive(Debug, PartialEq)]
pub struct CheckpointShape {
    /// What kind of checkpoint this is.
    pub checkpoint_type: CheckpointType,
    /// The wanted schema of statistics, if the checkpoint has a compatible `add.stats_parsed`
    /// struct to read it from.
    pub parsed_stats_schema: Option<SchemaRef>,
}

/// A shape as a mathematical value.
pub struct ShapeView {
    pub checkpoint_type: CheckpointType,
    pub parsed_stats_schema: Option<SchemaView>,
}

impl Clone for CheckpointShape {
    fn clone(&self) -> (r: CheckpointShape)
        ensures
            r == *self,
    {
        CheckpointShape {
            checkpoint_type: self.checkpoint_type,
            parsed_stats_schema: match &self.parsed_stats_schema {
                Some(schema) => Some(share(schema)),
                None => None,
            },
        }
    }
}

impl View for CheckpointShape {
    type V = ShapeView;

    open spec fn view(&self) -> ShapeView {
        ShapeView {
            checkpoint_type: self.checkpoint_type,
            parsed_stats_schema: opt_schema_view(self.parsed_stats_schema),
        }
    }
}

// --- The first sidecar of a scan ---

/// The first row that holds a sidecar.
pub open spec fn sidecar_in(rows: Seq<Option<Sidecar>>) -> Option<Sidecar>
    decreases rows.len(),
{
    if rows.len() == 0 {
        None
    } else {
        match rows[0] {
            Some(sidecar) => Some(sidecar),
            None => sidecar_in(rows.drop_first()),
        }
    }
}

/// The first sidecar of a batch.
fn batch_sidecar(batch: SidecarBatch) -> (r: Option<Sidecar>)
    ensures
        r == sidecar_in(batch.rows@),
{
    let ghost all = batch.rows@;
    assert(all.skip(0) =~= all);
    for row in it: batch.rows
        invariant
            it.seq() == all,
            sidecar_in(all) == sidecar_in(all.skip(it.index())),
    {
        let ghost n = it.index();
        assert(all.skip(n)[0] == row);
        assert(all.skip(n).drop_first() =~= all.skip(n + 1));
        if row.is_some() {
            return row;
        }
    }
    None
}

// --- What is asked of the engine ---

/// The requests that were made between two points of a session.
pub open spec fn asked_between<B>(before: Seq<Exchange<B>>, after: Seq<Exchange<B>>) -> Seq<
    Exchange<B>,
> {
    after.skip(before.len() as int)
}

/// Whether a session went on from one point to another with the same engine, which, with the
/// batches that it handed out, gave all the answers on the way.
pub open spec fn went_on<E: PlanExecutor>(before: &Session<E>, after: &Session<E>) -> bool {
    &&& after.executor() == before.executor()
    &&& before.log().len() <= after.log().len()
    &&& after.log().take(before.log().len() as int) == before.log()
    &&& answered_by(before.executor(), asked_between(before.log(), after.log()))
}

proof fn lemma_one_request<E: PlanExecutor>(
    before: &Session<E>,
    after: &Session<E>,
    x: Exchange<E::Batches>,
)
    requires
        after.executor() == before.executor(),
        after.log() == before.log().push(x),
        answered_by(before.executor(), seq![x]),
    ensures
        went_on(before, after),
        asked_between(before.log(), after.log()) == seq![x],
{
    assert(asked_between(before.log(), after.log()) =~= seq![x]);
    assert(after.log().take(before.log().len() as int) =~= before.log());
}

proof fn lemma_no_request<E: PlanExecutor>(session: &Session<E>)
    ensures
        went_on(session, session),
        asked_between(session.log(), session.log()) == Seq::<Exchange<E::Batches>>::empty(),
{
    assert(asked_between(session.log(), session.log()) =~= Seq::<
        Exchange<E::Batches>,
    >::empty());
    assert(session.log().take(session.log().len() as int) =~= session.log());
}

proof fn lemma_requests_add_up<E: PlanExecutor>(
    first: &Session<E>,
    second: &Session<E>,
    third: &Session<E>,
)
    requires
        went_on(first, second),
        went_on(second, third),
    ensures
        went_on(first, third),
        asked_between(first.log(), third.log()) == asked_between(first.log(), second.log())
            + asked_between(second.log(), third.log()),
        asked_between(first.log(), third.log()).skip(
            asked_between(first.log(), second.log()).len() as int,
        ) == asked_between(second.log(), third.log()),
{
    let a = asked_between(first.log(), second.log());
    let b = asked_between(second.log(), third.log());
    let n1 = first.log().len() as int;
    let n2 = second.log().len() as int;
    assert(third.log().take(n2) == second.log());
    assert(asked_between(first.log(), third.log()) =~= a + b) by {
        assert forall|i: int| 0 <= i < a.len() implies third.log()[n1 + i] == a[i] by {
            assert(third.log().take(n2)[n1 + i] == second.log()[n1 + i]);
        }
    }
    assert((a + b).skip(a.len() as int) =~= b);
    assert(third.log().take(n1) =~= first.log()) by {
        assert forall|i: int| 0 <= i < n1 implies third.log()[i] == first.log()[i] by {
            assert(third.log().take(n2)[i] == second.log()[i]);
            assert(second.log().take(n1)[i] == first.log()[i]);
        }
    }
}

/// The answer, if this is a request for the footer of the given file.
pub open spec fn footer_of<B>(x: Exchange<B>, file: FileMetaView) -> Option<
    Result<ParquetFooter, Error>,
> {
    match x {
        Exchange::Footer(asked, answer) if asked@ == file => Some(answer),
        _ => None,
    }
}

/// The answer, if this is a request to run the given plan.
pub open spec fn run_of<B>(x: Exchange<B>, plan: PlanView) -> Option<Result<B, Error>> {
    match x {
        Exchange::Query(asked, answer) if asked@ == plan => Some(answer),
        _ => None,
    }
}

/// Whether a batch was taken that holds no sidecar.
pub open spec fn is_fruitless<B>(x: Exchange<B>) -> bool {
    x matches Exchange::Batch(_, Some(Ok(batch)), _) && sidecar_in(batch.rows@) is None
}

/// The batches that were left before a batch was taken.
pub open spec fn left_before<B>(x: Exchange<B>) -> B {
    x->Batch_0
}

/// The batches that are left after a batch was taken.
pub open spec fn left_after<B>(x: Exchange<B>) -> B {
    x->Batch_2
}

/// Whether batches were taken one by one, the first from the given ones and each other from those
/// that the one before left, up to the first that is not without a sidecar: one that holds a
/// sidecar, one that failed, or the end. No batch is taken after it, and none is passed over.
pub open spec fn are_pulls<B>(pulls: Seq<Exchange<B>>, from: B) -> bool {
    &&& 1 <= pulls.len() <= u64::MAX
    &&& forall|i: int| 0 <= i < pulls.len() ==> (#[trigger] pulls[i]) is Batch
    &&& left_before(pulls[0]) == from
    &&& forall|i: int, j: int|
        0 <= i && j == i + 1 && j < pulls.len() ==> left_before(#[trigger] pulls[j]) == left_after(
            #[trigger] pulls[i],
        )
    &&& forall|i: int| 0 <= i < pulls.len() - 1 ==> is_fruitless(#[trigger] pulls[i])
    &&& is_fruitless(pulls.last()) ==> pulls.len() == u64::MAX
}

/// What taking batches found: the first sidecar, or the failure of a batch before it.
pub open spec fn found_by<B>(pulls: Seq<Exchange<B>>) -> Result<Option<Sidecar>, Error> {
    match pulls.last() {
        Exchange::Batch(_, Some(Ok(batch)), _) => match sidecar_in(batch.rows@) {
            Some(sidecar) => Ok(Some(sidecar)),
            None => Err(Error::TooManyBatches),
        },
        Exchange::Batch(_, Some(Err(e)), _) => Err(e),
        _ => Ok(None),
    }
}

/// The first sidecar of the batches of a scan. No batch after it is taken.
///
/// The batches need not come to an end, so no more of them are taken than can be counted.
pub fn first_sidecar<E: PlanExecutor>(
    session: &mut Session<E>,
    scan: &mut OpenScan<E::Batches>,
) -> (r: Result<Option<Sidecar>, Error>)
    ensures
        went_on(old(session), final(session)),
        ({
            let pulls = asked_between(old(session).log(), final(session).log());
            &&& are_pulls(pulls, old(scan)@)
            &&& left_after(pulls.last()) == final(scan)@
            &&& r == found_by(pulls)
        }),
{
    let ghost start = *session;
    let ghost from = scan@;
    let mut left: u64 = u64::MAX;
    proof {
        lemma_no_request(session);
    }
    while left > 0
        invariant
            start == *old(session),
            from == old(scan)@,
            went_on(&start, session),
            ({
                let pulls = asked_between(start.log(), session.log());
                &&& pulls.len() == u64::MAX - left
                &&& pulls.len() == 0 ==> scan@ == from
                &&& pulls.len() > 0 ==> are_pulls_so_far(pulls, from) && left_after(pulls.last())
                    == scan@
            }),
        decreases left,
    {
        let ghost before = *session;
        let ghost fruitless = asked_between(start.log(), before.log());
        let ghost remaining = scan@;
        let pulled = session.pull(scan);
        let ghost pull = Exchange::Batch(remaining, pulled, scan@);
        left = left - 1;
        proof {
            lemma_one_request(&before, session, pull);
            lemma_requests_add_up(&start, &before, session);
            assert(asked_between(start.log(), session.log()) =~= fruitless.push(pull));
        }
        match pulled {
            None => {
                return Ok(None);
            },
            Some(Err(e)) => {
                return Err(e);
            },
            Some(Ok(batch)) => {
                let found = batch_sidecar(batch);
                if found.is_some() {
                    return Ok(found);
                }
            },
        }
    }
    Err(Error::TooManyBatches)
}

/// Whether batches without a sidecar were taken one by one, the first from the given ones.
spec fn are_pulls_so_far<B>(pulls: Seq<Exchange<B>>, from: B) -> bool {
    &&& left_before(pulls[0]) == from
    &&& forall|i: int, j: int|
        0 <= i && j == i + 1 && j < pulls.len() ==> left_before(#[trigger] pulls[j]) == left_after(
            #[trigger] pulls[i],
        )
    &&& forall|i: int| 0 <= i < pulls.len() ==> is_fruitless(#[trigger] pulls[i])
}

/// The plan that reads the sidecar column of one file and nothing else.
pub open spec fn sidecar_query(file: FileMetaView, file_type: FileType) -> PlanView {
    PlanView::Scan {
        file_type,
        files: seq![ScanFileView { meta: file, constants: seq![] }],
        constants: seq![],
        schema: sidecar_only_view(),
    }
}

/// Whether the requests are those of a scan of the sidecar column: the plan is run, and unless
/// that fails its batches are taken.
pub open spec fn is_scan<B>(asked: Seq<Exchange<B>>, plan: PlanView) -> bool {
    &&& asked.len() > 0
    &&& run_of(asked[0], plan) matches Some(answer)
    &&& match answer {
        Err(_) => asked.len() == 1,
        Ok(batches) => are_pulls(asked.skip(1), batches),
    }
}

/// The file of the first sidecar that a scan of the sidecar column found.
pub open spec fn probed_file<B>(asked: Seq<Exchange<B>>, log_root: Seq<char>) -> Result<
    Option<FileMetaView>,
    Error,
> {
    match asked[0] {
        Exchange::Query(_, Err(e)) => Err(e),
        _ => match found_by(asked.skip(1)) {
            Err(e) => Err(e),
            Ok(None) => Ok(None),
            Ok(Some(sidecar)) => match sidecar@.file(log_root) {
                Ok(file) => Ok(Some(file)),
                Err(e) => Err(e),
            },
        },
    }
}

/// Reads the sidecar column of a checkpoint file and returns the file of the first sidecar in it:
/// enough to tell a manifest from a leaf and to look at one sidecar, not all of them.
pub fn collect_single_sidecar<E: PlanExecutor>(
    session: &mut Session<E>,
    file: &FileMeta,
    file_format: FileType,
    log_root: &str,
) -> (r: Result<Option<FileMeta>, Error>)
    ensures
        went_on(old(session), final(session)),
        ({
            let asked = asked_between(old(session).log(), final(session).log());
            &&& is_scan(asked, sidecar_query(file@, file_format))
            &&& probed_file(asked, log_root@) == match r {
                Ok(None) => Ok(None),
                Ok(Some(found)) => Ok(Some(found@)),
                Err(e) => Err(e),
            }
        }),
{
    let read_schema = LogSegment::sidecar_read_schema();
    let files = vec![ScanFile::plain(file.copy())];
    assert(scan_files_view(files@) =~= seq![
        ScanFileView { meta: file@, constants: seq![] },
    ]);
    let no_constants: [&str; 0] = [];
    proof {
        assert(strs_view(no_constants@) =~= seq![]);
    }
    let relation = match file_format {
        FileType::Parquet => PlanBuilder::scan_parquet(files, &no_constants, read_schema),
        FileType::Json => PlanBuilder::scan_json(files, &no_constants, read_schema),
    };
    let plan = relation?.build()?;
    assert(plan@ == sidecar_query(file@, file_format));
    let ghost start = *session;
    let answer = session.query(plan);
    let ghost middle = *session;
    let ghost run = Exchange::Query(plan, opened(answer));
    proof {
        lemma_one_request(&start, session, run);
    }
    let mut scan = answer?;
    let first = first_sidecar(session, &mut scan);
    proof {
        lemma_requests_add_up(&start, &middle, session);
        assert(asked_between(start.log(), session.log())[0] == run);
    }
    match first? {
        Some(sidecar) => {
            let found = sidecar.to_filemeta(log_root)?;
            Ok(Some(found))
        },
        None => Ok(None),
    }
}

// --- Shapes ---

/// The wanted schema of statistics, by value.
pub open spec fn wanted(stats_schema: Option<&SchemaRef>) -> Option<SchemaRef> {
    match stats_schema {
        Some(schema) => Some(*schema),
        None => None,
    }
}

/// Whether `parsed` is what a file of the given schema offers of the wanted statistics: all of
/// them if the rules find the two schemas compatible, else nothing.
pub open spec fn offers<R: StatsRules>(
    file_schema: Option<SchemaRef>,
    stats_schema: Option<SchemaRef>,
    parsed: Option<SchemaRef>,
) -> bool {
    match (file_schema, stats_schema) {
        (Some(file), Some(stats)) => exists|compatible: bool|
            {
                &&& #[trigger] call_ensures(
                    R::schema_has_compatible_stats_parsed,
                    (&*file, &*stats),
                    compatible,
                )
                &&& parsed == if compatible {
                    Some(stats)
                } else {
                    None
                }
            },
        _ => parsed is None,
    }
}

/// Whether a shape is that of a checkpoint of the given type whose file actions lie in a file of
/// the given schema.
pub open spec fn shape_of<R: StatsRules>(
    checkpoint_type: CheckpointType,
    file_schema: Option<SchemaRef>,
    stats_schema: Option<SchemaRef>,
    shape: CheckpointShape,
) -> bool {
    &&& shape.checkpoint_type == checkpoint_type
    &&& offers::<R>(file_schema, stats_schema, shape.parsed_stats_schema)
}

/// Whether an outcome is that of a checkpoint of the given type whose file actions lie in the file
/// that a footer was read from.
pub open spec fn footer_decides<R: StatsRules>(
    checkpoint_type: CheckpointType,
    answer: Result<ParquetFooter, Error>,
    stats_schema: Option<SchemaRef>,
    outcome: Result<CheckpointShape, Error>,
) -> bool {
    match (answer, outcome) {
        (Err(e), Err(f)) => e == f,
        (Ok(footer), Ok(shape)) => shape_of::<R>(
            checkpoint_type,
            Some(footer.schema),
            stats_schema,
            shape,
        ),
        _ => false,
    }
}

/// Whether an outcome is an error that is given.
pub open spec fn fails_with(outcome: Result<CheckpointShape, Error>, error: Error) -> bool {
    outcome matches Err(e) && e == error
}

/// Whether the engine was asked what a manifest calls for, and the outcome follows from its
/// answers: the footer of the sidecar if statistics are wanted, else nothing.
pub open spec fn resolves_manifest<R: StatsRules, B>(
    sidecar: FileMetaView,
    stats_schema: Option<SchemaRef>,
    asked: Seq<Exchange<B>>,
    outcome: Result<CheckpointShape, Error>,
) -> bool {
    if stats_schema is None {
        &&& asked.len() == 0
        &&& outcome matches Ok(shape)
        &&& shape_of::<R>(CheckpointType::Manifest, None, None, shape)
    } else {
        &&& asked.len() == 1
        &&& footer_of(asked[0], sidecar) matches Some(answer)
        &&& footer_decides::<R>(CheckpointType::Manifest, answer, stats_schema, outcome)
    }
}

/// Whether the engine was asked what a hint of the checkpoint's sidecars calls for, and the
/// outcome follows from its answers. A hint that lists sidecars means a manifest, one that lists
/// none a leaf. Of a leaf, the schema is read only if it is a Parquet file, statistics are wanted,
/// and the schema is not already known.
pub open spec fn resolves_hint<R: StatsRules, B>(
    segment: &LogSegment,
    root: FileMetaView,
    file_type: FileType,
    stats_schema: Option<SchemaRef>,
    asked: Seq<Exchange<B>>,
    outcome: Result<CheckpointShape, Error>,
) -> bool
    recommends
        segment.checkpoint_sidecars is Some,
{
    let sidecars = segment@.checkpoint_sidecars->0;
    if sidecars.len() > 0 {
        match sidecars[0].file(segment@.log_root) {
            Err(e) => asked.len() == 0 && fails_with(outcome, e),
            Ok(sidecar) => resolves_manifest::<R, _>(sidecar, stats_schema, asked, outcome),
        }
    } else if file_type == FileType::Json || stats_schema is None {
        &&& asked.len() == 0
        &&& outcome matches Ok(shape)
        &&& shape_of::<R>(CheckpointType::Leaf, None, stats_schema, shape)
    } else if segment.checkpoint_schema is Some {
        &&& asked.len() == 0
        &&& outcome matches Ok(shape)
        &&& shape_of::<R>(CheckpointType::Leaf, segment.checkpoint_schema, stats_schema, shape)
    } else {
        &&& asked.len() == 1
        &&& footer_of(asked[0], root) matches Some(answer)
        &&& footer_decides::<R>(CheckpointType::Leaf, answer, stats_schema, outcome)
    }
}

/// How many requests are made before the first for a footer.
pub open spec fn until_footer<B>(asked: Seq<Exchange<B>>) -> nat
    decreases asked.len(),
{
    if asked.len() == 0 || asked[0] is Footer {
        0
    } else {
        1 + until_footer(asked.drop_first())
    }
}

/// Requests for no footer, followed by none or by one for a footer.
proof fn lemma_until_footer<B>(before: Seq<Exchange<B>>, after: Seq<Exchange<B>>)
    requires
        forall|i: int| 0 <= i < before.len() ==> !((#[trigger] before[i]) is Footer),
        after.len() > 0 ==> after[0] is Footer,
    ensures
        until_footer(before + after) == before.len(),
        (before + after).take(before.len() as int) == before,
        (before + after).skip(before.len() as int) == after,
    decreases before.len(),
{
    let all = before + after;
    assert(all.take(before.len() as int) =~= before);
    assert(all.skip(before.len() as int) =~= after);
    if before.len() > 0 {
        assert(all[0] == before[0]);
        assert(all.drop_first() =~= before.drop_first() + after);
        lemma_until_footer(before.drop_first(), after);
    }
}

/// A scan of the sidecar column asks for no footer.
proof fn lemma_scan_asks_no_footer<B>(asked: Seq<Exchange<B>>, plan: PlanView)
    requires
        is_scan(asked, plan),
    ensures
        forall|i: int| 0 <= i < asked.len() ==> !((#[trigger] asked[i]) is Footer),
{
    let pulls = asked.skip(1);
    assert forall|i: int| 0 <= i < asked.len() implies !((#[trigger] asked[i]) is Footer) by {
        if i > 0 {
            assert(asked[i] == pulls[i - 1]);
            if i - 1 < pulls.len() - 1 {
                assert(is_fruitless(pulls[i - 1]));
            }
        }
    }
}

/// Whether the engine was asked to scan the sidecar column of the checkpoint, and the outcome
/// follows from its answers: a manifest if there is a sidecar, else a leaf of the given schema.
/// The scan goes no further than the first sidecar.
pub open spec fn resolves_scan<R: StatsRules, B>(
    segment: &LogSegment,
    root: FileMetaView,
    file_type: FileType,
    leaf_schema: Option<SchemaRef>,
    stats_schema: Option<SchemaRef>,
    asked: Seq<Exchange<B>>,
    outcome: Result<CheckpointShape, Error>,
) -> bool {
    let n = until_footer(asked) as int;
    let scan = asked.take(n);
    &&& is_scan(scan, sidecar_query(root, file_type))
    &&& match probed_file(scan, segment@.log_root) {
        Err(e) => asked.len() == n && fails_with(outcome, e),
        Ok(Some(sidecar)) => resolves_manifest::<R, _>(
            sidecar,
            stats_schema,
            asked.skip(n),
            outcome,
        ),
        Ok(None) => {
            &&& asked.len() == n
            &&& outcome matches Ok(shape)
            &&& shape_of::<R>(CheckpointType::Leaf, leaf_schema, stats_schema, shape)
        },
    }
}

/// Whether the engine was asked what a Parquet checkpoint of the given schema calls for, and the
/// outcome follows from its answers. Without a sidecar column it is a leaf; with one it is scanned,
/// for the column may hold nothing but nulls.
pub open spec fn resolves_parquet<R: StatsRules, B>(
    segment: &LogSegment,
    root: FileMetaView,
    schema: SchemaRef,
    stats_schema: Option<SchemaRef>,
    asked: Seq<Exchange<B>>,
    outcome: Result<CheckpointShape, Error>,
) -> bool {
    if has_field(schema@, SIDECAR_NAME@) {
        resolves_scan::<R, _>(
            segment,
            root,
            FileType::Parquet,
            Some(schema),
            stats_schema,
            asked,
            outcome,
        )
    } else {
        &&& asked.len() == 0
        &&& outcome matches Ok(shape)
        &&& shape_of::<R>(CheckpointType::Leaf, Some(schema), stats_schema, shape)
    }
}

/// Whether the engine was asked what a snapshot calls for, in order and nothing else, and the
/// outcome follows from its answers.
pub open spec fn resolves<R: StatsRules, B>(
    segment: &LogSegment,
    stats_schema: Option<SchemaRef>,
    asked: Seq<Exchange<B>>,
    outcome: Result<CheckpointShape, Error>,
) -> bool {
    let parts = segment@.checkpoint_parts;
    if parts.len() == 0 {
        &&& asked.len() == 0
        &&& outcome matches Ok(shape)
        &&& shape_of::<R>(CheckpointType::Absent, None, None, shape)
    } else {
        let root = parts[0].location;
        let file_type = parts[0].file_type();
        if segment.checkpoint_sidecars is Some {
            resolves_hint::<R, _>(segment, root, file_type, stats_schema, asked, outcome)
        } else if file_type == FileType::Json {
            resolves_scan::<R, _>(segment, root, file_type, None, stats_schema, asked, outcome)
        } else {
            match segment.checkpoint_schema {
                Some(schema) => resolves_parquet::<R, _>(
                    segment,
                    root,
                    schema,
                    stats_schema,
                    asked,
                    outcome,
                ),
                None => {
                    &&& asked.len() >= 1
                    &&& footer_of(asked[0], root) matches Some(answer)
                    &&& match answer {
                        Err(e) => asked.len() == 1 && fails_with(outcome, e),
                        Ok(footer) => resolves_parquet::<R, _>(
                            segment,
                            root,
                            footer.schema,
                            stats_schema,
                            asked.skip(1),
                            outcome,
                        ),
                    }
                },
            }
        }
    }
}

impl CheckpointShape {
    /// Resolves the shape of a snapshot's checkpoint: its type and, if statistics are wanted,
    /// whether it holds parsed ones that are compatible.
    pub fn try_new<E: PlanExecutor, R: StatsRules>(
        session: &mut Session<E>,
        snapshot: &Snapshot,
        stats_schema: Option<&SchemaRef>,
    ) -> (r: Result<CheckpointShape, Error>)
        ensures
            went_on(old(session), final(session)),
            resolves::<R, _>(
                &snapshot.log_segment,
                wanted(stats_schema),
                asked_between(old(session).log(), final(session).log()),
                r,
            ),
    {
        let segment = snapshot.log_segment();
        proof {
            lemma_no_request(session);
        }
        if segment.listed.checkpoint_parts.len() == 0 {
            return Ok(
                CheckpointShape {
                    checkpoint_type: CheckpointType::Absent,
                    parsed_stats_schema: None,
                },
            );
        }
        let root = &segment.listed.checkpoint_parts[0].location;
        let file_type = segment.listed.checkpoint_parts[0].file_type();
        assert(segment@.checkpoint_parts[0] == segment.listed.checkpoint_parts@[0]@);

        // Classify from the hint when there is one, else inspect the file.
        if let Some(shape) = CheckpointShape::from_v2_checkpoint_hint::<E, R>(
            session,
            segment,
            root,
            file_type,
            stats_schema,
        )? {
            return Ok(shape);
        }
        let ghost start = *session;
        match file_type {
            FileType::Parquet => {
                let cp_schema = match segment.checkpoint_schema() {
                    Some(schema) => schema,
                    None => {
                        let file = root.copy();
                        let answer = session.read_parquet_footer(file);
                        proof {
                            lemma_one_request(&start, session, Exchange::Footer(file, answer));
                        }
                        answer?.schema
                    },
                };
                let ghost middle = *session;
                // No sidecar column means that the file actions are inline.
                if !cp_schema.contains(SIDECAR_NAME) {
                    proof {
                        lemma_no_request(&middle);
                        lemma_requests_add_up(&start, &middle, session);
                    }
                    return Ok(CheckpointShape::try_new_leaf::<R>(Some(cp_schema), stats_schema));
                }
                let r = CheckpointShape::scan_for_sidecar::<E, R>(
                    session,
                    segment,
                    root,
                    file_type,
                    Some(cp_schema),
                    stats_schema,
                );
                proof {
                    lemma_requests_add_up(&start, &middle, session);
                }
                r
            },
            // A JSON checkpoint has no footer, hence no schema and no parsed statistics.
            FileType::Json => {
                CheckpointShape::scan_for_sidecar::<E, R>(
                    session,
                    segment,
                    root,
                    file_type,
                    None,
                    stats_schema,
                )
            },
        }
    }

    /// A manifest if the sidecar column of the checkpoint holds a sidecar, else a leaf of the
    /// given schema.
    fn scan_for_sidecar<E: PlanExecutor, R: StatsRules>(
        session: &mut Session<E>,
        segment: &LogSegment,
        root: &FileMeta,
        file_type: FileType,
        leaf_schema: Option<SchemaRef>,
        stats_schema: Option<&SchemaRef>,
    ) -> (r: Result<CheckpointShape, Error>)
        ensures
            went_on(old(session), final(session)),
            resolves_scan::<R, _>(
                segment,
                root@,
                file_type,
                leaf_schema,
                wanted(stats_schema),
                asked_between(old(session).log(), final(session).log()),
                r,
            ),
    {
        let ghost start = *session;
        let probe = collect_single_sidecar(session, root, file_type, segment.log_root.as_str());
        let ghost middle = *session;
        let ghost scan = asked_between(start.log(), middle.log());
        proof {
            lemma_scan_asks_no_footer(scan, sidecar_query(root@, file_type));
            lemma_until_footer(scan, seq![]);
            assert(scan + seq![] =~= scan);
        }
        match probe? {
            Some(sidecar) => {
                let r = CheckpointShape::try_new_manifest::<E, R>(session, sidecar, stats_schema);
                proof {
                    lemma_requests_add_up(&start, &middle, session);
                    lemma_until_footer(scan, asked_between(middle.log(), session.log()));
                }
                r
            },
            None => Ok(CheckpointShape::try_new_leaf::<R>(leaf_schema, stats_schema)),
        }
    }

    /// Classifies the checkpoint from the hint of its sidecars, without reading the checkpoint
    /// for its sidecars. Returns nothing if there is no hint. A hint that lists sidecars means a
    /// manifest, one that lists none a leaf.
    pub fn from_v2_checkpoint_hint<E: PlanExecutor, R: StatsRules>(
        session: &mut Session<E>,
        segment: &LogSegment,
        root_checkpoint: &FileMeta,
        file_type: FileType,
        stats_schema: Option<&SchemaRef>,
    ) -> (r: Result<Option<CheckpointShape>, Error>)
        ensures
            went_on(old(session), final(session)),
            segment.checkpoint_sidecars is None ==> {
                &&& *final(session) == *old(session)
                &&& r == Ok::<Option<CheckpointShape>, Error>(None)
            },
            segment.checkpoint_sidecars is Some ==> {
                &&& r matches Ok(shape) ==> shape is Some
                &&& resolves_hint::<R, _>(
                    segment,
                    root_checkpoint@,
                    file_type,
                    wanted(stats_schema),
                    asked_between(old(session).log(), final(session).log()),
                    match r {
                        Ok(shape) => Ok(shape->0),
                        Err(e) => Err(e),
                    },
                )
            },
    {
        proof {
            lemma_no_request(session);
        }
        let ghost start = *session;
        let sidecars = match &segment.checkpoint_sidecars {
            Some(sidecars) => sidecars,
            None => {
                return Ok(None);
            },
        };
        if sidecars.len() > 0 {
            assert(segment@.checkpoint_sidecars->0[0] == sidecars@[0]@);
            let sidecar_meta = sidecars[0].to_filemeta(segment.log_root.as_str())?;
            let shape = CheckpointShape::try_new_manifest::<E, R>(
                session,
                sidecar_meta,
                stats_schema,
            )?;
            return Ok(Some(shape));
        }
        // A Parquet leaf's statistics live in its own schema; read it only if they are wanted.
        let leaf_schema = match file_type {
            FileType::Parquet => {
                if stats_schema.is_some() {
                    match segment.checkpoint_schema() {
                        Some(schema) => Some(schema),
                        None => {
                            let file = root_checkpoint.copy();
                            let answer = session.read_parquet_footer(file);
                            proof {
                                lemma_one_request(&start, session, Exchange::Footer(file, answer));
                            }
                            Some(answer?.schema)
                        },
                    }
                } else {
                    None
                }
            },
            FileType::Json => None,
        };
        Ok(Some(CheckpointShape::try_new_leaf::<R>(leaf_schema, stats_schema)))
    }

    /// The shape of a manifest. Its file actions and their statistics live in the sidecars, so
    /// the footer of a sidecar is read, but only if statistics are wanted. All sidecars of a
    /// checkpoint share one schema, so any of them will do.
    pub fn try_new_manifest<E: PlanExecutor, R: StatsRules>(
        session: &mut Session<E>,
        sidecar: FileMeta,
        stats_schema: Option<&SchemaRef>,
    ) -> (r: Result<CheckpointShape, Error>)
        ensures
            went_on(old(session), final(session)),
            resolves_manifest::<R, _>(
                sidecar@,
                wanted(stats_schema),
                asked_between(old(session).log(), final(session).log()),
                r,
            ),
    {
        proof {
            lemma_no_request(session);
        }
        let ghost start = *session;
        match stats_schema {
            Some(_) => {
                let answer = session.read_parquet_footer(sidecar);
                proof {
                    lemma_one_request(&start, session, Exchange::Footer(sidecar, answer));
                }
                let footer_schema = answer?.schema;
                Ok(
                    CheckpointShape {
                        checkpoint_type: CheckpointType::Manifest,
                        parsed_stats_schema: offered::<R>(Some(footer_schema), stats_schema),
                    },
                )
            },
            None => Ok(
                CheckpointShape {
                    checkpoint_type: CheckpointType::Manifest,
                    parsed_stats_schema: None,
                },
            ),
        }
    }

    /// The shape of a leaf. Its file actions are inline, so its own schema, if there is one to
    /// read, says what statistics it has.
    pub fn try_new_leaf<R: StatsRules>(
        leaf_schema: Option<SchemaRef>,
        stats_schema: Option<&SchemaRef>,
    ) -> (r: CheckpointShape)
        ensures
            shape_of::<R>(CheckpointType::Leaf, leaf_schema, wanted(stats_schema), r),
    {
        CheckpointShape {
            checkpoint_type: CheckpointType::Leaf,
            parsed_stats_schema: offered::<R>(leaf_schema, stats_schema),
        }
    }
}

/// What a file of the given schema offers of the wanted statistics.
fn offered<R: StatsRules>(file_schema: Option<SchemaRef>, stats_schema: Option<&SchemaRef>) -> (r:
    Option<SchemaRef>)
    ensures
        offers::<R>(file_schema, wanted(stats_schema), r),
{
    match (&file_schema, stats_schema) {
        (Some(file), Some(stats)) => {
            let compatible = R::schema_has_compatible_stats_parsed(&**file, &**stats);
            if compatible {
                Some(share(stats))
            } else {
                None
            }
        },
        _ => None,
    }
}

} // verus!
