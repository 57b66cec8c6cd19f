//! The engine that reads files and runs plans, and the record of what it was asked.

use std::sync::Arc;

use vstd::prelude::*;

use crate::actions::Sidecar;
use crate::error::Error;
use crate::files::FileMeta;
use crate::plan::Plan;
use crate::schema::SchemaRef;

verus! {

/// What the footer of a Parquet file says.
#[derive(Debug)]
pub struct ParquetFooter {
    pub schema: SchemaRef,
}

/// Some rows of a scan of the sidecar column: a sidecar, or null.
#[derive(Debug)]
pub struct SidecarBatch {
    pub rows: Vec<Option<Sidecar>>,
}

/// The batches of a scan of the sidecar column, handed out one by one. Nothing is promised of them,
/// not even that they come to an end.
pub trait SidecarBatches {
    /// The next batch, which may have failed, or nothing after the last one.
    fn next(&mut self) -> Option<Result<SidecarBatch, Error>>;
}

/// Work for an engine.
#[derive(Debug)]
pub enum Operation {
    /// Run a plan and return its rows.
    QueryPlan(Arc<Plan>),
}

/// The engine that reads files and runs plans. Nothing is promised of its answers.
pub trait PlanExecutor {
    /// The batches of a scan.
    type Batches: SidecarBatches;

    /// Read the footer of a Parquet file.
    fn read_parquet_footer(&self, file: FileMeta) -> Result<ParquetFooter, Error>;

    /// Run a plan that scans the sidecar column.
    fn execute_op(&self, op: Operation) -> Result<Self::Batches, Error>;
}

/// The batches of one run of a plan. They can be taken by a session only.
pub struct OpenScan<B> {
    batches: B,
}

impl<B> View for OpenScan<B> {
    type V = B;

    /// The batches that are left.
    closed spec fn view(&self) -> B {
        self.batches
    }
}

/// One request to the engine and its answer.
pub enum Exchange<B> {
    Footer(FileMeta, Result<ParquetFooter, Error>),
    /// A plan to run, and its batches.
    Query(Arc<Plan>, Result<B, Error>),
    /// The batches that were left, the next one, and the batches that are left after it.
    Batch(B, Option<Result<SidecarBatch, Error>>, B),
}

/// Whether an outcome is one of taking the next of the given batches.
pub open spec fn is_next<B: SidecarBatches>(
    batches: B,
    outcome: Option<Result<SidecarBatch, Error>>,
) -> bool {
    exists|b: &mut B| *b == batches && #[trigger] call_ensures(B::next, (b,), outcome)
}

/// Whether the answers in a record are ones that the engine, and the batches that it handed out,
/// give to the requests in it.
pub open spec fn answered_by<E: PlanExecutor>(engine: E, log: Seq<Exchange<E::Batches>>) -> bool {
    forall|i: int|
        0 <= i < log.len() ==> match #[trigger] log[i] {
            Exchange::Footer(file, answer) => call_ensures(
                E::read_parquet_footer,
                (&engine, file),
                answer,
            ),
            Exchange::Query(plan, answer) => call_ensures(
                E::execute_op,
                (&engine, Operation::QueryPlan(plan)),
                answer,
            ),
            Exchange::Batch(before, answer, _) => is_next(before, answer),
        }
}

/// The batches of a run, if the run did not fail.
pub open spec fn opened<B>(r: Result<OpenScan<B>, Error>) -> Result<B, Error> {
    match r {
        Ok(scan) => Ok(scan@),
        Err(e) => Err(e),
    }
}

/// An engine together with a record of the requests that were made of it.
pub struct Session<'a, E: PlanExecutor> {
    engine: &'a E,
    log: Ghost<Seq<Exchange<E::Batches>>>,
}

impl<'a, E: PlanExecutor> Session<'a, E> {
    /// The engine.
    pub closed spec fn executor(&self) -> E {
        *self.engine
    }

    /// The requests made so far, with their answers.
    pub closed spec fn log(&self) -> Seq<Exchange<E::Batches>> {
        self.log@
    }

    /// A session in which nothing was asked yet.
    pub fn new(engine: &'a E) -> (r: Session<'a, E>)
        ensures
            r.executor() == *engine,
            r.log() == Seq::<Exchange<E::Batches>>::empty(),
    {
        Session { engine, log: Ghost(Seq::empty()) }
    }

    /// Read the footer of a Parquet file.
    pub fn read_parquet_footer(&mut self, file: FileMeta) -> (r: Result<ParquetFooter, Error>)
        ensures
            final(self).executor() == old(self).executor(),
            final(self).log() == old(self).log().push(Exchange::Footer(file, r)),
            call_ensures(E::read_parquet_footer, (&old(self).executor(), file), r),
    {
        let ghost asked = file;
        let r = self.engine.read_parquet_footer(file);
        proof {
            self.log@ = self.log@.push(Exchange::Footer(asked, r));
        }
        r
    }

    /// Run a plan that scans the sidecar column.
    pub fn query(&mut self, plan: Arc<Plan>) -> (r: Result<OpenScan<E::Batches>, Error>)
        ensures
            final(self).executor() == old(self).executor(),
            final(self).log() == old(self).log().push(Exchange::Query(plan, opened(r))),
            call_ensures(
                E::execute_op,
                (&old(self).executor(), Operation::QueryPlan(plan)),
                opened(r),
            ),
    {
        let ghost asked = plan;
        let answer = self.engine.execute_op(Operation::QueryPlan(plan));
        proof {
            self.log@ = self.log@.push(Exchange::Query(asked, answer));
        }
        match answer {
            Ok(batches) => Ok(OpenScan { batches }),
            Err(e) => Err(e),
        }
    }

    /// Take the next batch of a scan.
    pub fn pull(&mut self, scan: &mut OpenScan<E::Batches>) -> (r: Option<
        Result<SidecarBatch, Error>,
    >)
        ensures
            final(self).executor() == old(self).executor(),
            final(self).log() == old(self).log().push(
                Exchange::Batch(old(scan)@, r, final(scan)@),
            ),
            is_next(old(scan)@, r),
            exists|b: &mut E::Batches|
                *b == old(scan)@ && *final(b) == final(scan)@ && #[trigger] call_ensures(
                    <E::Batches as SidecarBatches>::next,
                    (b,),
                    r,
                ),
    {
        let ghost before = scan@;
        let r = scan.batches.next();
        proof {
            self.log@ = self.log@.push(Exchange::Batch(before, r, scan@));
        }
        r
    }
}

} // verus!
