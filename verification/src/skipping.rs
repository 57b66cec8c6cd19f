//! The predicate by which files are pruned on their metadata.

use vstd::prelude::*;

use crate::actions::{ADD_NAME, PARTITION_VALUES_PARSED, STATS_PARSED};
use crate::expressions::{
    exprs_view, lit, opt_predicate_view, predicates_view, strings_view, ColumnName, ComparisonOp,
    Expr, ExprView, PathView, Predicate, PredicateView, ScalarView,
};
use crate::schema::{opt_schema_view, share, SchemaRef, SchemaView};
use crate::stats_rules::StatsRules;

verus! {

/// The predicate of a scan, in terms of the columns that the files hold.
#[derive(Debug)]
pub enum PhysicalPredicate {
    /// The rows that satisfy a predicate, and the columns it reads.
    Given(Predicate, SchemaRef),
    /// No row at all, whatever the files hold.
    StaticSkipAll,
    /// All rows.
    Absent,
}

/// What a scan works out from the table's schema and its predicate.
#[derive(Debug)]
pub struct StateInfo {
    pub physical_predicate: PhysicalPredicate,
    /// The statistics to parse, for output or for pruning.
    pub physical_stats_schema: Option<SchemaRef>,
    /// The partition columns, if the table is partitioned.
    pub physical_partition_schema: Option<SchemaRef>,
    /// The columns that have statistics.
    pub physical_stats_columns: Vec<ColumnName>,
}

// --- Columns re-rooted under `add` ---

/// Where a metadata column stands in the rows of a plan: what lies below the parsed statistics or
/// the parsed partition values lies below `add` there; other columns stay.
pub open spec fn reroot_path(path: PathView) -> PathView {
    if path.len() > 0 && (path[0] == STATS_PARSED@ || path[0] == PARTITION_VALUES_PARSED@) {
        seq![ADD_NAME@] + path
    } else {
        path
    }
}

/// An expression with every column re-rooted.
pub open spec fn reroot_expr(e: ExprView) -> ExprView
    decreases e,
{
    match e {
        ExprView::Literal(s) => e,
        ExprView::Column(path) => ExprView::Column(reroot_path(path)),
        ExprView::Predicate(p) => ExprView::Predicate(Box::new(reroot_pred(*p))),
        ExprView::Struct(es, n) => ExprView::Struct(
            reroot_exprs(es),
            match n {
                Some(c) => Some(Box::new(reroot_expr(*c))),
                None => None,
            },
        ),
        ExprView::Coalesce(es) => ExprView::Coalesce(reroot_exprs(es)),
        ExprView::ParseJson(c, s) => ExprView::ParseJson(Box::new(reroot_expr(*c)), s),
        ExprView::MapToStruct(c) => ExprView::MapToStruct(Box::new(reroot_expr(*c))),
        ExprView::Arithmetic(op, l, r) => ExprView::Arithmetic(
            op,
            Box::new(reroot_expr(*l)),
            Box::new(reroot_expr(*r)),
        ),
    }
}

/// A predicate with every column re-rooted.
pub open spec fn reroot_pred(p: PredicateView) -> PredicateView
    decreases p,
{
    match p {
        PredicateView::BooleanExpression(e) => PredicateView::BooleanExpression(reroot_expr(e)),
        PredicateView::Not(q) => PredicateView::Not(Box::new(reroot_pred(*q))),
        PredicateView::IsNull(e) => PredicateView::IsNull(reroot_expr(e)),
        PredicateView::Comparison(op, l, r) => PredicateView::Comparison(
            op,
            reroot_expr(l),
            reroot_expr(r),
        ),
        PredicateView::Junction(op, ps) => PredicateView::Junction(op, reroot_preds(ps)),
    }
}

/// Expressions with every column re-rooted.
pub open spec fn reroot_exprs(es: Seq<ExprView>) -> Seq<ExprView>
    decreases es,
{
    Seq::new(
        es.len(),
        |i: int|
            if 0 <= i < es.len() {
                reroot_expr(es[i])
            } else {
                arbitrary()
            },
    )
}

/// Predicates with every column re-rooted.
pub open spec fn reroot_preds(ps: Seq<PredicateView>) -> Seq<PredicateView>
    decreases ps,
{
    Seq::new(
        ps.len(),
        |i: int|
            if 0 <= i < ps.len() {
                reroot_pred(ps[i])
            } else {
                arbitrary()
            },
    )
}

/// Re-roots metadata columns under `add`.
pub struct MetadataSkippingColumnPrefixer;

impl MetadataSkippingColumnPrefixer {
    /// Where a metadata column stands in the rows of a plan.
    pub fn transform_expr_column(&self, name: &ColumnName) -> (r: ColumnName)
        ensures
            r@ == reroot_path(name@),
    {
        let stats = STATS_PARSED.to_owned();
        let partitions = PARTITION_VALUES_PARSED.to_owned();
        let path = &name.path;
        if path.len() > 0 {
            assert(name@[0] == path@[0]@);
            if path[0] == stats || path[0] == partitions {
                let root = ColumnName::new(&[ADD_NAME]);
                assert(root@ =~= seq![ADD_NAME@]);
                return root.join(name);
            }
        }
        name.copy()
    }

    /// An expression with every column re-rooted.
    pub fn transform_expr(&self, e: &Expr) -> (r: Expr)
        ensures
            r@ == reroot_expr(e@),
        decreases e,
    {
        match e {
            Expr::Literal(s) => Expr::Literal(s.copy()),
            Expr::Column(c) => Expr::Column(self.transform_expr_column(c)),
            Expr::Predicate(p) => Expr::Predicate(Box::new(self.transform_pred(p))),
            Expr::Struct(es, n) => {
                let children = self.transform_exprs(es);
                match n {
                    Some(c) => Expr::Struct(children, Some(Box::new(self.transform_expr(c)))),
                    None => Expr::Struct(children, None),
                }
            },
            Expr::Coalesce(es) => Expr::Coalesce(self.transform_exprs(es)),
            Expr::ParseJson(c, s) => Expr::ParseJson(Box::new(self.transform_expr(c)), share(s)),
            Expr::MapToStruct(c) => Expr::MapToStruct(Box::new(self.transform_expr(c))),
            Expr::Arithmetic(op, l, r) => Expr::Arithmetic(
                *op,
                Box::new(self.transform_expr(l)),
                Box::new(self.transform_expr(r)),
            ),
        }
    }

    /// A predicate with every column re-rooted.
    pub fn transform_pred(&self, p: &Predicate) -> (r: Predicate)
        ensures
            r@ == reroot_pred(p@),
        decreases p,
    {
        match p {
            Predicate::BooleanExpression(e) => Predicate::BooleanExpression(self.transform_expr(e)),
            Predicate::Not(q) => Predicate::Not(Box::new(self.transform_pred(q))),
            Predicate::IsNull(e) => Predicate::IsNull(self.transform_expr(e)),
            Predicate::Comparison(op, l, r) => Predicate::Comparison(
                *op,
                self.transform_expr(l),
                self.transform_expr(r),
            ),
            Predicate::Junction(op, ps) => Predicate::Junction(*op, self.transform_preds(ps)),
        }
    }

    fn transform_exprs(&self, es: &Vec<Expr>) -> (r: Vec<Expr>)
        ensures
            exprs_view(r@) == reroot_exprs(exprs_view(es@)),
        decreases es,
    {
        let mut out: Vec<Expr> = Vec::new();
        let mut i: usize = 0;
        while i < es.len()
            invariant
                i <= es.len(),
                out.len() == i,
                forall|j: int| 0 <= j < i ==> (#[trigger] out@[j])@ == reroot_expr(es@[j]@),
            decreases es.len() - i,
        {
            assert(decreases_to!(es => es@[i as int]));
            out.push(self.transform_expr(&es[i]));
            i = i + 1;
        }
        assert(exprs_view(out@) =~= reroot_exprs(exprs_view(es@)));
        out
    }

    fn transform_preds(&self, ps: &Vec<Predicate>) -> (r: Vec<Predicate>)
        ensures
            predicates_view(r@) == reroot_preds(predicates_view(ps@)),
        decreases ps,
    {
        let mut out: Vec<Predicate> = Vec::new();
        let mut i: usize = 0;
        while i < ps.len()
            invariant
                i <= ps.len(),
                out.len() == i,
                forall|j: int| 0 <= j < i ==> (#[trigger] out@[j])@ == reroot_pred(ps@[j]@),
            decreases ps.len() - i,
        {
            assert(decreases_to!(ps => ps@[i as int]));
            out.push(self.transform_pred(&ps[i]));
            i = i + 1;
        }
        assert(predicates_view(out@) =~= reroot_preds(predicates_view(ps@)));
        out
    }
}

// --- The pruning predicate ---

/// The predicate that keeps a file unless a skipping predicate is false on its metadata. A null
/// verdict means that the metadata cannot prove the file skippable.
pub open spec fn keep_unless_false(skipping: PredicateView) -> PredicateView {
    PredicateView::Comparison(
        ComparisonOp::Distinct,
        skipping.as_expr(),
        ExprView::Literal(ScalarView::Boolean(false)),
    )
}

/// The pruning predicate that a skipping predicate amounts to, on the rows of a plan.
pub open spec fn pruning_predicate(skipping: PredicateView) -> PredicateView {
    reroot_pred(keep_unless_false(skipping))
}

/// The names of the partition columns.
pub open spec fn partition_names(schema: Option<SchemaView>) -> PathView {
    match schema {
        Some(fields) => Seq::new(fields.len(), |i: int| fields[i].name),
        None => seq![],
    }
}

/// The pruning predicate that a skipping predicate amounts to, on the rows of a plan.
pub fn prune_by(skipping: Predicate) -> (r: Predicate)
    ensures
        r@ == pruning_predicate(skipping@),
{
    let kept = Predicate::distinct(Expr::from_pred(skipping), lit(false));
    let prefixer = MetadataSkippingColumnPrefixer;
    prefixer.transform_pred(&kept)
}

fn partition_column_names(schema: &Option<SchemaRef>) -> (r: Vec<String>)
    ensures
        strings_view(r@) == partition_names(opt_schema_view(*schema)),
{
    let mut out: Vec<String> = Vec::new();
    match schema {
        Some(schema) => {
            let mut i: usize = 0;
            while i < schema.fields.len()
                invariant
                    i <= schema.fields.len(),
                    out.len() == i,
                    forall|j: int| 0 <= j < i ==> (#[trigger] out@[j])@ == schema@[j].name,
                decreases schema.fields.len() - i,
            {
                out.push(schema.fields[i].name.clone());
                i = i + 1;
            }
        },
        None => {},
    }
    assert(strings_view(out@) =~= partition_names(opt_schema_view(*schema)));
    out
}

/// Whether `skipping` is what the rules give for the predicate of a scan; nothing if the scan has
/// no predicate.
pub open spec fn skipping_of<R: StatsRules>(
    state: &StateInfo,
    skipping: Option<Predicate>,
) -> bool {
    match state.physical_predicate {
        PhysicalPredicate::Given(predicate, _) => exists|columns: Vec<String>|
            {
                &&& strings_view(columns@) == partition_names(
                    opt_schema_view(state.physical_partition_schema),
                )
                &&& #[trigger] call_ensures(
                    R::as_sql_data_skipping_predicate_with_stats_columns,
                    (&predicate, &columns, &state.physical_stats_columns),
                    skipping,
                )
            },
        _ => skipping is None,
    }
}

/// Whether `prune` is the pruning predicate of a scan: what its skipping predicate amounts to, or
/// nothing where no pruning is possible.
pub open spec fn prunes<R: StatsRules>(state: &StateInfo, prune: Option<PredicateView>) -> bool {
    exists|skipping: Option<Predicate>|
        {
            &&& #[trigger] skipping_of::<R>(state, skipping)
            &&& prune == match skipping {
                Some(p) => Some(pruning_predicate(p@)),
                None => None,
            }
        }
}

/// The pruning predicate of a scan; nothing where no pruning is possible.
pub fn stats_skipping_predicate<R: StatsRules>(state: &StateInfo) -> (r: Option<Predicate>)
    ensures
        prunes::<R>(state, opt_predicate_view(r)),
{
    match &state.physical_predicate {
        PhysicalPredicate::Given(predicate, _) => {
            let columns = partition_column_names(&state.physical_partition_schema);
            let skipping = R::as_sql_data_skipping_predicate_with_stats_columns(
                predicate,
                &columns,
                &state.physical_stats_columns,
            );
            assert(skipping_of::<R>(state, skipping));
            match skipping {
                Some(p) => Some(prune_by(p)),
                None => None,
            }
        },
        _ => {
            assert(skipping_of::<R>(state, None));
            None
        },
    }
}

} // verus!
