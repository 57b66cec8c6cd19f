//! Relational plans and the builder that puts them together.
//!
//! A relation that holds no rows whatever the files hold is known as empty while the plan is built,
//! and the operators on it fold away.

use std::sync::Arc;

use vstd::prelude::*;

use crate::error::Error;
use crate::expressions::{
    exprs_view, strings_view, strs_view, ColumnName, Expr, ExprView, PathView, Predicate,
    PredicateView, Scalar, ScalarView,
};
use crate::files::{scalars_view, scan_files_view, FileType, ScanFile, ScanFileView};
use crate::schema::{
    fields_view, has_field, nullable_field, resolve, share, SchemaRef, SchemaView, StructField,
    StructType,
};
use crate::struct_patch::{PatchView, ProjectionStructPatchBuilder};

verus! {

/// The value of `value` in the row of a group where `order` is greatest, among the rows where
/// `witness` is not null; null if there is no such row.
#[derive(Debug, PartialEq)]
pub struct MaxNonNullBy {
    pub value: ColumnName,
    pub witness: ColumnName,
    pub order: ColumnName,
}

/// Where the rows of a relation name files to load, and how to read those.
#[derive(Debug, PartialEq)]
pub struct Load {
    pub schema: SchemaRef,
    pub file_type: FileType,
    /// The column of the location, as a URL reference.
    pub path: ColumnName,
    /// The column of the size in bytes.
    pub size: ColumnName,
    /// The column of the number of records, null if unknown.
    pub num_records: ColumnName,
    /// The column of the deletion vector of the file, null if it has none.
    pub deletion_vector: ColumnName,
    /// The URL that locations are resolved against.
    pub base_url: String,
    /// The columns that a loaded row takes over from the row that named its file.
    pub constants: Vec<String>,
}

/// A relational plan.
#[derive(Debug, PartialEq)]
pub enum Plan {
    /// The rows of files. A column named in `constants` holds the file's own constant.
    Scan {
        file_type: FileType,
        files: Vec<ScanFile>,
        constants: Vec<String>,
        schema: SchemaRef,
    },
    /// The given rows.
    Values { schema: SchemaRef, rows: Vec<Vec<Scalar>> },
    /// The rows for which the predicate is true.
    Filter { input: Arc<Plan>, predicate: Predicate },
    /// One row for each, computed by a struct expression.
    Project { input: Arc<Plan>, expr: Arc<Expr>, schema: SchemaRef },
    /// One row for each distinct value of the keys.
    Aggregate { input: Arc<Plan>, keys: Vec<ColumnName>, aggregates: Vec<MaxNonNullBy> },
    /// The rows of the left relation whose keys equal those of no row of the right one.
    AntiJoin {
        left: Arc<Plan>,
        right: Arc<Plan>,
        left_keys: Vec<ColumnName>,
        right_keys: Vec<ColumnName>,
    },
    /// The rows of all the relations.
    UnionAll { inputs: Vec<Arc<Plan>> },
    /// The rows of the files that the rows of the relation name.
    Load { input: Arc<Plan>, load: Load },
}

/// An aggregate as a mathematical value.
pub struct MaxNonNullByView {
    pub value: PathView,
    pub witness: PathView,
    pub order: PathView,
}

/// A load as a mathematical value.
pub struct LoadView {
    pub schema: SchemaView,
    pub file_type: FileType,
    pub path: PathView,
    pub size: PathView,
    pub num_records: PathView,
    pub deletion_vector: PathView,
    pub base_url: Seq<char>,
    pub constants: PathView,
}

/// A plan as a mathematical value.
pub enum PlanView {
    Scan {
        file_type: FileType,
        files: Seq<ScanFileView>,
        constants: PathView,
        schema: SchemaView,
    },
    Values { schema: SchemaView, rows: Seq<Seq<ScalarView>> },
    Filter { input: Box<PlanView>, predicate: PredicateView },
    Project { input: Box<PlanView>, expr: ExprView, schema: SchemaView },
    Aggregate {
        input: Box<PlanView>,
        keys: Seq<PathView>,
        aggregates: Seq<MaxNonNullByView>,
    },
    AntiJoin {
        left: Box<PlanView>,
        right: Box<PlanView>,
        left_keys: Seq<PathView>,
        right_keys: Seq<PathView>,
    },
    UnionAll { inputs: Seq<PlanView> },
    Load { input: Box<PlanView>, load: LoadView },
}

/// The schema of an aggregation: the keys, then the aggregated values, which may be null.
pub open spec fn aggregate_schema(
    schema: SchemaView,
    keys: Seq<PathView>,
    aggregates: Seq<MaxNonNullByView>,
) -> SchemaView {
    Seq::new(keys.len(), |i: int| resolve(schema, keys[i])->0) + Seq::new(
        aggregates.len(),
        |i: int|
            {
                let field = resolve(schema, aggregates[i].value)->0;
                nullable_field(field.name, field.data_type)
            },
    )
}

impl PlanView {
    /// The schema of the rows that the plan yields.
    pub open spec fn schema(self) -> SchemaView
        decreases self,
    {
        match self {
            PlanView::Scan { schema, .. } => schema,
            PlanView::Values { schema, .. } => schema,
            PlanView::Filter { input, .. } => input.schema(),
            PlanView::Project { schema, .. } => schema,
            PlanView::Aggregate { input, keys, aggregates } => aggregate_schema(
                input.schema(),
                keys,
                aggregates,
            ),
            PlanView::AntiJoin { left, .. } => left.schema(),
            PlanView::UnionAll { inputs } => if inputs.len() > 0 {
                inputs[0].schema()
            } else {
                seq![]
            },
            PlanView::Load { load, .. } => load.schema,
        }
    }
}

// --- Views ---

impl View for MaxNonNullBy {
    type V = MaxNonNullByView;

    open spec fn view(&self) -> MaxNonNullByView {
        MaxNonNullByView { value: self.value@, witness: self.witness@, order: self.order@ }
    }
}

impl View for Load {
    type V = LoadView;

    open spec fn view(&self) -> LoadView {
        LoadView {
            schema: self.schema@,
            file_type: self.file_type,
            path: self.path@,
            size: self.size@,
            num_records: self.num_records@,
            deletion_vector: self.deletion_vector@,
            base_url: self.base_url@,
            constants: strings_view(self.constants@),
        }
    }
}

/// The views of a sequence of columns.
pub open spec fn paths_view(columns: Seq<ColumnName>) -> Seq<PathView> {
    Seq::new(columns.len(), |i: int| columns[i]@)
}

/// The views of a sequence of aggregates.
pub open spec fn aggregates_view(aggregates: Seq<MaxNonNullBy>) -> Seq<MaxNonNullByView> {
    Seq::new(aggregates.len(), |i: int| aggregates[i]@)
}

/// The views of a sequence of rows.
pub open spec fn rows_view(rows: Seq<Vec<Scalar>>) -> Seq<Seq<ScalarView>> {
    Seq::new(rows.len(), |i: int| scalars_view(rows[i]@))
}

impl Plan {
    pub open spec fn view(&self) -> PlanView
        decreases self,
    {
        match self {
            Plan::Scan { file_type, files, constants, schema } => PlanView::Scan {
                file_type: *file_type,
                files: scan_files_view(files@),
                constants: strings_view(constants@),
                schema: schema@,
            },
            Plan::Values { schema, rows } => PlanView::Values {
                schema: schema@,
                rows: rows_view(rows@),
            },
            Plan::Filter { input, predicate } => PlanView::Filter {
                input: Box::new(input.view()),
                predicate: predicate@,
            },
            Plan::Project { input, expr, schema } => PlanView::Project {
                input: Box::new(input.view()),
                expr: expr@,
                schema: schema@,
            },
            Plan::Aggregate { input, keys, aggregates } => PlanView::Aggregate {
                input: Box::new(input.view()),
                keys: paths_view(keys@),
                aggregates: aggregates_view(aggregates@),
            },
            Plan::AntiJoin { left, right, left_keys, right_keys } => PlanView::AntiJoin {
                left: Box::new(left.view()),
                right: Box::new(right.view()),
                left_keys: paths_view(left_keys@),
                right_keys: paths_view(right_keys@),
            },
            Plan::UnionAll { inputs } => PlanView::UnionAll { inputs: plans_view(inputs@) },
            Plan::Load { input, load } => PlanView::Load {
                input: Box::new(input.view()),
                load: load@,
            },
        }
    }
}

/// The views of a sequence of plans.
pub open spec fn plans_view(plans: Seq<Arc<Plan>>) -> Seq<PlanView>
    decreases plans,
{
    Seq::new(
        plans.len(),
        |i: int|
            if 0 <= i < plans.len() {
                plans[i].view()
            } else {
                arbitrary()
            },
    )
}

// --- Relations under construction ---

/// A relation under construction, as a mathematical value. Without a plan it is empty.
pub struct RelationView {
    pub schema: SchemaView,
    pub plan: Option<PlanView>,
}

/// Whether every path leads to a field of the schema.
pub open spec fn all_resolve(schema: SchemaView, paths: Seq<PathView>) -> bool {
    forall|i: int| 0 <= i < paths.len() ==> resolve(schema, #[trigger] paths[i]) is Some
}

/// Whether every name is one of the schema's.
pub open spec fn all_named(schema: SchemaView, names: PathView) -> bool {
    forall|i: int| 0 <= i < names.len() ==> has_field(schema, #[trigger] names[i])
}

/// The value, witness and order columns of aggregates all lead to fields of the schema.
pub open spec fn aggregates_resolve(
    schema: SchemaView,
    aggregates: Seq<MaxNonNullByView>,
) -> bool {
    forall|i: int|
        0 <= i < aggregates.len() ==> {
            let a = #[trigger] aggregates[i];
            &&& resolve(schema, a.value) is Some
            &&& resolve(schema, a.witness) is Some
            &&& resolve(schema, a.order) is Some
        }
}

/// The plans of those relations that are not empty.
pub open spec fn live_plans(relations: Seq<RelationView>) -> Seq<PlanView>
    decreases relations.len(),
{
    if relations.len() == 0 {
        seq![]
    } else {
        let before = live_plans(relations.drop_last());
        match relations.last().plan {
            Some(plan) => before.push(plan),
            None => before,
        }
    }
}

impl RelationView {
    /// Whether the schema is that of the plan.
    pub open spec fn wf(self) -> bool {
        self.plan matches Some(plan) ==> plan.schema() == self.schema
    }

    /// A scan of files of actions.
    pub open spec fn scan(
        file_type: FileType,
        files: Seq<ScanFileView>,
        constants: PathView,
        schema: SchemaView,
    ) -> Result<RelationView, Error> {
        if !all_named(schema, constants) {
            Err(Error::UnknownColumn)
        } else if exists|i: int|
            0 <= i < files.len() && (#[trigger] files[i]).constants.len() != constants.len() {
            Err(Error::ArityMismatch)
        } else if files.len() == 0 {
            Ok(RelationView { schema, plan: None })
        } else {
            Ok(
                RelationView {
                    schema,
                    plan: Some(PlanView::Scan { file_type, files, constants, schema }),
                },
            )
        }
    }

    /// The relation of the given rows.
    pub open spec fn values(schema: SchemaView, rows: Seq<Seq<ScalarView>>) -> Result<
        RelationView,
        Error,
    > {
        if exists|i: int| 0 <= i < rows.len() && (#[trigger] rows[i]).len() != schema.len() {
            Err(Error::ArityMismatch)
        } else if rows.len() == 0 {
            Ok(RelationView { schema, plan: None })
        } else {
            Ok(RelationView { schema, plan: Some(PlanView::Values { schema, rows }) })
        }
    }

    /// The rows for which a predicate is true.
    pub open spec fn filter(self, predicate: PredicateView) -> RelationView {
        RelationView {
            schema: self.schema,
            plan: match self.plan {
                Some(plan) => Some(PlanView::Filter { input: Box::new(plan), predicate }),
                None => None,
            },
        }
    }

    /// The rows for which a predicate is true, if there is one.
    pub open spec fn filter_opt(self, predicate: Option<PredicateView>) -> RelationView {
        match predicate {
            Some(p) => self.filter(p),
            None => self,
        }
    }

    /// One row for each, of the given schema.
    pub open spec fn project(self, expr: ExprView, schema: SchemaView) -> Result<
        RelationView,
        Error,
    > {
        if expr matches ExprView::Struct(children, _) && children.len() == schema.len() {
            Ok(
                RelationView {
                    schema,
                    plan: match self.plan {
                        Some(plan) => Some(
                            PlanView::Project { input: Box::new(plan), expr, schema },
                        ),
                        None => None,
                    },
                },
            )
        } else {
            Err(Error::ArityMismatch)
        }
    }

    /// The projection that a patch describes.
    pub open spec fn project_patch(self, patch: PatchView) -> Result<RelationView, Error> {
        match patch.slots {
            Ok(_) => self.project(patch.expr(), patch.schema()),
            Err(e) => Err(e),
        }
    }

    /// One row for each distinct value of the keys.
    pub open spec fn aggregate_by(
        self,
        keys: Seq<PathView>,
        aggregates: Seq<MaxNonNullByView>,
    ) -> Result<RelationView, Error> {
        if all_resolve(self.schema, keys) && aggregates_resolve(self.schema, aggregates) {
            Ok(
                RelationView {
                    schema: aggregate_schema(self.schema, keys, aggregates),
                    plan: match self.plan {
                        Some(plan) => Some(
                            PlanView::Aggregate { input: Box::new(plan), keys, aggregates },
                        ),
                        None => None,
                    },
                },
            )
        } else {
            Err(Error::UnknownColumn)
        }
    }

    /// The rows whose keys equal those of no row of another relation.
    pub open spec fn anti_join(
        self,
        right: RelationView,
        left_keys: Seq<PathView>,
        right_keys: Seq<PathView>,
    ) -> Result<RelationView, Error> {
        if left_keys.len() != right_keys.len() {
            Err(Error::ArityMismatch)
        } else if all_resolve(self.schema, left_keys) && all_resolve(right.schema, right_keys) {
            Ok(
                RelationView {
                    schema: self.schema,
                    plan: match (self.plan, right.plan) {
                        (Some(l), Some(r)) => Some(
                            PlanView::AntiJoin {
                                left: Box::new(l),
                                right: Box::new(r),
                                left_keys,
                                right_keys,
                            },
                        ),
                        (left, _) => left,
                    },
                },
            )
        } else {
            Err(Error::UnknownColumn)
        }
    }

    /// The rows of all the relations.
    pub open spec fn union_all(relations: Seq<RelationView>) -> Result<RelationView, Error> {
        if relations.len() == 0 {
            Err(Error::EmptyPlan)
        } else if exists|i: int|
            0 <= i < relations.len() && (#[trigger] relations[i]).schema != relations[0].schema {
            Err(Error::SchemaMismatch)
        } else {
            let live = live_plans(relations);
            Ok(
                RelationView {
                    schema: relations[0].schema,
                    plan: if live.len() == 0 {
                        None
                    } else if live.len() == 1 {
                        Some(live[0])
                    } else {
                        Some(PlanView::UnionAll { inputs: live })
                    },
                },
            )
        }
    }

    /// The rows of the files that the rows of this relation name.
    pub open spec fn load(self, load: LoadView) -> Result<RelationView, Error> {
        if {
            &&& resolve(self.schema, load.path) is Some
            &&& resolve(self.schema, load.size) is Some
            &&& resolve(self.schema, load.num_records) is Some
            &&& resolve(self.schema, load.deletion_vector) is Some
            &&& all_named(self.schema, load.constants)
            &&& all_named(load.schema, load.constants)
        } {
            Ok(
                RelationView {
                    schema: load.schema,
                    plan: match self.plan {
                        Some(plan) => Some(PlanView::Load { input: Box::new(plan), load }),
                        None => None,
                    },
                },
            )
        } else {
            Err(Error::UnknownColumn)
        }
    }
}

/// A relation under construction.
#[derive(Debug)]
pub struct PlanBuilder {
    pub schema: SchemaRef,
    pub plan: Option<Arc<Plan>>,
}

impl View for PlanBuilder {
    type V = RelationView;

    open spec fn view(&self) -> RelationView {
        RelationView {
            schema: self.schema@,
            plan: match self.plan {
                Some(plan) => Some(plan@),
                None => None,
            },
        }
    }
}

/// Whether a result of the builder is the given relation or the given error.
pub open spec fn yields(
    r: Result<PlanBuilder, Error>,
    expected: Result<RelationView, Error>,
) -> bool {
    match r {
        Ok(built) => expected == Ok::<RelationView, Error>(built@),
        Err(e) => expected == Err::<RelationView, Error>(e),
    }
}

/// The views of a sequence of relations.
pub open spec fn relations_view(relations: Seq<PlanBuilder>) -> Seq<RelationView> {
    Seq::new(relations.len(), |i: int| relations[i]@)
}

fn names_known(schema: &StructType, names: &Vec<String>) -> (r: bool)
    ensures
        r == all_named(schema@, strings_view(names@)),
{
    let mut i: usize = 0;
    while i < names.len()
        invariant
            i <= names.len(),
            forall|j: int| 0 <= j < i ==> has_field(schema@, #[trigger] strings_view(names@)[j]),
        decreases names.len() - i,
    {
        if !schema.contains(names[i].as_str()) {
            assert(!has_field(schema@, strings_view(names@)[i as int]));
            return false;
        }
        i = i + 1;
    }
    true
}

fn columns_known(schema: &StructType, columns: &Vec<ColumnName>) -> (r: bool)
    ensures
        r == all_resolve(schema@, paths_view(columns@)),
{
    let mut i: usize = 0;
    while i < columns.len()
        invariant
            i <= columns.len(),
            forall|j: int|
                0 <= j < i ==> resolve(schema@, #[trigger] paths_view(columns@)[j]) is Some,
        decreases columns.len() - i,
    {
        if !schema.contains_col(&columns[i]) {
            assert(resolve(schema@, paths_view(columns@)[i as int]) is None);
            return false;
        }
        i = i + 1;
    }
    true
}

fn aggregates_known(schema: &StructType, aggregates: &Vec<MaxNonNullBy>) -> (r: bool)
    ensures
        r == aggregates_resolve(schema@, aggregates_view(aggregates@)),
{
    let ghost views = aggregates_view(aggregates@);
    let mut i: usize = 0;
    while i < aggregates.len()
        invariant
            i <= aggregates.len(),
            views == aggregates_view(aggregates@),
            forall|j: int|
                0 <= j < i ==> {
                    let a = #[trigger] views[j];
                    &&& resolve(schema@, a.value) is Some
                    &&& resolve(schema@, a.witness) is Some
                    &&& resolve(schema@, a.order) is Some
                },
        decreases aggregates.len() - i,
    {
        assert(views[i as int] == aggregates@[i as int]@);
        if !(schema.contains_col(&aggregates[i].value) && schema.contains_col(
            &aggregates[i].witness,
        ) && schema.contains_col(&aggregates[i].order)) {
            return false;
        }
        i = i + 1;
    }
    true
}

fn own_strings(names: &[&str]) -> (r: Vec<String>)
    ensures
        strings_view(r@) == strs_view(names@),
{
    ColumnName::new(names).path
}

impl PlanBuilder {
    /// A second handle on the relation.
    pub fn copy(&self) -> (r: PlanBuilder)
        ensures
            r@ == self@,
    {
        PlanBuilder {
            schema: share(&self.schema),
            plan: match &self.plan {
                Some(plan) => Some(share(plan)),
                None => None,
            },
        }
    }

    fn scan(
        file_type: FileType,
        files: Vec<ScanFile>,
        constants: &[&str],
        schema: SchemaRef,
    ) -> (r: Result<PlanBuilder, Error>)
        ensures
            yields(
                r,
                RelationView::scan(
                    file_type,
                    scan_files_view(files@),
                    strs_view(constants@),
                    schema@,
                ),
            ),
    {
        let names = own_strings(constants);
        let ghost views = scan_files_view(files@);
        if !names_known(&schema, &names) {
            return Err(Error::UnknownColumn);
        }
        let mut i: usize = 0;
        while i < files.len()
            invariant
                i <= files.len(),
                names.len() == strs_view(constants@).len(),
                views == scan_files_view(files@),
                all_named(schema@, strs_view(constants@)),
                forall|j: int| 0 <= j < i ==> (#[trigger] views[j]).constants.len() == names.len(),
            decreases files.len() - i,
        {
            if files[i].constants.len() != names.len() {
                assert(views[i as int].constants.len() != names.len());
                return Err(Error::ArityMismatch);
            }
            i = i + 1;
        }
        if files.len() == 0 {
            return Ok(PlanBuilder { schema, plan: None });
        }
        let plan = Plan::Scan { file_type, files, constants: names, schema: share(&schema) };
        Ok(PlanBuilder { schema, plan: Some(Arc::new(plan)) })
    }

    /// The rows of Parquet files, with file-constant columns of the given names.
    pub fn scan_parquet(files: Vec<ScanFile>, constants: &[&str], schema: SchemaRef) -> (r: Result<
        PlanBuilder,
        Error,
    >)
        ensures
            yields(
                r,
                RelationView::scan(
                    FileType::Parquet,
                    scan_files_view(files@),
                    strs_view(constants@),
                    schema@,
                ),
            ),
    {
        PlanBuilder::scan(FileType::Parquet, files, constants, schema)
    }

    /// The rows of JSON files, with file-constant columns of the given names.
    pub fn scan_json(files: Vec<ScanFile>, constants: &[&str], schema: SchemaRef) -> (r: Result<
        PlanBuilder,
        Error,
    >)
        ensures
            yields(
                r,
                RelationView::scan(
                    FileType::Json,
                    scan_files_view(files@),
                    strs_view(constants@),
                    schema@,
                ),
            ),
    {
        PlanBuilder::scan(FileType::Json, files, constants, schema)
    }

    /// The relation of the given rows.
    pub fn values(schema: SchemaRef, rows: Vec<Vec<Scalar>>) -> (r: Result<PlanBuilder, Error>)
        ensures
            yields(r, RelationView::values(schema@, rows_view(rows@))),
    {
        let ghost views = rows_view(rows@);
        let width = schema.fields.len();
        let mut i: usize = 0;
        while i < rows.len()
            invariant
                i <= rows.len(),
                width == schema@.len(),
                views == rows_view(rows@),
                forall|j: int| 0 <= j < i ==> (#[trigger] views[j]).len() == schema@.len(),
            decreases rows.len() - i,
        {
            if rows[i].len() != width {
                assert(views[i as int].len() != schema@.len());
                return Err(Error::ArityMismatch);
            }
            i = i + 1;
        }
        if rows.len() == 0 {
            return Ok(PlanBuilder { schema, plan: None });
        }
        let plan = Plan::Values { schema: share(&schema), rows };
        Ok(PlanBuilder { schema, plan: Some(Arc::new(plan)) })
    }

    /// The rows for which a predicate is true.
    pub fn filter(self, predicate: Predicate) -> (r: PlanBuilder)
        ensures
            r@ == self@.filter(predicate@),
    {
        PlanBuilder {
            schema: self.schema,
            plan: match self.plan {
                Some(input) => Some(Arc::new(Plan::Filter { input, predicate })),
                None => None,
            },
        }
    }

    /// One row for each, of the given schema, computed by a struct expression.
    pub fn project(self, expr: Arc<Expr>, schema: SchemaRef) -> (r: Result<PlanBuilder, Error>)
        ensures
            yields(r, self@.project(expr@, schema@)),
    {
        let arity_fits = match &*expr {
            Expr::Struct(children, _) => {
                assert(exprs_view(children@).len() == children.len());
                children.len() == schema.fields.len()
            },
            _ => false,
        };
        if !arity_fits {
            return Err(Error::ArityMismatch);
        }
        let plan = match self.plan {
            Some(input) => Some(Arc::new(Plan::Project { input, expr, schema: share(&schema) })),
            None => None,
        };
        Ok(PlanBuilder { schema, plan })
    }

    /// The projection that a patch describes.
    pub fn project_patch(self, patch: ProjectionStructPatchBuilder) -> (r: Result<
        PlanBuilder,
        Error,
    >)
        ensures
            yields(r, self@.project_patch(patch@)),
    {
        let (schema, expr) = patch.build()?;
        self.project(Arc::new(expr), schema)
    }

    /// One row for each distinct value of the keys: the keys, and an aggregate of the group each.
    pub fn aggregate_by(self, keys: Vec<ColumnName>, aggregates: Vec<MaxNonNullBy>) -> (r: Result<
        PlanBuilder,
        Error,
    >)
        ensures
            yields(r, self@.aggregate_by(paths_view(keys@), aggregates_view(aggregates@))),
    {
        if !(columns_known(&self.schema, &keys) && aggregates_known(&self.schema, &aggregates)) {
            return Err(Error::UnknownColumn);
        }
        let ghost expected = aggregate_schema(
            self.schema@,
            paths_view(keys@),
            aggregates_view(aggregates@),
        );
        let mut fields: Vec<StructField> = Vec::new();
        let mut i: usize = 0;
        while i < keys.len()
            invariant
                i <= keys.len(),
                fields.len() == i,
                all_resolve(self.schema@, paths_view(keys@)),
                expected == aggregate_schema(
                    self.schema@,
                    paths_view(keys@),
                    aggregates_view(aggregates@),
                ),
                forall|j: int| 0 <= j < i ==> (#[trigger] fields@[j])@ == expected[j],
            decreases keys.len() - i,
        {
            assert(resolve(self.schema@, paths_view(keys@)[i as int]) is Some);
            match self.schema.resolve(&keys[i]) {
                Some(field) => fields.push(field.copy()),
                None => {
                    assert(false);
                },
            }
            i = i + 1;
        }
        let mut k: usize = 0;
        while k < aggregates.len()
            invariant
                k <= aggregates.len(),
                fields.len() == keys.len() + k,
                aggregates_resolve(self.schema@, aggregates_view(aggregates@)),
                expected == aggregate_schema(
                    self.schema@,
                    paths_view(keys@),
                    aggregates_view(aggregates@),
                ),
                forall|j: int| 0 <= j < fields.len() ==> (#[trigger] fields@[j])@ == expected[j],
            decreases aggregates.len() - k,
        {
            assert(resolve(self.schema@, aggregates_view(aggregates@)[k as int].value) is Some);
            match self.schema.resolve(&aggregates[k].value) {
                Some(field) => fields.push(
                    StructField::nullable(field.name.as_str(), field.data_type.copy()),
                ),
                None => {
                    assert(false);
                },
            }
            k = k + 1;
        }
        assert(fields_view(fields@) =~= expected);
        let plan = match self.plan {
            Some(input) => Some(Arc::new(Plan::Aggregate { input, keys, aggregates })),
            None => None,
        };
        Ok(PlanBuilder { schema: Arc::new(StructType::new_unchecked(fields)), plan })
    }

    /// The rows whose keys equal those of no row of another relation.
    pub fn anti_join(
        self,
        right: PlanBuilder,
        left_keys: Vec<ColumnName>,
        right_keys: Vec<ColumnName>,
    ) -> (r: Result<PlanBuilder, Error>)
        ensures
            yields(
                r,
                self@.anti_join(right@, paths_view(left_keys@), paths_view(right_keys@)),
            ),
    {
        if left_keys.len() != right_keys.len() {
            return Err(Error::ArityMismatch);
        }
        if !(columns_known(&self.schema, &left_keys) && columns_known(
            &right.schema,
            &right_keys,
        )) {
            return Err(Error::UnknownColumn);
        }
        let plan = match (self.plan, right.plan) {
            (Some(left), Some(right)) => Some(
                Arc::new(Plan::AntiJoin { left, right, left_keys, right_keys }),
            ),
            (left, _) => left,
        };
        Ok(PlanBuilder { schema: self.schema, plan })
    }

    /// The rows of all the relations, which agree in schema.
    pub fn union_all(relations: Vec<PlanBuilder>) -> (r: Result<PlanBuilder, Error>)
        ensures
            yields(r, RelationView::union_all(relations_view(relations@))),
    {
        let ghost views = relations_view(relations@);
        if relations.len() == 0 {
            return Err(Error::EmptyPlan);
        }
        let mut live: Vec<Arc<Plan>> = Vec::new();
        let mut i: usize = 0;
        assert(plans_view(live@) =~= live_plans(views.take(0)));
        while i < relations.len()
            invariant
                0 < relations.len(),
                i <= relations.len(),
                views == relations_view(relations@),
                plans_view(live@) == live_plans(views.take(i as int)),
                forall|j: int| 0 <= j < i ==> (#[trigger] views[j]).schema == views[0].schema,
            decreases relations.len() - i,
        {
            assert(views[i as int] == relations@[i as int]@);
            assert(views[0] == relations@[0]@);
            if !relations[i].schema.same(&relations[0].schema) {
                return Err(Error::SchemaMismatch);
            }
            let ghost before = plans_view(live@);
            assert(views.take(i + 1).drop_last() =~= views.take(i as int));
            match &relations[i].plan {
                Some(plan) => {
                    live.push(share(plan));
                    assert(plans_view(live@) =~= before.push(plan@));
                },
                None => {},
            }
            i = i + 1;
        }
        assert(views.take(i as int) =~= views);
        let schema = share(&relations[0].schema);
        if live.len() == 0 {
            return Ok(PlanBuilder { schema, plan: None });
        }
        if live.len() == 1 {
            return Ok(PlanBuilder { schema, plan: Some(share(&live[0])) });
        }
        Ok(PlanBuilder { schema, plan: Some(Arc::new(Plan::UnionAll { inputs: live })) })
    }

    /// The rows of the files that the rows of this relation name.
    pub fn load(self, load: Load) -> (r: Result<PlanBuilder, Error>)
        ensures
            yields(r, self@.load(load@)),
    {
        if !(self.schema.contains_col(&load.path) && self.schema.contains_col(&load.size)
            && self.schema.contains_col(&load.num_records) && self.schema.contains_col(
            &load.deletion_vector,
        ) && names_known(&self.schema, &load.constants) && names_known(
            &load.schema,
            &load.constants,
        )) {
            return Err(Error::UnknownColumn);
        }
        let schema = share(&load.schema);
        let plan = match self.plan {
            Some(input) => Some(Arc::new(Plan::Load { input, load })),
            None => None,
        };
        Ok(PlanBuilder { schema, plan })
    }

    /// The plan of the relation, which must not be known to be empty.
    pub fn build(self) -> (r: Result<Arc<Plan>, Error>)
        ensures
            r is Ok <==> self@.plan is Some,
            r matches Ok(plan) ==> self@.plan == Some(plan@),
            r matches Err(e) ==> e == Error::EmptyPlan,
    {
        match self.plan {
            Some(plan) => Ok(plan),
            None => Err(Error::EmptyPlan),
        }
    }

    /// The plan of the relation; none if the relation is known to be empty.
    pub fn build_opt(self) -> (r: Option<Arc<Plan>>)
        ensures
            r is Some <==> self@.plan is Some,
            r matches Some(plan) ==> self@.plan == Some(plan@),
    {
        self.plan
    }
}

} // verus!
