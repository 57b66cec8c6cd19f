//! What plans mean: the rows that they yield, given what the files hold.
//!
//! Rows are sequences of values, in the order of their schema's fields. The order of the rows of a
//! relation carries no meaning, only how often each occurs.

use vstd::prelude::*;

use crate::expressions::{
    ArithmeticOp, ComparisonOp, ExprView, JunctionOp, PathView, PredicateView, ScalarView,
};
use crate::files::{FileType, ScanFileView};
use crate::location::url_join;
use crate::plan::{live_plans, LoadView, MaxNonNullByView, PlanView, RelationView};
use crate::schema::{
    boolean_type, distinct_names, field_pos, has_field, lemma_distinct_field_pos, resolve,
    DataTypeView, PrimitiveType, SchemaView,
};
use crate::sequences::lemma_filter_all;

verus! {

/// A value of a column.
pub enum Value {
    Null,
    Bool(bool),
    Int(int),
    Text(Seq<char>),
    Record(Seq<Value>),
    /// The entries of a map.
    Entries(Seq<(Value, Value)>),
    /// The items of an array.
    Items(Seq<Value>),
    /// A value of any other primitive type, in the encoding of that type.
    Encoded(PrimitiveType, Seq<u8>),
}

/// A row of a relation.
pub type Row = Seq<Value>;

/// What plans leave to the engine that runs them.
pub struct Engine {
    /// The rows that a file at a location holds, read in a schema.
    pub rows: spec_fn(FileType, Seq<char>, SchemaView) -> Seq<Row>,
    /// The rows that a load yields, in a schema, for a path that leads to no location from a base
    /// URL.
    pub unlocated: spec_fn(Seq<char>, Value, SchemaView) -> Seq<Row>,
    /// A JSON text parsed into a struct of a schema.
    pub parse_json: spec_fn(Value, SchemaView) -> Value,
    /// A map turned into a struct of a type.
    pub map_to_struct: spec_fn(Value, DataTypeView) -> Value,
    pub arithmetic: spec_fn(ArithmeticOp, Value, Value) -> Value,
    /// How two values that are not null compare.
    pub compare: spec_fn(ComparisonOp, Value, Value) -> Option<bool>,
    /// The rows that a deletion vector leaves.
    pub undeleted: spec_fn(Seq<Row>, Value) -> Seq<Row>,
}

// --- Values ---

/// The value of a constant.
pub open spec fn scalar_value(s: ScalarView) -> Value {
    match s {
        ScalarView::Null(_) => Value::Null,
        ScalarView::Boolean(b) => Value::Bool(b),
        ScalarView::Integer(i) => Value::Int(i),
        ScalarView::Long(i) => Value::Int(i),
        ScalarView::Text(t) => Value::Text(t),
        ScalarView::Encoded(p, bytes) => Value::Encoded(p, bytes),
    }
}

/// A truth value as the value of a column.
pub open spec fn truth_value(t: Option<bool>) -> Value {
    match t {
        Some(b) => Value::Bool(b),
        None => Value::Null,
    }
}

/// The value of a column as a truth value.
pub open spec fn as_truth(v: Value) -> Option<bool> {
    match v {
        Value::Bool(b) => Some(b),
        _ => None,
    }
}

/// The value that a path leads to. What is inside of a null, or is not there, is null.
pub open spec fn lookup(schema: SchemaView, row: Row, path: PathView) -> Value
    decreases path.len(),
{
    if path.len() == 0 || !has_field(schema, path[0]) {
        Value::Null
    } else {
        let i = field_pos(schema, path[0]);
        if path.len() == 1 {
            row[i]
        } else {
            match (schema[i].data_type, row[i]) {
                (DataTypeView::Struct(children), Value::Record(values)) => lookup(
                    children,
                    values,
                    path.drop_first(),
                ),
                _ => Value::Null,
            }
        }
    }
}

/// A child of a struct value. What is inside of a null is null.
pub open spec fn member(v: Value, i: int) -> Value {
    match v {
        Value::Record(values) => values[i],
        _ => Value::Null,
    }
}

/// Whether a value is null or a struct of as many children as a schema has.
pub open spec fn fits(v: Value, children: SchemaView) -> bool {
    v matches Value::Record(values) ==> values.len() == children.len()
}

/// The first of two values, or the second where the first is null.
pub open spec fn or_else(a: Value, b: Value) -> Value {
    if a == Value::Null {
        b
    } else {
        a
    }
}

/// Whether a value is null or one of the given type.
pub open spec fn conforms(v: Value, data_type: DataTypeView) -> bool
    decreases data_type,
{
    v is Null || match data_type {
        DataTypeView::Primitive(p) => match p {
            PrimitiveType::Text => v is Text,
            PrimitiveType::Boolean => v is Bool,
            PrimitiveType::Long
            | PrimitiveType::Integer
            | PrimitiveType::Short
            | PrimitiveType::Byte => v is Int,
            _ => v matches Value::Encoded(q, _) && q == p,
        },
        DataTypeView::Struct(children) => {
            &&& v matches Value::Record(values)
            &&& values.len() == children.len()
            &&& forall|i: int|
                0 <= i < children.len() ==> conforms(
                    #[trigger] values[i],
                    children[i].data_type,
                )
        },
        DataTypeView::ArrayType(_, _) => v is Items,
        DataTypeView::MapType(_, _, _) => v is Entries,
    }
}

/// Whether a row is one of the given schema.
pub open spec fn row_conforms(row: Row, schema: SchemaView) -> bool {
    &&& row.len() == schema.len()
    &&& forall|i: int| 0 <= i < row.len() ==> conforms(#[trigger] row[i], schema[i].data_type)
}

/// Whether an engine reads files in the schema that was asked for, and takes rows away by a
/// deletion vector but adds none.
pub open spec fn is_sound(engine: Engine) -> bool {
    &&& forall|file_type: FileType, location: Seq<char>, schema: SchemaView, i: int|
        0 <= i < (engine.rows)(file_type, location, schema).len() ==> row_conforms(
            #[trigger] (engine.rows)(file_type, location, schema)[i],
            schema,
        )
    &&& forall|base: Seq<char>, path: Value, schema: SchemaView, i: int|
        0 <= i < (engine.unlocated)(base, path, schema).len() ==> row_conforms(
            #[trigger] (engine.unlocated)(base, path, schema)[i],
            schema,
        )
    &&& forall|rows: Seq<Row>, dv: Value, i: int|
        0 <= i < (engine.undeleted)(rows, dv).len() ==> rows.contains(
            #[trigger] (engine.undeleted)(rows, dv)[i],
        )
}

/// An engine to which all files are empty.
pub open spec fn empty_engine() -> Engine {
    Engine {
        rows: |file_type: FileType, location: Seq<char>, schema: SchemaView| Seq::<Row>::empty(),
        unlocated: |base: Seq<char>, path: Value, schema: SchemaView| Seq::<Row>::empty(),
        undeleted: |rows: Seq<Row>, dv: Value| Seq::<Row>::empty(),
        ..arbitrary()
    }
}

/// The type that the context of a struct expression expects of a child.
pub open spec fn child_type(target: DataTypeView, i: int) -> DataTypeView {
    match target {
        DataTypeView::Struct(children) => children[i].data_type,
        _ => target,
    }
}

/// The first value that is not null.
pub open spec fn first_non_null(values: Seq<Value>) -> Value
    decreases values.len(),
{
    if values.len() == 0 {
        Value::Null
    } else if values[0] != Value::Null {
        values[0]
    } else {
        first_non_null(values.drop_first())
    }
}

/// The conjunction of truth values: false if one is, true if all are, else null.
pub open spec fn all_true(values: Seq<Option<bool>>) -> Option<bool> {
    if exists|i: int| 0 <= i < values.len() && #[trigger] values[i] == Some(false) {
        Some(false)
    } else if exists|i: int| 0 <= i < values.len() && (#[trigger] values[i]) is None {
        None
    } else {
        Some(true)
    }
}

/// The disjunction of truth values: true if one is, false if all are, else null.
pub open spec fn any_true(values: Seq<Option<bool>>) -> Option<bool> {
    if exists|i: int| 0 <= i < values.len() && #[trigger] values[i] == Some(true) {
        Some(true)
    } else if exists|i: int| 0 <= i < values.len() && (#[trigger] values[i]) is None {
        None
    } else {
        Some(false)
    }
}

// --- Expressions and predicates ---

/// The value of an expression on a row, where a value of the given type is expected.
pub open spec fn eval_expr(
    engine: Engine,
    e: ExprView,
    schema: SchemaView,
    row: Row,
    target: DataTypeView,
) -> Value
    decreases e,
{
    match e {
        ExprView::Literal(s) => scalar_value(s),
        ExprView::Column(path) => lookup(schema, row, path),
        ExprView::Predicate(p) => truth_value(eval_pred(engine, *p, schema, row)),
        ExprView::Struct(es, present) => if present matches Some(p) && eval_expr(
            engine,
            *p,
            schema,
            row,
            boolean_type(),
        ) != Value::Bool(true) {
            Value::Null
        } else {
            Value::Record(eval_exprs(engine, es, schema, row, target))
        },
        ExprView::Coalesce(es) => first_non_null(eval_choices(engine, es, schema, row, target)),
        ExprView::ParseJson(c, s) => (engine.parse_json)(
            eval_expr(engine, *c, schema, row, target),
            s,
        ),
        ExprView::MapToStruct(c) => (engine.map_to_struct)(
            eval_expr(engine, *c, schema, row, target),
            target,
        ),
        ExprView::Arithmetic(op, l, r) => (engine.arithmetic)(
            op,
            eval_expr(engine, *l, schema, row, target),
            eval_expr(engine, *r, schema, row, target),
        ),
    }
}

/// The values of the children of a struct expression.
pub open spec fn eval_exprs(
    engine: Engine,
    es: Seq<ExprView>,
    schema: SchemaView,
    row: Row,
    target: DataTypeView,
) -> Seq<Value>
    decreases es,
{
    Seq::new(
        es.len(),
        |i: int|
            if 0 <= i < es.len() {
                eval_expr(engine, es[i], schema, row, child_type(target, i))
            } else {
                arbitrary()
            },
    )
}

/// The values of the choices of a coalescing expression.
pub open spec fn eval_choices(
    engine: Engine,
    es: Seq<ExprView>,
    schema: SchemaView,
    row: Row,
    target: DataTypeView,
) -> Seq<Value>
    decreases es,
{
    Seq::new(
        es.len(),
        |i: int|
            if 0 <= i < es.len() {
                eval_expr(engine, es[i], schema, row, target)
            } else {
                arbitrary()
            },
    )
}

/// The truth of a predicate on a row.
pub open spec fn eval_pred(
    engine: Engine,
    p: PredicateView,
    schema: SchemaView,
    row: Row,
) -> Option<bool>
    decreases p,
{
    match p {
        PredicateView::BooleanExpression(e) => as_truth(
            eval_expr(engine, e, schema, row, boolean_type()),
        ),
        PredicateView::Not(q) => match eval_pred(engine, *q, schema, row) {
            Some(b) => Some(!b),
            None => None,
        },
        PredicateView::IsNull(e) => Some(
            eval_expr(engine, e, schema, row, boolean_type()) == Value::Null,
        ),
        PredicateView::Comparison(op, l, r) => {
            let a = eval_expr(engine, l, schema, row, boolean_type());
            let b = eval_expr(engine, r, schema, row, boolean_type());
            if op == ComparisonOp::Distinct {
                Some(a != b)
            } else if a == Value::Null || b == Value::Null {
                None
            } else {
                (engine.compare)(op, a, b)
            }
        },
        PredicateView::Junction(op, ps) => match op {
            JunctionOp::And => all_true(eval_preds(engine, ps, schema, row)),
            JunctionOp::Or => any_true(eval_preds(engine, ps, schema, row)),
        },
    }
}

/// The truth of predicates on a row.
pub open spec fn eval_preds(
    engine: Engine,
    ps: Seq<PredicateView>,
    schema: SchemaView,
    row: Row,
) -> Seq<Option<bool>>
    decreases ps,
{
    Seq::new(
        ps.len(),
        |i: int|
            if 0 <= i < ps.len() {
                eval_pred(engine, ps[i], schema, row)
            } else {
                arbitrary()
            },
    )
}

/// Whether a predicate is true on a row.
pub open spec fn holds(engine: Engine, p: PredicateView, schema: SchemaView, row: Row) -> bool {
    eval_pred(engine, p, schema, row) == Some(true)
}

/// The row that a struct expression computes.
pub open spec fn project_row(
    engine: Engine,
    e: ExprView,
    schema: SchemaView,
    row: Row,
    target: SchemaView,
) -> Row {
    match eval_expr(engine, e, schema, row, DataTypeView::Struct(target)) {
        Value::Record(values) => values,
        _ => Seq::new(target.len(), |i: int| Value::Null),
    }
}

// --- Files ---

/// A row in which the columns of the given names hold the given values.
pub open spec fn with_constants(
    schema: SchemaView,
    names: PathView,
    values: Seq<Value>,
    row: Row,
) -> Row {
    Seq::new(
        schema.len(),
        |i: int|
            if names.contains(schema[i].name) {
                values[names.index_of(schema[i].name)]
            } else {
                row[i]
            },
    )
}

/// The rows of one scanned file.
pub open spec fn file_rows(
    engine: Engine,
    file_type: FileType,
    file: ScanFileView,
    constants: PathView,
    schema: SchemaView,
) -> Seq<Row> {
    let values = Seq::new(file.constants.len(), |i: int| scalar_value(file.constants[i]));
    (engine.rows)(file_type, file.meta.location, schema).map_values(
        |row: Row| with_constants(schema, constants, values, row),
    )
}

/// The rows of scanned files.
pub open spec fn scan_rows(
    engine: Engine,
    file_type: FileType,
    files: Seq<ScanFileView>,
    constants: PathView,
    schema: SchemaView,
) -> Seq<Row>
    decreases files.len(),
{
    if files.len() == 0 {
        seq![]
    } else {
        scan_rows(engine, file_type, files.drop_last(), constants, schema) + file_rows(
            engine,
            file_type,
            files.last(),
            constants,
            schema,
        )
    }
}

/// The rows that the file of the given path holds, read for a load. What a path gives that leads
/// to no location is up to the engine.
pub open spec fn held_rows(engine: Engine, load: LoadView, path: Value) -> Seq<Row> {
    match path {
        Value::Text(reference) => match url_join(load.base_url, reference) {
            Some(location) => (engine.rows)(load.file_type, location, load.schema),
            None => (engine.unlocated)(load.base_url, path, load.schema),
        },
        _ => (engine.unlocated)(load.base_url, path, load.schema),
    }
}

/// The rows of the file that one row names.
pub open spec fn loaded_file_rows(
    engine: Engine,
    load: LoadView,
    schema: SchemaView,
    row: Row,
) -> Seq<Row> {
    let dv = lookup(schema, row, load.deletion_vector);
    let held = held_rows(engine, load, lookup(schema, row, load.path));
    let left = if dv == Value::Null {
        held
    } else {
        (engine.undeleted)(held, dv)
    };
    let values = Seq::new(
        load.constants.len(),
        |i: int| lookup(schema, row, seq![load.constants[i]]),
    );
    left.map_values(|r: Row| with_constants(load.schema, load.constants, values, r))
}

/// The rows of the files that rows name.
pub open spec fn loaded_rows(
    engine: Engine,
    load: LoadView,
    schema: SchemaView,
    rows: Seq<Row>,
) -> Seq<Row>
    decreases rows.len(),
{
    if rows.len() == 0 {
        seq![]
    } else {
        loaded_rows(engine, load, schema, rows.drop_last()) + loaded_file_rows(
            engine,
            load,
            schema,
            rows.last(),
        )
    }
}

// --- Groups and joins ---

/// The values of key columns in a row.
pub open spec fn key_values(schema: SchemaView, keys: Seq<PathView>, row: Row) -> Seq<Value> {
    Seq::new(keys.len(), |k: int| lookup(schema, row, keys[k]))
}

/// The distinct values of key columns among rows.
pub open spec fn distinct_keys(schema: SchemaView, keys: Seq<PathView>, rows: Seq<Row>) -> Seq<
    Seq<Value>,
>
    decreases rows.len(),
{
    if rows.len() == 0 {
        seq![]
    } else {
        let before = distinct_keys(schema, keys, rows.drop_last());
        let key = key_values(schema, keys, rows.last());
        if before.contains(key) {
            before
        } else {
            before.push(key)
        }
    }
}

/// Whether a row of a group can give the aggregate its value.
pub open spec fn is_candidate(
    schema: SchemaView,
    keys: Seq<PathView>,
    key: Seq<Value>,
    aggregate: MaxNonNullByView,
    row: Row,
) -> bool {
    &&& key_values(schema, keys, row) == key
    &&& lookup(schema, row, aggregate.witness) != Value::Null
    &&& lookup(schema, row, aggregate.order) is Int
}

/// Whether a row of a group can give the aggregate its value and none that can comes after it.
pub open spec fn is_greatest(
    schema: SchemaView,
    keys: Seq<PathView>,
    key: Seq<Value>,
    aggregate: MaxNonNullByView,
    rows: Seq<Row>,
    i: int,
) -> bool {
    &&& 0 <= i < rows.len()
    &&& is_candidate(schema, keys, key, aggregate, rows[i])
    &&& forall|j: int|
        0 <= j < rows.len() && is_candidate(schema, keys, key, aggregate, #[trigger] rows[j])
            ==> lookup(schema, rows[j], aggregate.order)->Int_0 <= lookup(
            schema,
            rows[i],
            aggregate.order,
        )->Int_0
}

/// The value of an aggregate for a group. Which one, if several rows come last, is left open.
pub open spec fn aggregate_value(
    schema: SchemaView,
    keys: Seq<PathView>,
    key: Seq<Value>,
    aggregate: MaxNonNullByView,
    rows: Seq<Row>,
) -> Value {
    if exists|i: int| is_greatest(schema, keys, key, aggregate, rows, i) {
        let i = choose|i: int| is_greatest(schema, keys, key, aggregate, rows, i);
        lookup(schema, rows[i], aggregate.value)
    } else {
        Value::Null
    }
}

/// The row of a group.
pub open spec fn group_row(
    schema: SchemaView,
    keys: Seq<PathView>,
    key: Seq<Value>,
    aggregates: Seq<MaxNonNullByView>,
    rows: Seq<Row>,
) -> Row {
    key + Seq::new(
        aggregates.len(),
        |a: int| aggregate_value(schema, keys, key, aggregates[a], rows),
    )
}

/// Whether the keys of two rows are equal and not null.
pub open spec fn keys_match(left: Seq<Value>, right: Seq<Value>) -> bool {
    left == right && forall|k: int| 0 <= k < left.len() ==> #[trigger] left[k] != Value::Null
}

/// Whether some row has keys that match the given ones.
pub open spec fn has_match(
    schema: SchemaView,
    keys: Seq<PathView>,
    rows: Seq<Row>,
    left: Seq<Value>,
) -> bool {
    exists|j: int|
        0 <= j < rows.len() && keys_match(left, key_values(schema, keys, #[trigger] rows[j]))
}

// --- Plans ---

/// The rows that a plan yields.
pub open spec fn rows_of_plan(engine: Engine, plan: PlanView) -> Seq<Row>
    decreases plan,
{
    match plan {
        PlanView::Scan { file_type, files, constants, schema } => scan_rows(
            engine,
            file_type,
            files,
            constants,
            schema,
        ),
        PlanView::Values { schema, rows } => rows.map_values(
            |row: Seq<ScalarView>| row.map_values(|s: ScalarView| scalar_value(s)),
        ),
        PlanView::Filter { input, predicate } => rows_of_plan(engine, *input).filter(
            |row: Row| holds(engine, predicate, input.schema(), row),
        ),
        PlanView::Project { input, expr, schema } => rows_of_plan(engine, *input).map_values(
            |row: Row| project_row(engine, expr, input.schema(), row, schema),
        ),
        PlanView::Aggregate { input, keys, aggregates } => {
            let rows = rows_of_plan(engine, *input);
            distinct_keys(input.schema(), keys, rows).map_values(
                |key: Seq<Value>| group_row(input.schema(), keys, key, aggregates, rows),
            )
        },
        PlanView::AntiJoin { left, right, left_keys, right_keys } => {
            let right_rows = rows_of_plan(engine, *right);
            rows_of_plan(engine, *left).filter(
                |row: Row|
                    !has_match(
                        right.schema(),
                        right_keys,
                        right_rows,
                        key_values(left.schema(), left_keys, row),
                    ),
            )
        },
        PlanView::UnionAll { inputs } => united_rows(engine, inputs),
        PlanView::Load { input, load } => loaded_rows(
            engine,
            load,
            input.schema(),
            rows_of_plan(engine, *input),
        ),
    }
}

/// The rows of all the plans.
pub open spec fn united_rows(engine: Engine, plans: Seq<PlanView>) -> Seq<Row>
    decreases plans,
{
    if plans.len() == 0 {
        seq![]
    } else {
        united_rows(engine, plans.drop_last()) + rows_of_plan(engine, plans.last())
    }
}

/// The rows of a relation under construction.
pub open spec fn rows_of(engine: Engine, relation: RelationView) -> Seq<Row> {
    match relation.plan {
        Some(plan) => rows_of_plan(engine, plan),
        None => seq![],
    }
}

// --- Values of expressions ---

/// A column is found where it stands.
pub proof fn lemma_lookup(schema: SchemaView, row: Row, p: int)
    requires
        distinct_names(schema),
        0 <= p < schema.len(),
    ensures
        lookup(schema, row, seq![schema[p].name]) == row[p],
        resolve(schema, seq![schema[p].name]) == Some(schema[p]),
{
    lemma_distinct_field_pos(schema, p);
}

/// A child of a struct column is found where it stands.
pub proof fn lemma_lookup_child(
    schema: SchemaView,
    row: Row,
    p: int,
    children: SchemaView,
    i: int,
)
    requires
        distinct_names(schema),
        0 <= p < schema.len(),
        schema[p].data_type == DataTypeView::Struct(children),
        distinct_names(children),
        0 <= i < children.len(),
    ensures
        lookup(schema, row, seq![schema[p].name, children[i].name]) == member(row[p], i),
{
    let path = seq![schema[p].name, children[i].name];
    lemma_distinct_field_pos(schema, p);
    assert(path.drop_first() =~= seq![children[i].name]);
    if let Value::Record(values) = row[p] {
        lemma_lookup(children, values, i);
    }
}

/// A child of a struct within a struct column is found where it stands.
pub proof fn lemma_lookup_grandchild(
    schema: SchemaView,
    row: Row,
    p: int,
    children: SchemaView,
    i: int,
    grandchildren: SchemaView,
    k: int,
)
    requires
        distinct_names(schema),
        0 <= p < schema.len(),
        schema[p].data_type == DataTypeView::Struct(children),
        distinct_names(children),
        0 <= i < children.len(),
        children[i].data_type == DataTypeView::Struct(grandchildren),
        distinct_names(grandchildren),
        0 <= k < grandchildren.len(),
    ensures
        lookup(schema, row, seq![schema[p].name, children[i].name, grandchildren[k].name])
            == member(member(row[p], i), k),
{
    let path = seq![schema[p].name, children[i].name, grandchildren[k].name];
    lemma_distinct_field_pos(schema, p);
    assert(path.drop_first() =~= seq![children[i].name, grandchildren[k].name]);
    if let Value::Record(values) = row[p] {
        lemma_lookup_child(children, values, i, grandchildren, k);
    }
}

/// An expression that tests for null is true where the value is not null, else false.
pub proof fn lemma_is_not_null(
    engine: Engine,
    e: ExprView,
    schema: SchemaView,
    row: Row,
    target: DataTypeView,
)
    ensures
        eval_pred(engine, e.is_not_null(), schema, row) == Some(
            eval_expr(engine, e, schema, row, boolean_type()) != Value::Null,
        ),
        eval_expr(engine, e.is_not_null().as_expr(), schema, row, target) == Value::Bool(
            eval_expr(engine, e, schema, row, boolean_type()) != Value::Null,
        ),
{
    let is_null = PredicateView::IsNull(e);
    assert(eval_pred(engine, is_null, schema, row) == Some(
        eval_expr(engine, e, schema, row, boolean_type()) == Value::Null,
    ));
}

/// A choice of two columns.
pub proof fn lemma_coalesce_columns(
    engine: Engine,
    a: PathView,
    b: PathView,
    schema: SchemaView,
    row: Row,
    target: DataTypeView,
)
    ensures
        eval_expr(
            engine,
            ExprView::Coalesce(seq![ExprView::Column(a), ExprView::Column(b)]),
            schema,
            row,
            target,
        ) == or_else(lookup(schema, row, a), lookup(schema, row, b)),
{
    let es = seq![ExprView::Column(a), ExprView::Column(b)];
    let values = eval_choices(engine, es, schema, row, target);
    assert(values =~= seq![lookup(schema, row, a), lookup(schema, row, b)]);
    reveal_with_fuel(first_non_null, 3);
}

/// The disjunction of two predicates is true where one of them is.
pub proof fn lemma_or(
    engine: Engine,
    p: PredicateView,
    q: PredicateView,
    schema: SchemaView,
    row: Row,
)
    ensures
        holds(engine, p.or(q), schema, row) <==> holds(engine, p, schema, row) || holds(
            engine,
            q,
            schema,
            row,
        ),
{
    let ps = seq![p, q];
    let values = eval_preds(engine, ps, schema, row);
    assert(values =~= seq![
        eval_pred(engine, p, schema, row),
        eval_pred(engine, q, schema, row),
    ]);
    assert(values[0] == eval_pred(engine, p, schema, row));
    assert(values[1] == eval_pred(engine, q, schema, row));
}

// --- The builder's operators on rows ---

/// Filtering a relation filters its rows.
pub proof fn lemma_filter(engine: Engine, relation: RelationView, p: PredicateView)
    requires
        relation.wf(),
    ensures
        relation.filter(p).wf(),
        rows_of(engine, relation.filter(p)) == rows_of(engine, relation).filter(
            |row: Row| holds(engine, p, relation.schema, row),
        ),
{
    match relation.plan {
        Some(plan) => {},
        None => {
            reveal(Seq::filter);
            assert(rows_of(engine, relation).filter(
                |row: Row| holds(engine, p, relation.schema, row),
            ) =~= seq![]);
        },
    }
}

/// Projecting a relation projects its rows.
pub proof fn lemma_project(
    engine: Engine,
    relation: RelationView,
    e: ExprView,
    schema: SchemaView,
)
    requires
        relation.wf(),
        relation.project(e, schema) is Ok,
    ensures
        ({
            let projected = relation.project(e, schema)->Ok_0;
            &&& projected.wf()
            &&& projected.schema == schema
            &&& rows_of(engine, projected) == rows_of(engine, relation).map_values(
                |row: Row| project_row(engine, e, relation.schema, row, schema),
            )
        }),
{
    match relation.plan {
        Some(plan) => {},
        None => {
            assert(rows_of(engine, relation).map_values(
                |row: Row| project_row(engine, e, relation.schema, row, schema),
            ) =~= seq![]);
        },
    }
}

/// Aggregating a relation gives a row for each group.
pub proof fn lemma_aggregate(
    engine: Engine,
    relation: RelationView,
    keys: Seq<PathView>,
    aggregates: Seq<MaxNonNullByView>,
)
    requires
        relation.wf(),
        relation.aggregate_by(keys, aggregates) is Ok,
    ensures
        ({
            let grouped = relation.aggregate_by(keys, aggregates)->Ok_0;
            let rows = rows_of(engine, relation);
            &&& grouped.wf()
            &&& rows_of(engine, grouped) == distinct_keys(relation.schema, keys, rows).map_values(
                |key: Seq<Value>| group_row(relation.schema, keys, key, aggregates, rows),
            )
        }),
{
    match relation.plan {
        Some(plan) => {},
        None => {
            let rows = rows_of(engine, relation);
            assert(distinct_keys(relation.schema, keys, rows).map_values(
                |key: Seq<Value>| group_row(relation.schema, keys, key, aggregates, rows),
            ) =~= seq![]);
        },
    }
}

/// An anti-join keeps the rows of the left relation without a match.
pub proof fn lemma_anti_join(
    engine: Engine,
    left: RelationView,
    right: RelationView,
    left_keys: Seq<PathView>,
    right_keys: Seq<PathView>,
)
    requires
        left.wf(),
        right.wf(),
        left.anti_join(right, left_keys, right_keys) is Ok,
    ensures
        ({
            let joined = left.anti_join(right, left_keys, right_keys)->Ok_0;
            &&& joined.wf()
            &&& joined.schema == left.schema
            &&& rows_of(engine, joined) == rows_of(engine, left).filter(
                |row: Row|
                    !has_match(
                        right.schema,
                        right_keys,
                        rows_of(engine, right),
                        key_values(left.schema, left_keys, row),
                    ),
            )
        }),
{
    let keeps = |row: Row|
        !has_match(
            right.schema,
            right_keys,
            rows_of(engine, right),
            key_values(left.schema, left_keys, row),
        );
    match (left.plan, right.plan) {
        (Some(l), Some(r)) => {},
        (Some(l), None) => {
            let rows = rows_of(engine, left);
            assert forall|i: int| 0 <= i < rows.len() implies keeps(#[trigger] rows[i]) by {}
            lemma_filter_all(rows, keeps);
        },
        _ => {
            reveal(Seq::filter);
            assert(rows_of(engine, left).filter(keeps) =~= seq![]);
        },
    }
}

/// Loading the files that a relation names gives the rows of those files.
pub proof fn lemma_load(engine: Engine, relation: RelationView, load: LoadView)
    requires
        relation.wf(),
        relation.load(load) is Ok,
    ensures
        ({
            let loaded = relation.load(load)->Ok_0;
            &&& loaded.wf()
            &&& loaded.schema == load.schema
            &&& loaded.plan is None <==> relation.plan is None
            &&& rows_of(engine, loaded) == loaded_rows(
                engine,
                load,
                relation.schema,
                rows_of(engine, relation),
            )
        }),
{
}

/// The union of two relations has the rows of both.
pub proof fn lemma_union(engine: Engine, a: RelationView, b: RelationView)
    requires
        a.wf(),
        b.wf(),
        a.schema == b.schema,
    ensures
        RelationView::union_all(seq![a, b]) is Ok,
        ({
            let united = RelationView::union_all(seq![a, b])->Ok_0;
            &&& united.wf()
            &&& united.schema == a.schema
            &&& united.plan is None <==> a.plan is None && b.plan is None
            &&& rows_of(engine, united) == rows_of(engine, a) + rows_of(engine, b)
        }),
{
    let both = seq![a, b];
    assert(both.drop_last() =~= seq![a]);
    assert(seq![a].drop_last() =~= Seq::<RelationView>::empty());
    reveal_with_fuel(live_plans, 3);
    let live = live_plans(both);
    let united = RelationView::union_all(both);
    assert(both[0].schema == both[1].schema);
    assert(united is Ok);
    match (a.plan, b.plan) {
        (Some(p), Some(q)) => {
            assert(live =~= seq![p, q]);
            assert(united->Ok_0.plan == Some(PlanView::UnionAll { inputs: live }));
            assert(united_rows(engine, live) == rows_of_plan(engine, p) + rows_of_plan(engine, q))
                by {
                assert(live.drop_last() =~= seq![p]);
                assert(seq![p].drop_last() =~= Seq::<PlanView>::empty());
                reveal_with_fuel(united_rows, 3);
                assert(Seq::<Row>::empty() + rows_of_plan(engine, p) =~= rows_of_plan(engine, p));
            }
        },
        (Some(p), None) => {
            assert(live =~= seq![p]);
            assert(rows_of(engine, a) + rows_of(engine, b) =~= rows_of(engine, a));
        },
        (None, Some(q)) => {
            assert(live =~= seq![q]);
            assert(rows_of(engine, a) + rows_of(engine, b) =~= rows_of(engine, b));
        },
        (None, None) => {
            assert(live =~= Seq::<PlanView>::empty());
            assert(rows_of(engine, a) + rows_of(engine, b) =~= seq![]);
        },
    }
}

} // verus!
