//! What the edits of a projection change, and what they leave as it is.

use vstd::prelude::*;

use crate::error::Error;
use crate::expressions::{ExprView, PathView, PredicateView};
use crate::schema::{
    distinct_names, field_pos, has_field, resolve, DataTypeView, FieldView, SchemaView,
};
use crate::schema_laws::law_lookup_by_name;
use crate::semantics::{
    child_type, eval_choices, eval_expr, eval_exprs, first_non_null, lemma_lookup, lookup,
    project_row, Engine, Row, Value,
};
use crate::struct_patch::{
    append_slot, appendable, drop_slot, edit_children, open_slot, replace_slot, slot_fields,
    struct_at, PatchView, SlotView,
};

verus! {

/// Whether the column at a position is the first of its name.
pub open spec fn is_first_named(slots: Seq<SlotView>, name: Seq<char>, i: int) -> bool {
    &&& 0 <= i < slots.len()
    &&& slots[i].field.name == name
    &&& forall|j: int| 0 <= j < i ==> (#[trigger] slots[j]).field.name != name
}

/// Whether no column has a name.
pub open spec fn is_unnamed(slots: Seq<SlotView>, name: Seq<char>) -> bool {
    forall|j: int| 0 <= j < slots.len() ==> (#[trigger] slots[j]).field.name != name
}

/// Whether columns are others with one more at the end.
pub open spec fn is_appended(old: Seq<SlotView>, new: Seq<SlotView>, slot: SlotView) -> bool {
    &&& is_unnamed(old, slot.field.name)
    &&& new.len() == old.len() + 1
    &&& new[old.len() as int] == slot
    &&& forall|j: int| 0 <= j < old.len() ==> #[trigger] new[j] == old[j]
}

/// Whether columns are others but for one, the first of its name, which was replaced.
pub open spec fn is_replaced(
    old: Seq<SlotView>,
    new: Seq<SlotView>,
    name: Seq<char>,
    slot: SlotView,
) -> bool {
    exists|i: int|
        {
            &&& #[trigger] is_first_named(old, name, i)
            &&& new.len() == old.len()
            &&& new[i] == slot
            &&& forall|j: int| 0 <= j < old.len() && j != i ==> #[trigger] new[j] == old[j]
        }
}

/// Whether columns are others without one, the first of its name.
pub open spec fn is_dropped(old: Seq<SlotView>, new: Seq<SlotView>, name: Seq<char>) -> bool {
    exists|i: int|
        {
            &&& #[trigger] is_first_named(old, name, i)
            &&& new.len() == old.len() - 1
            &&& forall|j: int| 0 <= j < i ==> #[trigger] new[j] == old[j]
            &&& forall|j: int| i <= j < new.len() ==> #[trigger] new[j] == old[j + 1]
        }
}

/// Columns are found by their names, first come first.
proof fn lemma_named(slots: Seq<SlotView>, name: Seq<char>)
    ensures
        has_field(slot_fields(slots), name) ==> is_first_named(
            slots,
            name,
            field_pos(slot_fields(slots), name),
        ),
        !has_field(slot_fields(slots), name) ==> is_unnamed(slots, name),
{
    let fields = slot_fields(slots);
    law_lookup_by_name(fields, name);
    if has_field(fields, name) {
        let p = field_pos(fields, name);
        assert forall|j: int| 0 <= j < p implies (#[trigger] slots[j]).field.name != name by {
            assert(fields[j].name != name);
        }
    } else {
        assert forall|j: int| 0 <= j < slots.len() implies (#[trigger] slots[j]).field.name
            != name by {
            assert(fields[j] == slots[j].field);
        }
    }
}

/// What each edit of columns does, and that it is refused exactly if a new name is taken or an old
/// one is not there.
pub proof fn law_edits(slots: Seq<SlotView>, name: Seq<char>, slot: SlotView)
    ensures
        match append_slot(slots, slot) {
            Ok(new) => is_appended(slots, new, slot),
            Err(e) => e == Error::DuplicateColumn && !is_unnamed(slots, slot.field.name),
        },
        match replace_slot(slots, name, slot) {
            Ok(new) => is_replaced(slots, new, name, slot),
            Err(e) => e == Error::UnknownColumn && is_unnamed(slots, name),
        },
        match drop_slot(slots, name) {
            Ok(new) => is_dropped(slots, new, name),
            Err(e) => e == Error::UnknownColumn && is_unnamed(slots, name),
        },
{
    lemma_named(slots, name);
    lemma_named(slots, slot.field.name);
}

/// Whether a projection is another but for its columns, which an edit gave or refused to give. A
/// projection that failed before stays failed, for the same reason.
pub open spec fn is_edited(
    old: PatchView,
    new: PatchView,
    edit: Result<Seq<SlotView>, Error>,
) -> bool {
    &&& new.input_schema == old.input_schema
    &&& new.root == old.root
    &&& new.slots == if old.slots is Ok {
        edit
    } else {
        old.slots
    }
}

/// The edits of a projection's own columns.
pub proof fn law_column_edits(patch: PatchView, name: Seq<char>, field: FieldView, expr: ExprView)
    ensures
        ({
            let slots = patch.slots->Ok_0;
            let slot = SlotView { field, expr };
            &&& is_edited(patch, patch.append(field, expr), append_slot(slots, slot))
            &&& is_edited(patch, patch.replace(name, field, expr), replace_slot(slots, name, slot))
            &&& is_edited(patch, patch.without(name), drop_slot(slots, name))
        }),
{
}

/// Whether columns are the children of a struct column, and `present` says when the struct is not
/// null. A column that is read as a whole is null where it was; one that is computed stays as it is
/// computed.
pub open spec fn are_children_of(
    slot: SlotView,
    children: Seq<SlotView>,
    present: Option<Box<ExprView>>,
) -> bool {
    &&& slot.field.data_type matches DataTypeView::Struct(fields)
    &&& children.len() == fields.len()
    &&& forall|k: int| 0 <= k < fields.len() ==> (#[trigger] children[k]).field == fields[k]
    &&& match slot.expr {
        ExprView::Column(path) => {
            &&& forall|k: int|
                0 <= k < fields.len() ==> (#[trigger] children[k]).expr == ExprView::Column(
                    path.push(fields[k].name),
                )
            &&& present == Some(
                Box::new(
                    ExprView::Predicate(
                        Box::new(
                            PredicateView::Not(
                                Box::new(PredicateView::IsNull(ExprView::Column(path))),
                            ),
                        ),
                    ),
                ),
            )
        },
        ExprView::Struct(exprs, before) => {
            &&& exprs.len() == fields.len()
            &&& forall|k: int| 0 <= k < fields.len() ==> (#[trigger] children[k]).expr == exprs[k]
            &&& present == before
        },
        _ => false,
    }
}

/// Whether a struct column is another of the same name, made of the given children.
pub open spec fn is_made_of(
    slot: SlotView,
    old: SlotView,
    children: Seq<SlotView>,
    present: Option<Box<ExprView>>,
) -> bool {
    &&& slot.field.name == old.field.name
    &&& slot.field.nullable == old.field.nullable
    &&& slot.field.data_type matches DataTypeView::Struct(fields)
    &&& fields.len() == children.len()
    &&& slot.expr matches ExprView::Struct(exprs, when)
    &&& exprs.len() == children.len()
    &&& when == present
    &&& forall|k: int|
        0 <= k < children.len() ==> (#[trigger] children[k]).field == fields[k]
            && children[k].expr == exprs[k]
}

/// Whether the children of the struct column at a position were edited, and nothing else was.
pub open spec fn is_edited_below(
    old: Seq<SlotView>,
    new: Seq<SlotView>,
    name: Seq<char>,
    i: int,
    before: Seq<SlotView>,
    after: Seq<SlotView>,
    present: Option<Box<ExprView>>,
) -> bool {
    &&& is_first_named(old, name, i)
    &&& new.len() == old.len()
    &&& forall|j: int| 0 <= j < old.len() && j != i ==> #[trigger] new[j] == old[j]
    &&& are_children_of(old[i], before, present)
    &&& is_made_of(new[i], old[i], after, present)
}

/// An edit of the children of a struct column edits those, and leaves the column where it is, under
/// its name, null where it was; it leaves all other columns as they are. It is refused if there is
/// no such struct column, or else for the reason for which the edit of the children is.
pub proof fn law_edits_below(
    slots: Seq<SlotView>,
    name: Seq<char>,
    edit: spec_fn(Seq<SlotView>) -> Result<Seq<SlotView>, Error>,
)
    ensures
        match edit_children(slots, name, edit) {
            Ok(new) => exists|
                i: int,
                before: Seq<SlotView>,
                after: Seq<SlotView>,
                present: Option<Box<ExprView>>,
            |
                {
                    &&& #[trigger] is_edited_below(slots, new, name, i, before, after, present)
                    &&& edit(before) == Ok::<Seq<SlotView>, Error>(after)
                },
            Err(e) => {
                ||| e == Error::UnknownColumn && is_unnamed(slots, name)
                ||| e == Error::UnknownColumn && exists|i: int| #[trigger]
                    is_first_named(slots, name, i) && open_slot(slots[i]) is None
                ||| exists|i: int, before: Seq<SlotView>, present: Option<Box<ExprView>>|
                    {
                        &&& is_first_named(slots, name, i)
                        &&& #[trigger] are_children_of(slots[i], before, present)
                        &&& edit(before) == Err::<Seq<SlotView>, Error>(e)
                    }
            },
        },
{
    lemma_named(slots, name);
    let i = field_pos(slot_fields(slots), name);
    if has_field(slot_fields(slots), name) {
        if let Some((before, present)) = open_slot(slots[i]) {
            assert(are_children_of(slots[i], before, present));
            if let Ok(after) = edit(before) {
                let new = edit_children(slots, name, edit)->Ok_0;
                assert(is_edited_below(slots, new, name, i, before, after, present));
            }
        }
    }
}

/// A struct column can be opened if it is read as a whole, or if it is computed child by child.
pub proof fn law_struct_columns_open(slot: SlotView)
    ensures
        open_slot(slot) is Some <==> exists|
            children: Seq<SlotView>,
            present: Option<Box<ExprView>>,
        | #[trigger]
            are_children_of(slot, children, present),
        open_slot(slot) matches Some((children, present)) ==> are_children_of(
            slot,
            children,
            present,
        ),
{
    if let Some((children, present)) = open_slot(slot) {
        assert(are_children_of(slot, children, present));
    }
}

/// The edits of the children of a struct column.
pub proof fn law_child_edits(
    patch: PatchView,
    parent: Seq<char>,
    name: Seq<char>,
    field: FieldView,
    expr: ExprView,
)
    ensures
        ({
            let slots = patch.slots->Ok_0;
            let slot = SlotView { field, expr };
            &&& is_edited(
                patch,
                patch.append_at(parent, field, expr),
                edit_children(
                    slots,
                    parent,
                    |children: Seq<SlotView>| append_slot(children, slot),
                ),
            )
            &&& is_edited(
                patch,
                patch.replace_at(parent, name, field, expr),
                edit_children(
                    slots,
                    parent,
                    |children: Seq<SlotView>| replace_slot(children, name, slot),
                ),
            )
            &&& is_edited(
                patch,
                patch.without_at(parent, name),
                edit_children(slots, parent, |children: Seq<SlotView>| drop_slot(children, name)),
            )
        }),
{
    let slot = SlotView { field, expr };
    assert((|children: Seq<SlotView>| append_slot(children, SlotView { field, expr })) =~= (
    |children: Seq<SlotView>| append_slot(children, slot)));
    assert((|children: Seq<SlotView>| replace_slot(children, name, SlotView { field, expr }))
        =~= (|children: Seq<SlotView>| replace_slot(children, name, slot)));
}

/// A projection starts as one that changes nothing: it has a column for each of the relation, in
/// their order and under their names, and makes of each row that row.
pub proof fn law_start_changes_nothing(engine: Engine, schema: SchemaView, row: Row)
    requires
        distinct_names(schema),
        row.len() == schema.len(),
    ensures
        ({
            let patch = PatchView::start(schema, seq![]);
            &&& patch.slots is Ok
            &&& patch.schema() == schema
            &&& project_row(engine, patch.expr(), schema, row, schema) == row
        }),
{
    let patch = PatchView::start(schema, seq![]);
    let es = patch.expr()->Struct_0;
    let target = DataTypeView::Struct(schema);
    let got = eval_exprs(engine, es, schema, row, target);
    assert(patch.schema() =~= schema);
    assert forall|i: int| 0 <= i < got.len() implies got[i] == row[i] by {
        assert(got[i] == eval_expr(engine, es[i], schema, row, child_type(target, i)));
        assert(Seq::<Seq<char>>::empty().push(schema[i].name) =~= seq![schema[i].name]);
        lemma_lookup(schema, row, i);
    }
    assert(got =~= row);
}

/// A projection of the struct at a path starts with a column for each child, in their order, each
/// read from the child of the same name. It fails to start exactly if there is no struct.
pub proof fn law_start_below(schema: SchemaView, root: PathView)
    ensures
        ({
            let patch = PatchView::start(schema, root);
            &&& patch.input_schema == schema
            &&& patch.root == root
            &&& match patch.slots {
                Ok(slots) => {
                    &&& struct_at(schema, root) matches Some(children)
                    &&& slots.len() == children.len()
                    &&& forall|i: int|
                        0 <= i < slots.len() ==> (#[trigger] slots[i]).field == children[i]
                            && slots[i].expr == ExprView::Column(root.push(children[i].name))
                },
                Err(e) => e == Error::UnknownColumn && struct_at(schema, root) is None,
            }
        }),
        root.len() == 0 ==> struct_at(schema, root) == Some(schema),
        root.len() > 0 ==> {
            let field = resolve(schema, root);
            struct_at(schema, root) == if field matches Some(f) && f.data_type is Struct {
                Some(field->0.data_type->Struct_0)
            } else {
                None
            }
        },
{
}

/// A projection computes its columns in their order, and fills a schema of their fields. That of
/// the struct at a path is null where the struct is.
pub proof fn law_projection_of_columns(patch: PatchView)
    requires
        patch.slots is Ok,
    ensures
        ({
            let slots = patch.slots->Ok_0;
            &&& patch.schema().len() == slots.len()
            &&& patch.expr() matches ExprView::Struct(exprs, present)
            &&& exprs.len() == slots.len()
            &&& forall|i: int|
                0 <= i < slots.len() ==> (#[trigger] slots[i]).field == patch.schema()[i]
                    && slots[i].expr == exprs[i]
            &&& patch.root.len() == 0 ==> present is None
            &&& patch.root.len() > 0 ==> present == Some(
                Box::new(
                    ExprView::Predicate(
                        Box::new(
                            PredicateView::Not(
                                Box::new(PredicateView::IsNull(ExprView::Column(patch.root))),
                            ),
                        ),
                    ),
                ),
            )
        }),
{
}

/// Fields can be appended to a schema exactly if none has the name of a field that is already there
/// or that comes before it.
pub proof fn law_appendable(schema: SchemaView, fields: SchemaView)
    ensures
        appendable(schema, fields) <==> {
            &&& forall|i: int, j: int|
                0 <= i < fields.len() && 0 <= j < schema.len() ==> (#[trigger] fields[i]).name != (
                #[trigger] schema[j]).name
            &&& forall|i: int, j: int|
                0 <= j < i < fields.len() ==> (#[trigger] fields[i]).name != (
                #[trigger] fields[j]).name
        },
{
    assert forall|i: int| 0 <= i < fields.len() implies has_field(
        schema + fields.take(i),
        (#[trigger] fields[i]).name,
    ) == ((exists|j: int| 0 <= j < schema.len() && (#[trigger] schema[j]).name == fields[i].name)
        || (exists|j: int| 0 <= j < i && (#[trigger] fields[j]).name == fields[i].name)) by {
        let all = schema + fields.take(i);
        let name = fields[i].name;
        law_lookup_by_name(all, name);
        if has_field(all, name) {
            let c = choose|c: int| 0 <= c < all.len() && (#[trigger] all[c]).name == name;
            if c < schema.len() {
                assert(schema[c].name == name);
            } else {
                assert(fields[c - schema.len()].name == name);
            }
        }
        if exists|j: int| 0 <= j < schema.len() && (#[trigger] schema[j]).name == name {
            let j = choose|j: int| 0 <= j < schema.len() && (#[trigger] schema[j]).name == name;
            assert(all[j].name == name);
        }
        if exists|j: int| 0 <= j < i && (#[trigger] fields[j]).name == name {
            let j = choose|j: int| 0 <= j < i && (#[trigger] fields[j]).name == name;
            assert(all[schema.len() + j].name == name);
        }
    }
    if appendable(schema, fields) {
        assert forall|i: int, j: int|
            0 <= i < fields.len() && 0 <= j < schema.len() implies (#[trigger] fields[i]).name != (
        #[trigger] schema[j]).name by {
            assert(!has_field(schema + fields.take(i), fields[i].name));
        }
        assert forall|i: int, j: int| 0 <= j < i < fields.len() implies (
        #[trigger] fields[i]).name != (#[trigger] fields[j]).name by {
            assert(!has_field(schema + fields.take(i), fields[i].name));
        }
    }
}

// --- Parsed columns ---

/// Whether an expression gives, on every row of a schema, the parsed statistics of the JSON text of
/// the add.
pub open spec fn parses_json_stats(expr: ExprView, stats: SchemaView, schema: SchemaView) -> bool {
    forall|engine: Engine, row: Row, target: DataTypeView| #[trigger]
        eval_expr(engine, expr, schema, row, target) == (engine.parse_json)(
            lookup(schema, row, seq!["add"@, "stats"@]),
            stats,
        )
}

/// Whether an expression gives, on every row of a schema, the partition values of the add as a
/// struct: those that are there already unless they are null, or else what the map gives.
pub open spec fn parses_partition_values(expr: ExprView, schema: SchemaView) -> bool {
    forall|engine: Engine, row: Row, target: DataTypeView| #[trigger]
        eval_expr(engine, expr, schema, row, target) == ({
            let there = lookup(schema, row, seq!["add"@, "partitionValues_parsed"@]);
            if resolve(schema, seq!["add"@, "partitionValues_parsed"@]) is Some && there
                != Value::Null {
                there
            } else {
                (engine.map_to_struct)(
                    lookup(schema, row, seq!["add"@, "partitionValues"@]),
                    target,
                )
            }
        })
}

/// Parsed statistics are appended to the adds if they are wanted and not there, and come from the
/// JSON text. They are taken away if they are there and not wanted. Otherwise nothing changes.
pub proof fn law_parsed_stats_column(patch: PatchView, stats: Option<SchemaView>)
    ensures
        ({
            let there = resolve(patch.input_schema, seq!["add"@, "stats_parsed"@]) is Some;
            let with = patch.with_parsed_add_stats(stats);
            let without = patch.without_unwanted_add_stats(stats);
            &&& stats is None || there ==> with == patch
            &&& stats is Some && !there ==> exists|expr: ExprView|
                {
                    &&& #[trigger] parses_json_stats(expr, stats->0, patch.input_schema)
                    &&& with == patch.append_at(
                        "add"@,
                        FieldView {
                            name: "stats_parsed"@,
                            data_type: DataTypeView::Struct(stats->0),
                            nullable: true,
                        },
                        expr,
                    )
                }
            &&& stats is Some || !there ==> without == patch
            &&& stats is None && there ==> without == patch.without_at("add"@, "stats_parsed"@)
        }),
{
    if let Some(schema) = stats {
        let expr = ExprView::ParseJson(
            Box::new(ExprView::Column(seq!["add"@, "stats"@])),
            schema,
        );
        reveal_with_fuel(eval_expr, 3);
        assert(parses_json_stats(expr, schema, patch.input_schema));
    }
}

/// Parsed partition values are put into the adds if they are wanted, at the end or in the place of
/// those that are there. Otherwise nothing changes.
pub proof fn law_parsed_partition_column(patch: PatchView, partitions: Option<SchemaView>)
    ensures
        ({
            let there = resolve(
                patch.input_schema,
                seq!["add"@, "partitionValues_parsed"@],
            ) is Some;
            let with = patch.with_parsed_add_partition_values(partitions);
            let field = FieldView {
                name: "partitionValues_parsed"@,
                data_type: DataTypeView::Struct(partitions->0),
                nullable: true,
            };
            &&& partitions is None ==> with == patch
            &&& partitions is Some ==> exists|expr: ExprView|
                {
                    &&& #[trigger] parses_partition_values(expr, patch.input_schema)
                    &&& with == if there {
                        patch.replace_at("add"@, "partitionValues_parsed"@, field, expr)
                    } else {
                        patch.append_at("add"@, field, expr)
                    }
                }
        }),
{
    let schema = patch.input_schema;
    let there = resolve(schema, seq!["add"@, "partitionValues_parsed"@]) is Some;
    let parsed = ExprView::Column(seq!["add"@, "partitionValues_parsed"@]);
    let map = ExprView::MapToStruct(
        Box::new(ExprView::Column(seq!["add"@, "partitionValues"@])),
    );
    let choices = seq![parsed, map];
    reveal_with_fuel(eval_expr, 3);
    let expr = if there {
        ExprView::Coalesce(choices)
    } else {
        map
    };
    if there {
        assert forall|engine: Engine, row: Row, target: DataTypeView| #[trigger]
            eval_expr(engine, expr, schema, row, target) == ({
                let found = lookup(schema, row, seq!["add"@, "partitionValues_parsed"@]);
                if found != Value::Null {
                    found
                } else {
                    (engine.map_to_struct)(
                        lookup(schema, row, seq!["add"@, "partitionValues"@]),
                        target,
                    )
                }
            }) by {
            let values = eval_choices(engine, choices, schema, row, target);
            let from_map = eval_expr(engine, map, schema, row, target);
            let found = lookup(schema, row, seq!["add"@, "partitionValues_parsed"@]);
            assert(from_map == (engine.map_to_struct)(
                lookup(schema, row, seq!["add"@, "partitionValues"@]),
                target,
            ));
            assert(values =~= seq![found, from_map]);
            reveal_with_fuel(first_non_null, 3);
        }
    }
    assert(parses_partition_values(expr, schema));
}

} // verus!
