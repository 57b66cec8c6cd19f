//! What the arms of a metadata scan plan yield.

use vstd::prelude::*;

use crate::actions::{
    deletion_vector_view, remove_field_view, remove_view, SidecarView, ADD_NAME,
    PARTITION_VALUES_PARSED, REMOVE_NAME, SIDECAR_DIRECTORY, STATS_PARSED,
};
use crate::checkpoint_shape::{CheckpointType, ShapeView};
use crate::error::Error;
use crate::expressions::{ExprView, PathView};
use crate::files::{FileType, ScanFileView};
use crate::location::url_join;
use crate::log_segment::{tag_sidecars, tag_with_versions, LogPathView};
use crate::plan::{all_named, LoadView, RelationView};
use crate::scan_plan::{
    add_col, add_or_remove, add_with_parsed, arm_patch, checkpoint_actions, checkpoint_key_expr,
    checkpoint_relation, commit_key_expr, commit_relation, extracted_add_view,
    file_action_key_field_view, has_add, has_file_action, in_add_view, is_add_field_view,
    json_read_view, key_dv_path, key_expr, key_path, key_view, lemma_add_names_distinct,
    lemma_parsed_children, lemma_resolve_first, manifest_relation, normalized_add_view,
    parquet_read_view, parsed_fields, sidecar_file_meta_view, sidecar_load, version_field_view,
    ScanView, FILE_ACTION_KEY, IS_ADD, PARTITION_VALUES, STATS, VERSION,
};
use crate::schema::{
    boolean_type, distinct_names, field_pos, has_field, integer_type, is_field_at,
    lemma_distinct_field_pos, lemma_field_pos, lemma_has_field, nullable_field, text_type,
    DataTypeView, FieldView, SchemaView,
};
use crate::semantics::{
    child_type, conforms, empty_engine, eval_expr, eval_exprs, fits, held_rows, holds, is_sound,
    lemma_coalesce_columns, lemma_filter, lemma_is_not_null, lemma_lookup, lemma_lookup_child,
    lemma_lookup_grandchild, lemma_or, lemma_project, loaded_file_rows, loaded_rows, lookup, member,
    or_else, project_row, row_conforms, rows_of, scalar_value, scan_rows, with_constants, Engine,
    Row, Value,
};
use crate::sequences::{lemma_filter_from, lemma_filter_same};
use crate::struct_patch::{
    append_slot, close_slot, drop_slot, edit_children, kept_slots, open_slot, slot_exprs,
    slot_fields, PatchView, SlotView,
};
use crate::sidecar_laws::{law_manifest_rows, named_file, sidecar_rows};

verus! {

// --- Schemas ---

/// The parsed statistics of an arm's adds: none if the scan wants none, else those that its source
/// has, or else those that the scan wants.
pub open spec fn arm_stats(scan: ScanView, source: Option<SchemaView>) -> Option<SchemaView> {
    if scan.stats_schema is None {
        None
    } else if source is Some {
        source
    } else {
        scan.stats_schema
    }
}

/// The parsed statistics of the source that an arm's adds keep.
pub open spec fn kept_stats(scan: ScanView, source: Option<SchemaView>) -> Option<SchemaView> {
    if scan.stats_schema is None {
        None
    } else {
        source
    }
}

/// The children that an arm appends to the adds of its source.
pub open spec fn appended_slots(scan: ScanView, source: Option<SchemaView>) -> Seq<SlotView> {
    (match scan.stats_schema {
        Some(schema) if source is None => seq![
            SlotView {
                field: nullable_field(STATS_PARSED@, DataTypeView::Struct(schema)),
                expr: ExprView::ParseJson(Box::new(add_col(STATS@)), schema),
            },
        ],
        _ => seq![],
    }) + (match scan.partition_schema {
        Some(schema) => seq![
            SlotView {
                field: nullable_field(PARTITION_VALUES_PARSED@, DataTypeView::Struct(schema)),
                expr: ExprView::MapToStruct(Box::new(add_col(PARTITION_VALUES@))),
            },
        ],
        None => seq![],
    })
}

/// The adds of an arm: read as they are if nothing is taken from them or appended to them.
pub open spec fn arm_add_slot(scan: ScanView, source: Option<SchemaView>) -> SlotView {
    let children = extracted_add_view() + parsed_fields(kept_stats(scan, source), None);
    let appended = appended_slots(scan, source);
    SlotView {
        field: add_with_parsed(arm_stats(scan, source), scan.partition_schema),
        expr: if kept_stats(scan, source) == source && appended.len() == 0 {
            ExprView::Column(seq![ADD_NAME@])
        } else {
            ExprView::Struct(
                slot_exprs(kept_slots(seq![ADD_NAME@], children) + appended),
                Some(Box::new(ExprView::Column(seq![ADD_NAME@]).is_not_null().as_expr())),
            )
        },
    }
}

/// The columns of an arm that reads the given columns beside its adds.
pub open spec fn arm_slots(
    scan: ScanView,
    source: Option<SchemaView>,
    others: SchemaView,
    key: ExprView,
) -> Seq<SlotView> {
    seq![arm_add_slot(scan, source)] + kept_slots(seq![], others) + seq![
        SlotView { field: is_add_field_view(), expr: has_add().as_expr() },
        SlotView { field: file_action_key_field_view(), expr: key },
    ]
}

/// The schema of an arm that reads the given columns beside its adds.
pub open spec fn arm_schema(
    scan: ScanView,
    source: Option<SchemaView>,
    others: SchemaView,
) -> SchemaView {
    seq![add_with_parsed(arm_stats(scan, source), scan.partition_schema)] + others + seq![
        is_add_field_view(),
        file_action_key_field_view(),
    ]
}

/// Whether an arm can read the given columns beside its adds: their names differ from each other
/// and from those of the columns that the arm makes.
pub open spec fn readable_beside(others: SchemaView) -> bool {
    &&& distinct_names(others)
    &&& forall|i: int|
        0 <= i < others.len() ==> {
            let name = (#[trigger] others[i]).name;
            &&& name != ADD_NAME@
            &&& name != IS_ADD@
            &&& name != FILE_ACTION_KEY@
        }
}

/// The names of the top-level columns of the arms differ.
pub proof fn lemma_column_names()
    ensures
        ADD_NAME@ != REMOVE_NAME@,
        ADD_NAME@ != VERSION@,
        ADD_NAME@ != IS_ADD@,
        ADD_NAME@ != FILE_ACTION_KEY@,
        REMOVE_NAME@ != VERSION@,
        REMOVE_NAME@ != IS_ADD@,
        REMOVE_NAME@ != FILE_ACTION_KEY@,
        VERSION@ != IS_ADD@,
        VERSION@ != FILE_ACTION_KEY@,
        IS_ADD@ != FILE_ACTION_KEY@,
{
    reveal_strlit("add");
    reveal_strlit("remove");
    reveal_strlit("version");
    reveal_strlit("is_add");
    reveal_strlit("file_action_key");
    assert(ADD_NAME@.len() < VERSION@.len());
    assert(ADD_NAME@.len() < FILE_ACTION_KEY@.len());
    assert(REMOVE_NAME@[0] != IS_ADD@[0]);
}

/// The columns of an arm have distinct names.
pub proof fn lemma_arm_names(scan: ScanView, source: Option<SchemaView>, others: SchemaView)
    requires
        readable_beside(others),
    ensures
        distinct_names(arm_schema(scan, source, others)),
{
    lemma_column_names();
    let schema = arm_schema(scan, source, others);
    assert forall|i: int, j: int| 0 <= i < j < schema.len() implies (#[trigger] schema[i]).name
        != (#[trigger] schema[j]).name by {
        if 0 < i <= others.len() {
            assert(schema[i] == others[i - 1]);
        }
        if 0 < j <= others.len() {
            assert(schema[j] == others[j - 1]);
        }
    }
}

/// The columns that an arm reads have distinct names.
pub proof fn lemma_source_names(source: Option<SchemaView>, others: SchemaView)
    requires
        readable_beside(others),
    ensures
        distinct_names(source_schema(source, others)),
{
    let input = source_schema(source, others);
    assert forall|i: int, j: int| 0 <= i < j < input.len() implies (#[trigger] input[i]).name
        != (#[trigger] input[j]).name by {
        assert(input[j] == others[j - 1]);
        if i > 0 {
            assert(input[i] == others[i - 1]);
        }
    }
}

/// Appending a child to the first column, a struct column.
proof fn lemma_append_first(slots: Seq<SlotView>, name: Seq<char>, slot: SlotView)
    requires
        slots.len() > 0,
        slots[0].field.name == name,
        open_slot(slots[0]) matches Some((children, present)) && !has_field(
            slot_fields(children),
            slot.field.name,
        ),
    ensures
        edit_children(
            slots,
            name,
            |children: Seq<SlotView>| append_slot(children, slot),
        ) == ({
            let (children, present) = open_slot(slots[0])->0;
            Ok::<Seq<SlotView>, Error>(
                slots.update(0, close_slot(slots[0].field, children.push(slot), present)),
            )
        }),
{
    assert(is_field_at(slot_fields(slots), name, 0));
    lemma_field_pos(slot_fields(slots), name, 0);
}

/// A struct column that was put together comes apart into the same children.
proof fn lemma_open_closed(
    field: FieldView,
    children: Seq<SlotView>,
    present: Option<Box<ExprView>>,
)
    ensures
        open_slot(close_slot(field, children, present)) == Some((children, present)),
{
    let fields = slot_fields(children);
    let exprs = slot_exprs(children);
    assert(Seq::new(
        fields.len(),
        |i: int| SlotView { field: fields[i], expr: exprs[i] },
    ) =~= children);
}

/// Dropping a child of the first column, a struct column.
proof fn lemma_drop_first(slots: Seq<SlotView>, name: Seq<char>, i: int)
    requires
        slots.len() > 0,
        slots[0].field.name == name,
        open_slot(slots[0]) matches Some((children, present)) && 0 <= i < children.len()
            && distinct_names(slot_fields(children)),
    ensures
        ({
            let (children, present) = open_slot(slots[0])->0;
            edit_children(
                slots,
                name,
                |all: Seq<SlotView>| drop_slot(all, children[i].field.name),
            ) == Ok::<Seq<SlotView>, Error>(
                slots.update(0, close_slot(slots[0].field, children.remove(i), present)),
            )
        }),
{
    let (children, present) = open_slot(slots[0])->0;
    assert(is_field_at(slot_fields(slots), name, 0));
    lemma_field_pos(slot_fields(slots), name, 0);
    assert(slot_fields(children)[i] == children[i].field);
    lemma_distinct_field_pos(slot_fields(children), i);
}

/// The adds of an arm after parsed columns were appended and those that are not wanted dropped.
proof fn lemma_arm_add(scan: ScanView, source: Option<SchemaView>, others: SchemaView)
    requires
        readable_beside(others),
    ensures
        ({
            let input = source_schema(source, others);
            PatchView::start(input, seq![]).with_parsed_add_stats(
                scan.stats_schema,
            ).without_unwanted_add_stats(scan.stats_schema).with_parsed_add_partition_values(
                scan.partition_schema,
            ) == (PatchView {
                input_schema: input,
                root: seq![],
                slots: Ok(
                    seq![arm_add_slot(scan, source)] + kept_slots(seq![], others),
                ),
            })
        }),
{
    let input = source_schema(source, others);
    let children = extracted_add_view() + parsed_fields(source, None);
    let start = PatchView::start(input, seq![]);
    let slots = kept_slots(seq![], input);
    let path = seq![ADD_NAME@];
    assert(start.slots == Ok::<Seq<SlotView>, Error>(slots));
    assert(Seq::<Seq<char>>::empty().push(ADD_NAME@) =~= path);
    assert(slots[0] == (SlotView { field: input[0], expr: ExprView::Column(path) }));
    let present = Some(Box::new(ExprView::Column(path).is_not_null().as_expr()));
    let read = kept_slots(path, children);
    let kept = kept_slots(path, source_children(kept_stats(scan, source)));
    assert(open_slot(slots[0]) == Some((read, present)));
    assert(slot_fields(read) =~= children);
    lemma_parsed_children(source, None);
    lemma_resolve_first(input, children, STATS_PARSED@);
    lemma_resolve_first(input, children, PARTITION_VALUES_PARSED@);
    assert(slots =~= seq![slots[0]] + kept_slots(seq![], others));

    let appended = appended_slots(scan, source);
    let after_stats = start.with_parsed_add_stats(
        scan.stats_schema,
    ).without_unwanted_add_stats(scan.stats_schema);
    let stats_slots = if scan.stats_schema is None && source is Some {
        assert(read[11].field.name == STATS_PARSED@);
        lemma_add_names_distinct(source, None);
        lemma_drop_first(slots, ADD_NAME@, 11);
        assert(read.remove(11) =~= kept);
        let r = slots.update(0, close_slot(slots[0].field, kept, present));
        assert(after_stats == (PatchView { input_schema: input, root: seq![], slots: Ok(r) }));
        lemma_open_closed(slots[0].field, kept, present);
        assert(slot_fields(kept) =~= extracted_add_view() + parsed_fields(None, None));
        r
    } else if scan.stats_schema is Some && source is None {
        let slot = appended[0];
        lemma_append_first(slots, ADD_NAME@, slot);
        let r = slots.update(0, close_slot(slots[0].field, kept.push(slot), present));
        assert(after_stats == (PatchView { input_schema: input, root: seq![], slots: Ok(r) }));
        lemma_open_closed(slots[0].field, kept.push(slot), present);
        assert(slot_fields(kept.push(slot)) =~= extracted_add_view() + parsed_fields(
            scan.stats_schema,
            None,
        ));
        r
    } else {
        assert(after_stats == start);
        slots
    };
    let opened = open_slot(stats_slots[0]);
    assert(opened matches Some((c, p)) && p == present && slot_fields(c) == extracted_add_view()
        + parsed_fields(arm_stats(scan, source), None));
    let (before, _) = opened->0;
    let after_both = after_stats.with_parsed_add_partition_values(scan.partition_schema);
    lemma_parsed_children(arm_stats(scan, source), None);
    match scan.partition_schema {
        Some(schema) => {
            let slot = appended.last();
            lemma_append_first(stats_slots, ADD_NAME@, slot);
            let whole = close_slot(stats_slots[0].field, before.push(slot), present);
            let r = stats_slots.update(0, whole);
            assert(after_both.slots == Ok::<Seq<SlotView>, Error>(r));
            assert(slot_fields(before.push(slot)) =~= extracted_add_view() + parsed_fields(
                arm_stats(scan, source),
                scan.partition_schema,
            ));
            assert(before.push(slot) =~= kept + appended);
            assert(whole == arm_add_slot(scan, source));
            assert(r =~= seq![arm_add_slot(scan, source)] + kept_slots(seq![], others));
        },
        None => {
            assert(after_both == after_stats);
            assert(appended =~= if source is None && scan.stats_schema is Some {
                seq![appended[0]]
            } else {
                seq![]
            });
            if appended.len() > 0 {
                assert(kept.push(appended[0]) =~= kept + appended);
                assert(stats_slots[0] == arm_add_slot(scan, source));
            } else if scan.stats_schema is None && source is Some {
                assert(kept =~= kept + appended);
                assert(parsed_fields(None, None) =~= parsed_fields(
                    arm_stats(scan, source),
                    None,
                ));
                assert(stats_slots[0] == arm_add_slot(scan, source));
            } else {
                assert(parsed_fields(source, None) =~= parsed_fields(
                    arm_stats(scan, source),
                    None,
                ));
                assert(stats_slots[0] == arm_add_slot(scan, source));
            }
            assert(stats_slots =~= seq![arm_add_slot(scan, source)] + kept_slots(seq![], others));
        },
    }
}

/// The columns of an arm, and their schema: parsed adds, the other columns that were read, whether
/// the row is an add, and the identity of its file. An arm can always be built.
pub proof fn lemma_arm_slots(
    scan: ScanView,
    source: Option<SchemaView>,
    others: SchemaView,
    key: ExprView,
)
    requires
        readable_beside(others),
    ensures
        ({
            let input = source_schema(source, others);
            let patch = arm_patch(scan, input, key);
            &&& patch.input_schema == input
            &&& patch.root == Seq::<Seq<char>>::empty()
            &&& patch.slots == Ok::<Seq<SlotView>, Error>(arm_slots(scan, source, others, key))
            &&& patch.schema() == arm_schema(scan, source, others)
        }),
{
    lemma_arm_add(scan, source, others);
    lemma_arm_names(scan, source, others);
    let input = source_schema(source, others);
    let schema = arm_schema(scan, source, others);
    let two = seq![arm_add_slot(scan, source)] + kept_slots(seq![], others);
    let is_add = SlotView { field: is_add_field_view(), expr: has_add().as_expr() };
    let keyed = SlotView { field: file_action_key_field_view(), expr: key };
    let n = 1 + others.len() as int;
    assert(slot_fields(two) =~= schema.take(n));
    lemma_new_name(schema, n);
    let three = two.push(is_add);
    assert(slot_fields(three) =~= schema.take(n + 1));
    lemma_new_name(schema, n + 1);
    let all = three.push(keyed);
    assert(all =~= arm_slots(scan, source, others, key));
    assert(slot_fields(all) =~= schema);
}

/// Where names are distinct, no name stands among those before it.
proof fn lemma_new_name(schema: SchemaView, n: int)
    requires
        distinct_names(schema),
        0 <= n < schema.len(),
    ensures
        !has_field(schema.take(n), schema[n].name),
{
    if has_field(schema.take(n), schema[n].name) {
        let k = field_pos(schema.take(n), schema[n].name);
        assert(is_field_at(schema.take(n), schema[n].name, k));
        assert(schema.take(n)[k] == schema[k]);
    }
}

// --- Rows ---

/// The children of the adds that an arm reads from a source.
pub open spec fn source_children(source: Option<SchemaView>) -> SchemaView {
    extracted_add_view() + parsed_fields(source, None)
}

/// The columns that an arm reads.
pub open spec fn source_schema(source: Option<SchemaView>, others: SchemaView) -> SchemaView {
    seq![add_with_parsed(source, None)] + others
}

/// The path of the file of an add or a remove.
pub open spec fn path_of(action: Value) -> Value {
    member(action, 0)
}

/// The deletion vector of an add.
pub open spec fn add_deletion_vector(add: Value) -> Value {
    member(add, 7)
}

/// The deletion vector of a remove.
pub open spec fn remove_deletion_vector(remove: Value) -> Value {
    member(remove, 8)
}

/// An add after parsing: what it was, but for the parsed statistics if none are wanted, then the
/// statistics that its JSON text gives if they are wanted and the source has none parsed, then the
/// struct of its partition values if that is wanted. A null stays null.
pub open spec fn arm_add_value(
    engine: Engine,
    scan: ScanView,
    source: Option<SchemaView>,
    add: Value,
) -> Value {
    match add {
        Value::Record(values) => Value::Record(
            values.take(source_children(kept_stats(scan, source)).len() as int) + (
            match scan.stats_schema {
                Some(schema) if source is None => seq![(engine.parse_json)(values[5], schema)],
                _ => seq![],
            }) + (match scan.partition_schema {
                Some(schema) => seq![
                    (engine.map_to_struct)(values[1], DataTypeView::Struct(schema)),
                ],
                None => seq![],
            }),
        ),
        _ => Value::Null,
    }
}

/// A row of an arm: the parsed add, the other columns as they were, whether the row is an add, and
/// the identity of its file.
pub open spec fn arm_row(
    engine: Engine,
    scan: ScanView,
    source: Option<SchemaView>,
    row: Row,
    key: Value,
) -> Row {
    seq![arm_add_value(engine, scan, source, row[0])] + row.skip(1) + seq![
        Value::Bool(path_of(row[0]) != Value::Null),
        key,
    ]
}

/// The children of an add that an arm reads are found where they stand.
pub proof fn lemma_add_child(source: Option<SchemaView>, others: SchemaView, row: Row, i: int)
    requires
        readable_beside(others),
        0 <= i < source_children(source).len(),
    ensures
        lookup(
            source_schema(source, others),
            row,
            seq![ADD_NAME@, source_children(source)[i].name],
        ) == member(row[0], i),
{
    lemma_source_names(source, others);
    lemma_add_names_distinct(source, None);
    let input = source_schema(source, others);
    assert(input[0] == add_with_parsed(source, None));
    lemma_lookup_child(input, row, 0, source_children(source), i);
}

/// The add of an arm's row.
proof fn lemma_arm_add_value(
    engine: Engine,
    scan: ScanView,
    source: Option<SchemaView>,
    others: SchemaView,
    row: Row,
)
    requires
        readable_beside(others),
        fits(row[0], source_children(source)),
        row[0] is Null || row[0] is Record,
    ensures
        eval_expr(
            engine,
            arm_add_slot(scan, source).expr,
            source_schema(source, others),
            row,
            arm_add_slot(scan, source).field.data_type,
        ) == arm_add_value(engine, scan, source, row[0]),
{
    let input = source_schema(source, others);
    let children = source_children(kept_stats(scan, source));
    let appended = appended_slots(scan, source);
    let slot = arm_add_slot(scan, source);
    let target = slot.field.data_type;
    assert(forall|i: int|
        0 <= i < children.len() ==> #[trigger] children[i] == source_children(source)[i]);
    let whole = ExprView::Column(seq![ADD_NAME@]);
    lemma_source_names(source, others);
    assert(input[0] == add_with_parsed(source, None));
    lemma_lookup(input, row, 0);
    if kept_stats(scan, source) == source && appended.len() == 0 {
        if let Value::Record(values) = row[0] {
            assert(arm_add_value(engine, scan, source, row[0])->Record_0 =~= values);
        }
    } else {
        let kept = kept_slots(seq![ADD_NAME@], children);
        let es = slot_exprs(kept + appended);
        lemma_is_not_null(engine, whole, input, row, boolean_type());
        if let Value::Record(values) = row[0] {
            let got = eval_exprs(engine, es, input, row, target);
            let expected = arm_add_value(engine, scan, source, row[0])->Record_0;
            assert forall|i: int| 0 <= i < got.len() implies got[i] == expected[i] by {
                if i < children.len() {
                    lemma_add_child(source, others, row, i);
                    assert(seq![ADD_NAME@].push(children[i].name) =~= seq![
                        ADD_NAME@,
                        children[i].name,
                    ]);
                    assert(es[i] == ExprView::Column(seq![ADD_NAME@, children[i].name]));
                } else {
                    assert(es[i] == appended[i - children.len()].expr);
                    assert(children[5].name == STATS@);
                    assert(children[1].name == PARTITION_VALUES@);
                    lemma_add_child(source, others, row, 5);
                    lemma_add_child(source, others, row, 1);
                    let stats = add_col(STATS@);
                    let partitions = add_col(PARTITION_VALUES@);
                    let t = child_type(target, i);
                    assert(eval_expr(engine, stats, input, row, t) == values[5]);
                    assert(eval_expr(engine, partitions, input, row, t) == values[1]);
                }
            }
            assert(got.len() == expected.len());
            assert(got =~= expected);
        }
    }
}

/// The row that an arm makes of a row that it reads.
pub proof fn lemma_arm_row(
    engine: Engine,
    scan: ScanView,
    source: Option<SchemaView>,
    others: SchemaView,
    key: ExprView,
    row: Row,
    value: Value,
)
    requires
        readable_beside(others),
        row.len() == 1 + others.len(),
        fits(row[0], source_children(source)),
        row[0] is Null || row[0] is Record,
        eval_expr(
            engine,
            key,
            source_schema(source, others),
            row,
            file_action_key_field_view().data_type,
        ) == value,
    ensures
        project_row(
            engine,
            arm_patch(scan, source_schema(source, others), key).expr(),
            source_schema(source, others),
            row,
            arm_schema(scan, source, others),
        ) == arm_row(engine, scan, source, row, value),
{
    let input = source_schema(source, others);
    let schema = arm_schema(scan, source, others);
    let slots = arm_slots(scan, source, others, key);
    let es = slot_exprs(slots);
    let target = DataTypeView::Struct(schema);
    let n = others.len() as int;
    lemma_arm_slots(scan, source, others, key);
    lemma_source_names(source, others);
    let got = eval_exprs(engine, es, input, row, target);
    let expected = arm_row(engine, scan, source, row, value);
    assert(got.len() == expected.len());
    assert forall|i: int| 0 <= i < got.len() implies got[i] == expected[i] by {
        assert(child_type(target, i) == schema[i].data_type);
        if i == 0 {
            lemma_arm_add_value(engine, scan, source, others, row);
        } else if i <= n {
            assert(es[i] == ExprView::Column(Seq::<Seq<char>>::empty().push(others[i - 1].name)));
            assert(Seq::<Seq<char>>::empty().push(others[i - 1].name) =~= seq![input[i].name]);
            lemma_lookup(input, row, i);
        } else if i == n + 1 {
            assert(source_children(source)[0].name == "path"@);
            lemma_add_child(source, others, row, 0);
            lemma_is_not_null(engine, add_col("path"@), input, row, schema[i].data_type);
        }
    }
    assert(got =~= expected);
}

// --- The identity of a file ---

/// The identity of a file: its path, and its deletion vector unless that has no storage type.
pub open spec fn key_value(
    path: Value,
    storage_type: Value,
    inline: Value,
    offset: Value,
) -> Value {
    Value::Record(
        seq![
            path,
            if storage_type == Value::Null {
                Value::Null
            } else {
                Value::Record(seq![storage_type, inline, offset])
            },
        ],
    )
}

/// The identity of the file of an add.
pub open spec fn add_key(add: Value) -> Value {
    let dv = add_deletion_vector(add);
    key_value(path_of(add), member(dv, 0), member(dv, 1), member(dv, 2))
}

/// The identity of the file of an add or else of a remove.
pub open spec fn action_key(add: Value, remove: Value) -> Value {
    let dv = add_deletion_vector(add);
    let removed = remove_deletion_vector(remove);
    key_value(
        or_else(path_of(add), path_of(remove)),
        or_else(member(dv, 0), member(removed, 0)),
        or_else(member(dv, 1), member(removed, 1)),
        or_else(member(dv, 2), member(removed, 2)),
    )
}

/// The values from which a file identity is made, on one row: those of its path, and of the storage
/// type, the path or inline vector, and the offset of its deletion vector, and whether the storage
/// type is tested to be there.
pub struct KeyParts {
    pub path: Value,
    pub storage_type: Value,
    pub inline: Value,
    pub offset: Value,
    pub has_storage_type: bool,
}

/// The values of the expressions from which a file identity is made.
pub open spec fn key_parts(
    engine: Engine,
    path: ExprView,
    storage_type: ExprView,
    inline: ExprView,
    offset: ExprView,
    schema: SchemaView,
    row: Row,
) -> KeyParts {
    KeyParts {
        path: eval_expr(engine, path, schema, row, text_type()),
        storage_type: eval_expr(engine, storage_type, schema, row, text_type()),
        inline: eval_expr(engine, inline, schema, row, text_type()),
        offset: eval_expr(engine, offset, schema, row, integer_type()),
        has_storage_type: eval_expr(engine, storage_type, schema, row, boolean_type())
            != Value::Null,
    }
}

/// The identity that a file identity expression gives to a row.
pub open spec fn key_on(
    engine: Engine,
    path: ExprView,
    storage_type: ExprView,
    inline: ExprView,
    offset: ExprView,
    schema: SchemaView,
    row: Row,
) -> Value {
    eval_expr(
        engine,
        key_expr(path, storage_type, inline, offset),
        schema,
        row,
        file_action_key_field_view().data_type,
    )
}

/// A file identity is made of the four values and of nothing else: the path, and the deletion
/// vector, which is null exactly where its storage type is.
pub proof fn law_file_key(
    engine: Engine,
    path: ExprView,
    storage_type: ExprView,
    inline: ExprView,
    offset: ExprView,
    schema: SchemaView,
    row: Row,
)
    ensures
        ({
            let parts = key_parts(engine, path, storage_type, inline, offset, schema, row);
            let key = key_on(engine, path, storage_type, inline, offset, schema, row);
            &&& key == Value::Record(
                seq![
                    parts.path,
                    if parts.has_storage_type {
                        Value::Record(seq![parts.storage_type, parts.inline, parts.offset])
                    } else {
                        Value::Null
                    },
                ],
            )
            &&& member(key, 1) is Null <==> !parts.has_storage_type
        }),
{
    let parts = key_parts(engine, path, storage_type, inline, offset, schema, row);
    let target = DataTypeView::Struct(key_view());
    let inner = seq![storage_type, inline, offset];
    let present = storage_type.is_not_null().as_expr();
    let dv = ExprView::Struct(inner, Some(Box::new(present)));
    let dv_target = child_type(target, 1);
    lemma_is_not_null(engine, storage_type, schema, row, boolean_type());
    let values = eval_exprs(engine, inner, schema, row, dv_target);
    assert(values[0] == eval_expr(engine, inner[0], schema, row, child_type(dv_target, 0)));
    assert(values[1] == eval_expr(engine, inner[1], schema, row, child_type(dv_target, 1)));
    assert(values[2] == eval_expr(engine, inner[2], schema, row, child_type(dv_target, 2)));
    assert(values =~= seq![parts.storage_type, parts.inline, parts.offset]);
    let dv_value = if parts.has_storage_type {
        Value::Record(values)
    } else {
        Value::Null
    };
    assert(eval_expr(engine, dv, schema, row, dv_target) == dv_value);
    let outer = seq![path, dv];
    let whole = eval_exprs(engine, outer, schema, row, target);
    assert(whole[0] == eval_expr(engine, outer[0], schema, row, child_type(target, 0)));
    assert(whole[1] == eval_expr(engine, outer[1], schema, row, dv_target));
    assert(whole =~= seq![parts.path, dv_value]);
}

/// Whatever the columns are taken from, two rows have the same file identity exactly if their paths
/// are equal and so are their deletion vectors: neither has a storage type, or both have one and
/// their storage types, their paths or inline vectors, and their offsets are equal.
pub proof fn law_file_keys_are_equal(
    engine: Engine,
    path: ExprView,
    storage_type: ExprView,
    inline: ExprView,
    offset: ExprView,
    schema: SchemaView,
    row: Row,
    other_schema: SchemaView,
    other: Row,
)
    ensures
        ({
            let a = key_parts(engine, path, storage_type, inline, offset, schema, row);
            let b = key_parts(engine, path, storage_type, inline, offset, other_schema, other);
            key_on(engine, path, storage_type, inline, offset, schema, row) == key_on(
                engine,
                path,
                storage_type,
                inline,
                offset,
                other_schema,
                other,
            ) <==> {
                &&& a.path == b.path
                &&& a.has_storage_type == b.has_storage_type
                &&& a.has_storage_type ==> a.storage_type == b.storage_type && a.inline == b.inline
                    && a.offset == b.offset
            }
        }),
{
    law_file_key(engine, path, storage_type, inline, offset, schema, row);
    law_file_key(engine, path, storage_type, inline, offset, other_schema, other);
    let a = key_on(engine, path, storage_type, inline, offset, schema, row)->Record_0;
    let b = key_on(engine, path, storage_type, inline, offset, other_schema, other)->Record_0;
    if a == b {
        assert(a[0] == b[0] && a[1] == b[1]);
        if let Value::Record(c) = a[1] {
            let d = b[1]->Record_0;
            assert(c[0] == d[0] && c[1] == d[1] && c[2] == d[2]);
        }
    }
}

/// The value of a file identity, where the values do not depend on what is expected of them.
proof fn lemma_key_expr(
    engine: Engine,
    es: (ExprView, ExprView, ExprView, ExprView),
    vs: (Value, Value, Value, Value),
    schema: SchemaView,
    row: Row,
)
    requires
        forall|t: DataTypeView| #[trigger] eval_expr(engine, es.0, schema, row, t) == vs.0,
        forall|t: DataTypeView| #[trigger] eval_expr(engine, es.1, schema, row, t) == vs.1,
        forall|t: DataTypeView| #[trigger] eval_expr(engine, es.2, schema, row, t) == vs.2,
        forall|t: DataTypeView| #[trigger] eval_expr(engine, es.3, schema, row, t) == vs.3,
    ensures
        eval_expr(
            engine,
            key_expr(es.0, es.1, es.2, es.3),
            schema,
            row,
            file_action_key_field_view().data_type,
        ) == key_value(vs.0, vs.1, vs.2, vs.3),
{
    law_file_key(engine, es.0, es.1, es.2, es.3, schema, row);
}

/// The names of a deletion vector's children differ.
pub proof fn lemma_deletion_vector_names()
    ensures
        distinct_names(deletion_vector_view()),
{
    reveal_strlit("storageType");
    reveal_strlit("pathOrInlineDv");
    reveal_strlit("offset");
    reveal_strlit("sizeInBytes");
    reveal_strlit("cardinality");
    let schema = deletion_vector_view();
    assert forall|i: int, j: int| 0 <= i < j < schema.len() implies (#[trigger] schema[i]).name
        != (#[trigger] schema[j]).name by {
        assert(schema[i].name.len() != schema[j].name.len() || schema[i].name[0]
            != schema[j].name[0] || schema[i].name[1] != schema[j].name[1]);
    }
}

/// The names of a remove's children differ.
pub proof fn lemma_remove_names()
    ensures
        distinct_names(remove_view()),
{
    reveal_strlit("path");
    reveal_strlit("deletionTimestamp");
    reveal_strlit("dataChange");
    reveal_strlit("extendedFileMetadata");
    reveal_strlit("partitionValues");
    reveal_strlit("size");
    reveal_strlit("stats");
    reveal_strlit("tags");
    reveal_strlit("deletionVector");
    reveal_strlit("baseRowId");
    reveal_strlit("defaultRowCommitVersion");
    let schema = remove_view();
    assert("path"@[0] != "size"@[0] && "path"@[0] != "tags"@[0] && "size"@[0] != "tags"@[0]);
    assert forall|i: int, j: int| 0 <= i < j < schema.len() implies (#[trigger] schema[i]).name
        != (#[trigger] schema[j]).name by {
        assert(schema[i].name.len() != schema[j].name.len() || schema[i].name[0]
            != schema[j].name[0]);
    }
}

/// What an add holds at the paths that identify its file.
pub proof fn lemma_add_key_parts(source: Option<SchemaView>, others: SchemaView, row: Row, k: int)
    requires
        readable_beside(others),
        0 <= k < 3,
    ensures
        lookup(source_schema(source, others), row, seq![ADD_NAME@] + key_path()) == path_of(row[0]),
        lookup(
            source_schema(source, others),
            row,
            seq![ADD_NAME@] + key_dv_path(deletion_vector_view()[k].name),
        ) == member(add_deletion_vector(row[0]), k),
{
    let input = source_schema(source, others);
    let children = source_children(source);
    lemma_add_child(source, others, row, 0);
    assert(children[0].name == "path"@);
    assert(seq![ADD_NAME@] + key_path() =~= seq![ADD_NAME@, "path"@]);
    lemma_deletion_vector_names();
    lemma_add_names_distinct(source, None);
    lemma_source_names(source, others);
    let dv = deletion_vector_view();
    assert(children[7].name == "deletionVector"@);
    assert(input[0] == add_with_parsed(source, None));
    lemma_lookup_grandchild(input, row, 0, children, 7, dv, k);
    assert(seq![ADD_NAME@] + key_dv_path(dv[k].name) =~= seq![
        ADD_NAME@,
        "deletionVector"@,
        dv[k].name,
    ]);
}

/// The identity of the file of an add, as the checkpoint arm computes it.
pub proof fn lemma_checkpoint_key(
    engine: Engine,
    source: Option<SchemaView>,
    others: SchemaView,
    row: Row,
)
    requires
        readable_beside(others),
    ensures
        eval_expr(
            engine,
            checkpoint_key_expr(),
            source_schema(source, others),
            row,
            file_action_key_field_view().data_type,
        ) == add_key(row[0]),
{
    let input = source_schema(source, others);
    lemma_add_key_parts(source, others, row, 0);
    lemma_add_key_parts(source, others, row, 1);
    lemma_add_key_parts(source, others, row, 2);
    let dv = add_deletion_vector(row[0]);
    lemma_key_expr(
        engine,
        (
            in_add_view(key_path()),
            in_add_view(key_dv_path("storageType"@)),
            in_add_view(key_dv_path("pathOrInlineDv"@)),
            in_add_view(key_dv_path("offset"@)),
        ),
        (path_of(row[0]), member(dv, 0), member(dv, 1), member(dv, 2)),
        input,
        row,
    );
}

/// The columns that the commit arm reads beside the adds.
pub open spec fn commit_others() -> SchemaView {
    seq![remove_field_view(), version_field_view()]
}

/// The columns that the checkpoint arm reads beside the adds.
pub open spec fn checkpoint_others() -> SchemaView {
    seq![version_field_view()]
}

/// Both arms can read their columns.
pub proof fn lemma_readable()
    ensures
        readable_beside(commit_others()),
        readable_beside(checkpoint_others()),
        json_read_view(true) == source_schema(None, commit_others()),
        json_read_view(false) == source_schema(None, checkpoint_others()),
        forall|source: Option<SchemaView>| #[trigger]
            parquet_read_view(source, None) == source_schema(source, checkpoint_others()),
{
    lemma_column_names();
    assert(extracted_add_view() + parsed_fields(None, None) =~= extracted_add_view());
    assert(json_read_view(true) =~= source_schema(None, commit_others()));
    assert(json_read_view(false) =~= source_schema(None, checkpoint_others()));
    assert forall|source: Option<SchemaView>| #[trigger]
        parquet_read_view(source, None) == source_schema(source, checkpoint_others()) by {
        assert(parquet_read_view(source, None) =~= source_schema(source, checkpoint_others()));
    }
}

/// What a remove holds at the paths that identify its file.
pub proof fn lemma_remove_key_parts(row: Row, k: int)
    requires
        0 <= k < 3,
    ensures
        lookup(json_read_view(true), row, seq![REMOVE_NAME@] + key_path()) == path_of(row[1]),
        lookup(
            json_read_view(true),
            row,
            seq![REMOVE_NAME@] + key_dv_path(deletion_vector_view()[k].name),
        ) == member(remove_deletion_vector(row[1]), k),
{
    lemma_readable();
    lemma_source_names(None, commit_others());
    lemma_remove_names();
    lemma_deletion_vector_names();
    let input = json_read_view(true);
    let children = remove_view();
    let dv = deletion_vector_view();
    lemma_lookup_child(input, row, 1, children, 0);
    lemma_lookup_grandchild(input, row, 1, children, 8, dv, k);
    assert(seq![REMOVE_NAME@] + key_path() =~= seq![REMOVE_NAME@, "path"@]);
    assert(seq![REMOVE_NAME@] + key_dv_path(dv[k].name) =~= seq![
        REMOVE_NAME@,
        "deletionVector"@,
        dv[k].name,
    ]);
}

/// What an add or else a remove holds at a path.
proof fn lemma_add_or_remove(engine: Engine, path: PathView, row: Row)
    ensures
        forall|t: DataTypeView| #[trigger]
            eval_expr(engine, add_or_remove(path), json_read_view(true), row, t) == or_else(
                lookup(json_read_view(true), row, seq![ADD_NAME@] + path),
                lookup(json_read_view(true), row, seq![REMOVE_NAME@] + path),
            ),
{
    assert forall|t: DataTypeView| #[trigger]
        eval_expr(engine, add_or_remove(path), json_read_view(true), row, t) == or_else(
            lookup(json_read_view(true), row, seq![ADD_NAME@] + path),
            lookup(json_read_view(true), row, seq![REMOVE_NAME@] + path),
        ) by {
        lemma_coalesce_columns(
            engine,
            seq![ADD_NAME@] + path,
            seq![REMOVE_NAME@] + path,
            json_read_view(true),
            row,
            t,
        );
    }
}

/// The identity of the file of an add or a remove, as the commit arm computes it.
pub proof fn lemma_commit_key(engine: Engine, row: Row)
    ensures
        eval_expr(
            engine,
            commit_key_expr(),
            json_read_view(true),
            row,
            file_action_key_field_view().data_type,
        ) == action_key(row[0], row[1]),
{
    lemma_readable();
    lemma_add_key_parts(None, commit_others(), row, 0);
    lemma_add_key_parts(None, commit_others(), row, 1);
    lemma_add_key_parts(None, commit_others(), row, 2);
    lemma_remove_key_parts(row, 0);
    lemma_remove_key_parts(row, 1);
    lemma_remove_key_parts(row, 2);
    lemma_add_or_remove(engine, key_path(), row);
    lemma_add_or_remove(engine, key_dv_path("storageType"@), row);
    lemma_add_or_remove(engine, key_dv_path("pathOrInlineDv"@), row);
    lemma_add_or_remove(engine, key_dv_path("offset"@), row);
    let dv = add_deletion_vector(row[0]);
    let removed = remove_deletion_vector(row[1]);
    lemma_key_expr(
        engine,
        (
            add_or_remove(key_path()),
            add_or_remove(key_dv_path("storageType"@)),
            add_or_remove(key_dv_path("pathOrInlineDv"@)),
            add_or_remove(key_dv_path("offset"@)),
        ),
        (
            or_else(path_of(row[0]), path_of(row[1])),
            or_else(member(dv, 0), member(removed, 0)),
            or_else(member(dv, 1), member(removed, 1)),
            or_else(member(dv, 2), member(removed, 2)),
        ),
        json_read_view(true),
        row,
    );
}

// --- What the arms read ---

/// Whether a row starts with an add, or null, of the given schema.
pub open spec fn add_conforms(row: Row, schema: SchemaView) -> bool {
    &&& row.len() == schema.len()
    &&& schema.len() > 0
    &&& conforms(row[0], schema[0].data_type)
}

/// Tagging a row with a version changes its version column only.
proof fn lemma_version_constant(schema: SchemaView, values: Seq<Value>, row: Row)
    requires
        row.len() == schema.len(),
    ensures
        ({
            let tagged = with_constants(schema, seq![VERSION@], values, row);
            &&& tagged.len() == schema.len()
            &&& forall|i: int|
                0 <= i < schema.len() ==> #[trigger] tagged[i] == if schema[i].name == VERSION@ {
                    values[0]
                } else {
                    row[i]
                }
        }),
{
    let names = seq![VERSION@];
    assert(names[0] == VERSION@);
    assert(names.contains(VERSION@));
}

/// The rows of files that are tagged with their versions start with an add, or null, and have a
/// version.
pub proof fn lemma_tagged_rows(
    engine: Engine,
    file_type: FileType,
    files: Seq<ScanFileView>,
    schema: SchemaView,
)
    requires
        is_sound(engine),
        schema.len() > 0,
        schema[0].name != VERSION@,
        schema[schema.len() - 1].name == VERSION@,
        forall|i: int|
            0 <= i < files.len() ==> (#[trigger] files[i]).constants.len() == 1
                && files[i].constants[0] is Long,
    ensures
        forall|i: int|
            #![trigger scan_rows(engine, file_type, files, seq![VERSION@], schema)[i]]
            0 <= i < scan_rows(engine, file_type, files, seq![VERSION@], schema).len() ==> {
                let row = scan_rows(engine, file_type, files, seq![VERSION@], schema)[i];
                add_conforms(row, schema) && row[schema.len() - 1] is Int
            },
    decreases files.len(),
{
    if files.len() > 0 {
        lemma_tagged_rows(engine, file_type, files.drop_last(), schema);
        let before = scan_rows(engine, file_type, files.drop_last(), seq![VERSION@], schema);
        let all = scan_rows(engine, file_type, files, seq![VERSION@], schema);
        let file = files.last();
        assert(file == files[files.len() - 1]);
        let held = (engine.rows)(file_type, file.meta.location, schema);
        let values = Seq::new(file.constants.len(), |i: int| scalar_value(file.constants[i]));
        assert forall|i: int| #![trigger all[i]] 0 <= i < all.len() implies add_conforms(
            all[i],
            schema,
        ) && all[i][schema.len() - 1] is Int by {
            if i < before.len() {
                assert(all[i] == before[i]);
            } else {
                let row = held[i - before.len()];
                assert(row_conforms(row, schema));
                lemma_version_constant(schema, values, row);
                assert(all[i] == with_constants(schema, seq![VERSION@], values, row));
            }
        }
    }
}

/// The rows of loaded files start with an add, or null.
proof fn lemma_loaded_rows(
    engine: Engine,
    load: LoadView,
    schema: SchemaView,
    rows: Seq<Row>,
)
    requires
        is_sound(engine),
        load.schema.len() > 0,
        load.schema[0].name != VERSION@,
        load.constants == seq![VERSION@],
    ensures
        forall|i: int|
            0 <= i < loaded_rows(engine, load, schema, rows).len() ==> add_conforms(
                #[trigger] loaded_rows(engine, load, schema, rows)[i],
                load.schema,
            ),
    decreases rows.len(),
{
    if rows.len() > 0 {
        lemma_loaded_rows(engine, load, schema, rows.drop_last());
        let before = loaded_rows(engine, load, schema, rows.drop_last());
        let all = loaded_rows(engine, load, schema, rows);
        let new = loaded_file_rows(engine, load, schema, rows.last());
        assert forall|i: int| 0 <= i < all.len() implies add_conforms(
            #[trigger] all[i],
            load.schema,
        ) by {
            if i < before.len() {
                assert(all[i] == before[i]);
            } else {
                let k = i - before.len();
                assert(all[i] == new[k]);
                let row = rows.last();
                let dv = lookup(schema, row, load.deletion_vector);
                let held = held_rows(engine, load, lookup(schema, row, load.path));
                let left = if dv == Value::Null {
                    held
                } else {
                    (engine.undeleted)(held, dv)
                };
                let values = Seq::new(
                    load.constants.len(),
                    |i: int| lookup(schema, row, seq![load.constants[i]]),
                );
                assert(held.contains(left[k]));
                let h = choose|h: int| 0 <= h < held.len() && held[h] == left[k];
                assert(row_conforms(held[h], load.schema));
                lemma_version_constant(load.schema, values, left[k]);
                assert(new[k] == with_constants(load.schema, load.constants, values, left[k]));
            }
        }
    }
}

/// Files that were tagged with their versions hold one constant each.
pub proof fn lemma_tagged_files(paths: Seq<LogPathView>)
    requires
        tag_with_versions(paths) is Ok,
    ensures
        forall|i: int|
            0 <= i < tag_with_versions(paths)->Ok_0.len() ==> {
                let file = #[trigger] tag_with_versions(paths)->Ok_0[i];
                file.constants.len() == 1 && file.constants[0] is Long
            },
{
}

/// Sidecars that were tagged with a version hold one constant each.
pub proof fn lemma_tagged_sidecars(sidecars: Seq<SidecarView>, log_root: Seq<char>, version: int)
    requires
        tag_sidecars(sidecars, log_root, version) is Ok,
    ensures
        forall|i: int|
            0 <= i < tag_sidecars(sidecars, log_root, version)->Ok_0.len() ==> {
                let file = #[trigger] tag_sidecars(sidecars, log_root, version)->Ok_0[i];
                file.constants.len() == 1 && file.constants[0] is Long
            },
    decreases sidecars.len(),
{
    if sidecars.len() > 0 {
        lemma_tagged_sidecars(sidecars.drop_last(), log_root, version);
    }
}

/// A scan of files that are tagged with their versions can be built, if the schema has a version.
pub proof fn lemma_tagged_scan(file_type: FileType, files: Seq<ScanFileView>, schema: SchemaView)
    requires
        schema.len() > 0,
        schema[schema.len() - 1].name == VERSION@,
        forall|i: int| 0 <= i < files.len() ==> (#[trigger] files[i]).constants.len() == 1,
    ensures
        RelationView::scan(file_type, files, seq![VERSION@], schema) is Ok,
        ({
            let scanned = RelationView::scan(file_type, files, seq![VERSION@], schema)->Ok_0;
            &&& scanned.wf()
            &&& scanned.schema == schema
            &&& scanned.plan is None <==> files.len() == 0
            &&& forall|engine: Engine| #[trigger]
                rows_of(engine, scanned) == scan_rows(
                    engine,
                    file_type,
                    files,
                    seq![VERSION@],
                    schema,
                )
        }),
{
    lemma_has_field(schema, VERSION@, schema.len() - 1);
    assert(all_named(schema, seq![VERSION@]));
}

// --- The commit arm ---

/// The rows of the commits of a scan's log, as they are read.
pub open spec fn commit_log(engine: Engine, scan: ScanView) -> Seq<Row> {
    scan_rows(
        engine,
        FileType::Json,
        tag_with_versions(scan.segment.commit_cover)->Ok_0,
        seq![VERSION@],
        json_read_view(true),
    )
}

/// The actions on files that the commits hold: a row for each add or remove.
pub open spec fn commit_actions(engine: Engine, scan: ScanView) -> Seq<Row> {
    commit_log(engine, scan).filter(
        |row: Row| path_of(row[0]) != Value::Null || path_of(row[1]) != Value::Null,
    ).map_values(|row: Row| arm_row(engine, scan, None, row, action_key(row[0], row[1])))
}

/// The schema of the commit arm: the normalized add, the remove, the version, whether the row is
/// an add, and the identity of the file.
pub open spec fn commit_schema(scan: ScanView) -> SchemaView {
    seq![
        normalized_add_view(scan),
        remove_field_view(),
        version_field_view(),
        is_add_field_view(),
        file_action_key_field_view(),
    ]
}

/// The commit arm yields one row for each add or remove of the commits: the add with its statistics
/// parsed from their JSON text and its partition values turned into a struct, as far as a schema
/// asks for them; the remove; the version of the commit; whether the row is an add; and the
/// identity of its file. It can be built exactly if all versions fit the version column.
pub proof fn law_commit_arm(engine: Engine, scan: ScanView)
    requires
        is_sound(engine),
    ensures
        match (commit_relation(scan), tag_with_versions(scan.segment.commit_cover)) {
            (Ok(commits), Ok(files)) => {
                &&& commits.wf()
                &&& commits.schema == commit_schema(scan)
                &&& commits.plan is None <==> files.len() == 0
                &&& rows_of(engine, commits) == commit_actions(engine, scan)
            },
            (Err(e), Err(f)) => e == f,
            _ => false,
        },
{
    lemma_readable();
    let others = commit_others();
    let input = json_read_view(true);
    assert(arm_schema(scan, None, others) =~= commit_schema(scan));
    if let Ok(files) = tag_with_versions(scan.segment.commit_cover) {
        lemma_tagged_files(scan.segment.commit_cover);
        lemma_tagged_scan(FileType::Json, files, input);
        lemma_column_names();
        lemma_tagged_rows(engine, FileType::Json, files, input);
        let actions = RelationView::scan(FileType::Json, files, seq![VERSION@], input)->Ok_0;
        let log = commit_log(engine, scan);
        lemma_filter(engine, actions, has_file_action());
        let kept = actions.filter(has_file_action());
        let by_plan = |row: Row| holds(engine, has_file_action(), input, row);
        let by_path = |row: Row| path_of(row[0]) != Value::Null || path_of(row[1]) != Value::Null;
        assert forall|i: int| 0 <= i < log.len() implies by_plan(#[trigger] log[i]) == by_path(
            log[i],
        ) by {
            lemma_has_file_action(engine, log[i]);
        }
        lemma_filter_same(log, by_plan, by_path);
        lemma_arm_slots(scan, None, others, commit_key_expr());
        let patch = arm_patch(scan, input, commit_key_expr());
        lemma_project(engine, kept, patch.expr(), patch.schema());
        let rows = log.filter(by_path);
        let projected = rows.map_values(
            |row: Row| project_row(engine, patch.expr(), input, row, patch.schema()),
        );
        let expected = commit_actions(engine, scan);
        assert forall|i: int| 0 <= i < rows.len() implies #[trigger] projected[i]
            == expected[i] by {
            lemma_filter_from(log, by_path, i);
            let row = rows[i];
            lemma_commit_key(engine, row);
            lemma_conforming_add(None, row[0]);
            lemma_arm_row(
                engine,
                scan,
                None,
                others,
                commit_key_expr(),
                row,
                action_key(row[0], row[1]),
            );
        }
        assert(projected =~= expected);
    }
}

/// When the commit arm can be built, and its schema.
pub proof fn lemma_commit_outcome(scan: ScanView)
    ensures
        match (commit_relation(scan), tag_with_versions(scan.segment.commit_cover)) {
            (Ok(commits), Ok(_)) => commits.schema == commit_schema(scan),
            (Err(e), Err(f)) => e == f,
            _ => false,
        },
{
    assert(is_sound(empty_engine()));
    law_commit_arm(empty_engine(), scan);
}

/// An add that conforms to its type is null or a struct of the right number of children.
pub proof fn lemma_conforming_add(source: Option<SchemaView>, add: Value)
    requires
        conforms(add, add_with_parsed(source, None).data_type),
    ensures
        fits(add, source_children(source)),
        add is Null || add is Record,
{
}

/// A row of the commits holds an add or a remove where one of them has a path.
proof fn lemma_has_file_action(engine: Engine, row: Row)
    ensures
        holds(engine, has_file_action(), json_read_view(true), row) <==> path_of(row[0])
            != Value::Null || path_of(row[1]) != Value::Null,
{
    lemma_readable();
    let input = json_read_view(true);
    let add = add_col("path"@);
    let remove = ExprView::Column(seq![REMOVE_NAME@, "path"@]);
    lemma_add_key_parts(None, commit_others(), row, 0);
    lemma_remove_key_parts(row, 0);
    assert(seq![ADD_NAME@] + key_path() =~= seq![ADD_NAME@, "path"@]);
    assert(seq![REMOVE_NAME@] + key_path() =~= seq![REMOVE_NAME@, "path"@]);
    lemma_is_not_null(engine, add, input, row, boolean_type());
    lemma_is_not_null(engine, remove, input, row, boolean_type());
    lemma_or(engine, has_add(), remove.is_not_null(), input, row);
}

/// What the rows of the commit arm look like.
pub proof fn lemma_commit_action(engine: Engine, scan: ScanView, i: int)
    requires
        is_sound(engine),
        tag_with_versions(scan.segment.commit_cover) is Ok,
        0 <= i < commit_actions(engine, scan).len(),
    ensures
        ({
            let row = commit_actions(engine, scan)[i];
            &&& row.len() == 5
            &&& row[0] is Null || row[0] is Record
            &&& row[2] is Int
            &&& row[4] is Record
        }),
{
    let files = tag_with_versions(scan.segment.commit_cover)->Ok_0;
    let log = commit_log(engine, scan);
    let by_path = |row: Row| path_of(row[0]) != Value::Null || path_of(row[1]) != Value::Null;
    lemma_tagged_files(scan.segment.commit_cover);
    lemma_column_names();
    lemma_tagged_rows(engine, FileType::Json, files, json_read_view(true));
    lemma_filter_from(log, by_path, i);
}

// --- The checkpoint arm ---

/// The schema of the parsed statistics that the checkpoint arm reads, if it reads any. Neither a
/// JSON leaf nor an absent checkpoint has some.
pub open spec fn checkpoint_source(scan: ScanView, shape: ShapeView) -> Option<SchemaView> {
    if scan.segment.checkpoint_parts.len() == 0 {
        None
    } else {
        match shape.checkpoint_type {
            CheckpointType::Absent => None,
            CheckpointType::Leaf => if scan.segment.checkpoint_parts[0].file_type()
                == FileType::Parquet {
                shape.parsed_stats_schema
            } else {
                None
            },
            CheckpointType::Manifest => shape.parsed_stats_schema,
        }
    }
}

/// Why the actions of a checkpoint cannot be read, if so: a version does not fit the version
/// column, a sidecar that the hint lists is no file, or the sidecar directory has no location.
pub open spec fn checkpoint_error(scan: ScanView, shape: ShapeView) -> Option<Error> {
    match scan.segment.tagged_checkpoint() {
        Err(e) => Some(e),
        Ok(None) => None,
        Ok(Some(_)) => if shape.checkpoint_type == CheckpointType::Manifest {
            match scan.segment.tagged_hint_sidecars() {
                Err(e) => Some(e),
                Ok(Some(_)) => None,
                Ok(None) => if url_join(scan.segment.log_root, SIDECAR_DIRECTORY@) is None {
                    Some(Error::InvalidUrl)
                } else {
                    None
                },
            }
        } else {
            None
        },
    }
}

/// How many files the actions of a checkpoint are read from, without the sidecars that a manifest
/// names: none only if there is nothing to read.
pub open spec fn checkpoint_file_count(scan: ScanView, shape: ShapeView) -> nat {
    if scan.segment.checkpoint_parts.len() == 0 || shape.checkpoint_type
        == CheckpointType::Absent {
        0
    } else if shape.checkpoint_type == CheckpointType::Manifest
        && scan.segment.checkpoint_sidecars is Some {
        scan.segment.checkpoint_sidecars->0.len()
    } else {
        scan.segment.checkpoint_parts.len()
    }
}

/// The sidecars that a manifest names can be loaded if their directory has a location.
proof fn lemma_manifest_relation(
    engine: Engine,
    file_type: FileType,
    parts: Seq<ScanFileView>,
    source: Option<SchemaView>,
    log_root: Seq<char>,
)
    requires
        is_sound(engine),
        forall|i: int| 0 <= i < parts.len() ==> (#[trigger] parts[i]).constants.len() == 1,
    ensures
        ({
            let schema = parquet_read_view(source, None);
            match (
                manifest_relation(file_type, parts, schema, log_root),
                url_join(log_root, SIDECAR_DIRECTORY@),
            ) {
                (Ok(loaded), Some(_)) => {
                    &&& loaded.wf()
                    &&& loaded.schema == schema
                    &&& loaded.plan is None <==> parts.len() == 0
                    &&& forall|i: int|
                        0 <= i < rows_of(engine, loaded).len() ==> add_conforms(
                            #[trigger] rows_of(engine, loaded)[i],
                            schema,
                        )
                },
                (Err(e), None) => e == Error::InvalidUrl,
                _ => false,
            }
        }),
{
    let schema = parquet_read_view(source, None);
    lemma_has_field(schema, VERSION@, 1);
    law_manifest_rows(engine, file_type, parts, schema, log_root);
    if let Some(directory) = url_join(log_root, SIDECAR_DIRECTORY@) {
        lemma_column_names();
        lemma_loaded_rows(
            engine,
            sidecar_load(schema, directory),
            sidecar_file_meta_view(),
            sidecar_rows(engine, file_type, parts).map_values(|row: Row| named_file(row)),
        );
    }
}

/// The actions of a checkpoint are read in the schema that the arm expects, or fail to be for the
/// reasons given.
pub proof fn lemma_checkpoint_actions(engine: Engine, scan: ScanView, shape: ShapeView)
    requires
        is_sound(engine),
    ensures
        match (checkpoint_actions(scan, shape), checkpoint_error(scan, shape)) {
            (Ok(actions), None) => {
                let schema = source_schema(checkpoint_source(scan, shape), checkpoint_others());
                &&& actions.wf()
                &&& actions.schema == schema
                &&& actions.plan is None <==> checkpoint_file_count(scan, shape) == 0
                &&& forall|i: int|
                    0 <= i < rows_of(engine, actions).len() ==> add_conforms(
                        #[trigger] rows_of(engine, actions)[i],
                        schema,
                    )
            },
            (Err(e), Some(f)) => e == f,
            _ => false,
        },
{
    lemma_readable();
    lemma_column_names();
    let source = checkpoint_source(scan, shape);
    let schema = source_schema(source, checkpoint_others());
    let read_view = parquet_read_view(shape.parsed_stats_schema, None);
    assert(read_view == source_schema(shape.parsed_stats_schema, checkpoint_others()));
    match scan.segment.tagged_checkpoint() {
        Ok(Some((file_type, parts))) => {
            lemma_tagged_files(scan.segment.checkpoint_parts);
            match shape.checkpoint_type {
                CheckpointType::Leaf => {
                    lemma_tagged_scan(file_type, parts, schema);
                    lemma_tagged_rows(engine, file_type, parts, schema);
                },
                CheckpointType::Manifest => match scan.segment.tagged_hint_sidecars() {
                    Ok(Some(sidecars)) => {
                        let version = scan.segment.checkpoint_parts[0].version;
                        let hint = scan.segment.checkpoint_sidecars->0;
                        lemma_tagged_sidecars(hint, scan.segment.log_root, version);
                        lemma_tag_sidecars_len(hint, scan.segment.log_root, version);
                        lemma_tagged_scan(FileType::Parquet, sidecars, schema);
                        lemma_tagged_rows(engine, FileType::Parquet, sidecars, schema);
                    },
                    Ok(None) => {
                        lemma_manifest_relation(
                            engine,
                            file_type,
                            parts,
                            shape.parsed_stats_schema,
                            scan.segment.log_root,
                        );
                    },
                    Err(_) => {},
                },
                CheckpointType::Absent => {},
            }
        },
        _ => {},
    }
}

/// Each sidecar is one file.
proof fn lemma_tag_sidecars_len(sidecars: Seq<SidecarView>, log_root: Seq<char>, version: int)
    requires
        tag_sidecars(sidecars, log_root, version) is Ok,
    ensures
        tag_sidecars(sidecars, log_root, version)->Ok_0.len() == sidecars.len(),
    decreases sidecars.len(),
{
    if sidecars.len() > 0 {
        lemma_tag_sidecars_len(sidecars.drop_last(), log_root, version);
    }
}

/// The rows of the checkpoint of a scan's log, as they are read.
pub open spec fn checkpoint_log(engine: Engine, scan: ScanView, shape: ShapeView) -> Seq<Row> {
    rows_of(engine, checkpoint_actions(scan, shape)->Ok_0)
}

/// The adds that the checkpoint holds, a row for each.
pub open spec fn checkpoint_adds(engine: Engine, scan: ScanView, shape: ShapeView) -> Seq<Row> {
    checkpoint_log(engine, scan, shape).filter(
        |row: Row| path_of(row[0]) != Value::Null,
    ).map_values(
        |row: Row|
            arm_row(engine, scan, checkpoint_source(scan, shape), row, add_key(row[0])),
    )
}

/// The schema of the checkpoint arm: the add, the version, whether the row is an add, and the
/// identity of the file.
pub open spec fn checkpoint_schema(scan: ScanView, shape: ShapeView) -> SchemaView {
    seq![
        add_with_parsed(
            arm_stats(scan, checkpoint_source(scan, shape)),
            scan.partition_schema,
        ),
        version_field_view(),
        is_add_field_view(),
        file_action_key_field_view(),
    ]
}

/// What the rows of the checkpoint arm look like.
pub proof fn lemma_checkpoint_add(engine: Engine, scan: ScanView, shape: ShapeView, i: int)
    requires
        is_sound(engine),
        checkpoint_actions(scan, shape) is Ok,
        0 <= i < checkpoint_adds(engine, scan, shape).len(),
    ensures
        ({
            let row = checkpoint_adds(engine, scan, shape)[i];
            &&& row.len() == 4
            &&& row[0] is Record
            &&& row[3] is Record
        }),
{
    let log = checkpoint_log(engine, scan, shape);
    lemma_checkpoint_actions(engine, scan, shape);
    lemma_filter_from(log, |row: Row| path_of(row[0]) != Value::Null, i);
}

/// A row of a checkpoint holds an add where that has a path.
proof fn lemma_has_add(engine: Engine, source: Option<SchemaView>, row: Row)
    ensures
        holds(engine, has_add(), source_schema(source, checkpoint_others()), row) <==> path_of(
            row[0],
        ) != Value::Null,
{
    lemma_readable();
    let input = source_schema(source, checkpoint_others());
    lemma_add_key_parts(source, checkpoint_others(), row, 0);
    assert(seq![ADD_NAME@] + key_path() =~= seq![ADD_NAME@, "path"@]);
    lemma_is_not_null(engine, add_col("path"@), input, row, boolean_type());
}

/// The checkpoint arm yields one row for each add of the checkpoint: the add, with the parsed
/// statistics that it has or else those that their JSON text gives, and its partition values turned
/// into a struct, each if the scan has a schema for it and left out otherwise; its version; whether
/// the row is an add; and the identity of its file. It can be built exactly if the actions can be
/// read.
pub proof fn law_checkpoint_arm(engine: Engine, scan: ScanView, shape: ShapeView)
    requires
        is_sound(engine),
    ensures
        match (checkpoint_relation(scan, shape), checkpoint_error(scan, shape)) {
            (Ok(checkpoint), None) => {
                &&& checkpoint.wf()
                &&& checkpoint.schema == checkpoint_schema(scan, shape)
                &&& checkpoint.plan is None <==> checkpoint_file_count(scan, shape) == 0
                &&& rows_of(engine, checkpoint) == checkpoint_adds(engine, scan, shape)
            },
            (Err(e), Some(f)) => e == f,
            _ => false,
        },
{
    lemma_readable();
    lemma_checkpoint_actions(engine, scan, shape);
    let others = checkpoint_others();
    let source = checkpoint_source(scan, shape);
    let input = source_schema(source, others);
    assert(arm_schema(scan, source, others) =~= checkpoint_schema(scan, shape));
    if let Ok(actions) = checkpoint_actions(scan, shape) {
        let log = checkpoint_log(engine, scan, shape);
        lemma_filter(engine, actions, has_add());
        let kept = actions.filter(has_add());
        let by_plan = |row: Row| holds(engine, has_add(), input, row);
        let by_path = |row: Row| path_of(row[0]) != Value::Null;
        assert forall|i: int| 0 <= i < log.len() implies by_plan(#[trigger] log[i]) == by_path(
            log[i],
        ) by {
            lemma_has_add(engine, source, log[i]);
        }
        lemma_filter_same(log, by_plan, by_path);
        lemma_arm_slots(scan, source, others, checkpoint_key_expr());
        let patch = arm_patch(scan, input, checkpoint_key_expr());
        lemma_project(engine, kept, patch.expr(), patch.schema());
        let rows = log.filter(by_path);
        let projected = rows.map_values(
            |row: Row| project_row(engine, patch.expr(), input, row, patch.schema()),
        );
        let expected = checkpoint_adds(engine, scan, shape);
        assert forall|i: int| 0 <= i < rows.len() implies #[trigger] projected[i]
            == expected[i] by {
            lemma_filter_from(log, by_path, i);
            let row = rows[i];
            lemma_checkpoint_key(engine, source, others, row);
            lemma_conforming_add(source, row[0]);
            lemma_arm_row(
                engine,
                scan,
                source,
                others,
                checkpoint_key_expr(),
                row,
                add_key(row[0]),
            );
        }
        assert(projected =~= expected);
    }
}

/// When the checkpoint arm can be built, and its schema.
pub proof fn lemma_checkpoint_outcome(scan: ScanView, shape: ShapeView)
    ensures
        match (checkpoint_relation(scan, shape), checkpoint_error(scan, shape)) {
            (Ok(checkpoint), None) => {
                let add = checkpoint.schema[0].data_type->Struct_0;
                &&& checkpoint.schema == checkpoint_schema(scan, shape)
                &&& has_field(add, STATS_PARSED@) <==> scan.stats_schema is Some
                &&& has_field(add, PARTITION_VALUES_PARSED@) <==> scan.partition_schema is Some
            },
            (Err(e), Some(f)) => e == f,
            _ => false,
        },
{
    assert(is_sound(empty_engine()));
    law_checkpoint_arm(empty_engine(), scan, shape);
    lemma_parsed_children(
        arm_stats(scan, checkpoint_source(scan, shape)),
        scan.partition_schema,
    );
}

} // verus!
