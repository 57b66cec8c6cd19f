//! What of an add a metadata scan plan returns.

use vstd::prelude::*;

use crate::actions::{ADD_NAME, PARTITION_VALUES_PARSED, STATS_PARSED};
use crate::error::Error;
use crate::expressions::{ExprView, PathView};
use crate::scan_plan::{
    extracted_add_view, lemma_add_names_distinct, lemma_normalized_children, lemma_resolve_first,
    narrowed_expr, normalized_add_view, output_expr, output_partitions, output_patch, output_schema,
    parsed_fields, ScanView, STATS,
};
use crate::schema::{
    boolean_type, distinct_names, field_pos, has_field, lemma_distinct_field_pos, nullable_field,
    resolve, DataTypeView, SchemaView,
};
use crate::semantics::{
    child_type, conforms, eval_expr, eval_exprs, lemma_is_not_null, lookup, member, project_row,
    Engine, Row, Value,
};
use crate::struct_patch::{
    drop_slot, kept_slots, replace_slot, slot_exprs, slot_fields, PatchView, SlotView,
};

verus! {

// --- Schema ---

/// The children of adds that a scan returns beside the parsed columns: all, but for the JSON
/// statistics unless those are requested.
pub open spec fn returned_base(scan: ScanView) -> SchemaView {
    if scan.synthesize_json {
        extracted_add_view()
    } else {
        extracted_add_view().remove(5)
    }
}

/// The children of adds that a scan returns: the parsed statistics and the parsed partition values
/// if they are requested, each in the schema in which it is.
pub open spec fn returned_children(scan: ScanView) -> SchemaView {
    returned_base(scan) + parsed_fields(scan.stats_output_schema, output_partitions(scan))
}

/// The columns of the output projection.
pub open spec fn returned_slots(scan: ScanView) -> Seq<SlotView> {
    kept_slots(seq![ADD_NAME@], returned_base(scan)) + (match scan.stats_output_schema {
        Some(schema) => seq![
            SlotView {
                field: nullable_field(STATS_PARSED@, DataTypeView::Struct(schema)),
                expr: narrowed_expr(seq![ADD_NAME@, STATS_PARSED@], schema),
            },
        ],
        None => seq![],
    }) + (match output_partitions(scan) {
        Some(schema) => seq![
            SlotView {
                field: nullable_field(PARTITION_VALUES_PARSED@, DataTypeView::Struct(schema)),
                expr: narrowed_expr(seq![ADD_NAME@, PARTITION_VALUES_PARSED@], schema),
            },
        ],
        None => seq![],
    })
}

/// Whether what a scan is to return can be computed: parsed statistics are requested only if the
/// scan parses statistics.
pub open spec fn can_return(scan: ScanView) -> bool {
    scan.stats_output_schema is Some ==> scan.stats_schema is Some
}

/// Columns of distinct names are replaced and dropped where they stand.
proof fn lemma_edit_at(slots: Seq<SlotView>, i: int, slot: SlotView)
    requires
        distinct_names(slot_fields(slots)),
        0 <= i < slots.len(),
    ensures
        replace_slot(slots, slots[i].field.name, slot) == Ok::<Seq<SlotView>, Error>(
            slots.update(i, slot),
        ),
        drop_slot(slots, slots[i].field.name) == Ok::<Seq<SlotView>, Error>(slots.remove(i)),
        slot.field.name == slots[i].field.name ==> distinct_names(
            slot_fields(slots.update(i, slot)),
        ),
        distinct_names(slot_fields(slots.remove(i))),
{
    let fields = slot_fields(slots);
    assert(fields[i] == slots[i].field);
    lemma_distinct_field_pos(fields, i);
    let left = slot_fields(slots.remove(i));
    assert forall|a: int, b: int| 0 <= a < b < left.len() implies (#[trigger] left[a]).name != (
    #[trigger] left[b]).name by {
        let a0 = if a < i {
            a
        } else {
            a + 1
        };
        let b0 = if b < i {
            b
        } else {
            b + 1
        };
        assert(left[a] == fields[a0]);
        assert(left[b] == fields[b0]);
    }
    let updated = slot_fields(slots.update(i, slot));
    if slot.field.name == slots[i].field.name {
        assert forall|a: int, b: int| 0 <= a < b < updated.len() implies (
        #[trigger] updated[a]).name != (#[trigger] updated[b]).name by {
            assert(updated[a].name == fields[a].name);
            assert(updated[b].name == fields[b].name);
        }
    }
}

/// The columns of the output projection of the normalized adds.
pub proof fn lemma_returned_slots(scan: ScanView)
    ensures
        ({
            let patch = output_patch(scan, normalized_add_view(scan));
            &&& patch.root == seq![ADD_NAME@]
            &&& patch.slots == if can_return(scan) {
                Ok(returned_slots(scan))
            } else {
                Err(Error::UnknownColumn)
            }
        }),
{
    let add_field = normalized_add_view(scan);
    let input = seq![add_field];
    let base = extracted_add_view();
    let parsed = parsed_fields(scan.stats_schema, scan.partition_schema);
    let children = base + parsed;
    lemma_normalized_children(scan);
    lemma_add_names_distinct(scan.stats_schema, scan.partition_schema);
    lemma_resolve_first(input, children, STATS@);
    let start = PatchView::start(input, seq![ADD_NAME@]);
    let all = kept_slots(seq![ADD_NAME@], children);
    assert(start.slots == Ok::<Seq<SlotView>, Error>(all));
    assert(slot_fields(all) =~= children);
    assert(all[5].field.name == STATS@);

    // The JSON statistics.
    lemma_edit_at(all, 5, arbitrary());
    let json = if scan.synthesize_json {
        all
    } else {
        all.remove(5)
    };
    let n = returned_base(scan).len() as int;
    assert(json =~= kept_slots(seq![ADD_NAME@], returned_base(scan) + parsed));
    assert(distinct_names(slot_fields(json)));
    assert(slot_fields(json) =~= returned_base(scan) + parsed);

    // The parsed statistics.
    let stats_slot = SlotView {
        field: nullable_field(
            STATS_PARSED@,
            DataTypeView::Struct(scan.stats_output_schema->0),
        ),
        expr: narrowed_expr(seq![ADD_NAME@, STATS_PARSED@], scan.stats_output_schema->0),
    };
    let wanted_stats = if scan.stats_output_schema is Some {
        seq![stats_slot]
    } else {
        seq![]
    };
    if scan.stats_schema is Some {
        assert(json[n].field.name == STATS_PARSED@);
        lemma_edit_at(json, n, stats_slot);
    } else {
        lemma_no_stats(scan);
    }
    if can_return(scan) {
        let rest = kept_slots(
            seq![ADD_NAME@],
            parsed_fields(None, scan.partition_schema),
        );
        let stats = if scan.stats_schema is None {
            json
        } else if scan.stats_output_schema is Some {
            json.update(n, stats_slot)
        } else {
            json.remove(n)
        };
        let head = kept_slots(seq![ADD_NAME@], returned_base(scan)) + wanted_stats;
        assert(stats =~= head + rest);

        // The parsed partition values.
        let m = head.len() as int;
        if let Some(schema) = scan.partition_schema {
            let slot = SlotView {
                field: nullable_field(PARTITION_VALUES_PARSED@, DataTypeView::Struct(schema)),
                expr: narrowed_expr(seq![ADD_NAME@, PARTITION_VALUES_PARSED@], schema),
            };
            assert(stats[m].field.name == PARTITION_VALUES_PARSED@);
            lemma_edit_at(stats, m, slot);
            if scan.parsed_partition_values {
                assert(stats.update(m, slot) =~= returned_slots(scan));
            } else {
                assert(stats.remove(m) =~= returned_slots(scan));
            }
        } else {
            assert(stats =~= returned_slots(scan));
        }
    }
}

/// Without a schema of statistics, no column to return is named like them.
proof fn lemma_no_stats(scan: ScanView)
    requires
        scan.stats_schema is None,
    ensures
        !has_field(
            returned_base(scan) + parsed_fields(scan.stats_schema, scan.partition_schema),
            STATS_PARSED@,
        ),
{
    let name = STATS_PARSED@;
    let parsed = parsed_fields(None, scan.partition_schema);
    let full = extracted_add_view() + parsed_fields(Some(seq![]), scan.partition_schema);
    lemma_add_names_distinct(Some(seq![]), scan.partition_schema);
    let left = returned_base(scan) + parsed;
    if has_field(left, name) {
        let k = field_pos(left, name);
        assert(left[k].name == name);
        assert(full[11].name == name);
        let n = returned_base(scan).len();
        if k < n {
            if scan.synthesize_json || k < 5 {
                assert(full[k] == left[k]);
            } else {
                assert(full[k + 1] == left[k]);
            }
        } else {
            assert(full[12] == left[k]);
        }
    }
}

/// The output of a scan is one column of adds. They hold the children of an add in their order,
/// without the JSON statistics unless those are requested, then the parsed statistics and the
/// parsed partition values, each if and only if it is requested, in the requested schema. Nothing
/// that only pruning needs is returned.
pub proof fn law_output_schema(scan: ScanView)
    ensures
        ({
            let patch = output_patch(scan, normalized_add_view(scan));
            &&& patch.slots is Ok <==> can_return(scan)
            &&& can_return(scan) ==> output_schema(patch) == seq![
                nullable_field(ADD_NAME@, DataTypeView::Struct(returned_children(scan))),
            ]
            &&& !can_return(scan) ==> patch.slots == Err::<Seq<SlotView>, Error>(
                Error::UnknownColumn,
            )
        }),
{
    lemma_returned_slots(scan);
    assert(slot_fields(returned_slots(scan)) =~= returned_children(scan));
}

// --- Narrowed structs ---

/// The struct at a path with the fields of a schema and no others: null where the struct is null,
/// and null in a field that the struct does not have.
pub open spec fn narrowed_value(
    schema: SchemaView,
    row: Row,
    root: PathView,
    wanted: SchemaView,
) -> Value
    decreases wanted,
{
    if lookup(schema, row, root) == Value::Null {
        Value::Null
    } else {
        Value::Record(
            Seq::new(
                wanted.len(),
                |i: int|
                    if 0 <= i < wanted.len() {
                        match wanted[i].data_type {
                            DataTypeView::Struct(children) => narrowed_value(
                                schema,
                                row,
                                root.push(wanted[i].name),
                                children,
                            ),
                            _ => lookup(schema, row, root.push(wanted[i].name)),
                        }
                    } else {
                        arbitrary()
                    },
            ),
        )
    }
}

/// A struct rebuilt to match a narrowed schema holds the requested fields and no others, and is
/// null where the struct was.
pub proof fn law_narrowing(
    engine: Engine,
    schema: SchemaView,
    row: Row,
    root: PathView,
    wanted: SchemaView,
    target: DataTypeView,
)
    ensures
        eval_expr(engine, narrowed_expr(root, wanted), schema, row, target) == narrowed_value(
            schema,
            row,
            root,
            wanted,
        ),
    decreases wanted,
{
    let whole = ExprView::Column(root);
    lemma_is_not_null(engine, whole, schema, row, boolean_type());
    let es = narrowed_expr(root, wanted)->Struct_0;
    let got = eval_exprs(engine, es, schema, row, target);
    if lookup(schema, row, root) != Value::Null {
        let expected = narrowed_value(schema, row, root, wanted)->Record_0;
        assert(got.len() == expected.len());
        assert forall|i: int| 0 <= i < got.len() implies got[i] == expected[i] by {
            let t = child_type(target, i);
            assert(got[i] == eval_expr(engine, es[i], schema, row, t));
            let column = root.push(wanted[i].name);
            match wanted[i].data_type {
                DataTypeView::Struct(children) => {
                    assert(decreases_to!(wanted => wanted[i]));
                    law_narrowing(engine, schema, row, column, children, t);
                },
                _ => {
                    assert(es[i] == ExprView::Column(column));
                },
            }
        }
        assert(got =~= expected);
    }
}

/// Whether no two fields share a name, at any depth.
pub open spec fn names_unique(schema: SchemaView) -> bool
    decreases schema,
{
    &&& distinct_names(schema)
    &&& forall|i: int|
        0 <= i < schema.len() ==> match (#[trigger] schema[i]).data_type {
            DataTypeView::Struct(children) => names_unique(children),
            _ => true,
        }
}

/// A child of the struct at a path is found where it stands.
pub proof fn lemma_lookup_push(
    schema: SchemaView,
    row: Row,
    root: PathView,
    children: SchemaView,
    i: int,
)
    requires
        resolve(schema, root) matches Some(field) && field.data_type == DataTypeView::Struct(
            children,
        ),
        distinct_names(children),
        0 <= i < children.len(),
    ensures
        lookup(schema, row, root.push(children[i].name)) == member(lookup(schema, row, root), i),
        resolve(schema, root.push(children[i].name)) == Some(children[i]),
    decreases root.len(),
{
    let name = children[i].name;
    let path = root.push(name);
    let p = field_pos(schema, root[0]);
    assert(path[0] == root[0]);
    if root.len() == 1 {
        assert(path.drop_first() =~= seq![name]);
        lemma_distinct_field_pos(children, i);
        assert(resolve(children, seq![name]) == Some(children[i]));
        if let Value::Record(values) = row[p] {
            assert(lookup(children, values, seq![name]) == values[i]);
        }
    } else {
        assert(path.drop_first() =~= root.drop_first().push(name));
        if let DataTypeView::Struct(inner) = schema[p].data_type {
            let values = match row[p] {
                Value::Record(values) => values,
                _ => arbitrary(),
            };
            lemma_lookup_push(inner, values, root.drop_first(), children, i);
        }
    }
}

/// Narrowing a struct to its own schema changes nothing.
pub proof fn law_narrowing_to_all_fields(
    schema: SchemaView,
    row: Row,
    root: PathView,
    children: SchemaView,
)
    requires
        resolve(schema, root) matches Some(field) && field.data_type == DataTypeView::Struct(
            children,
        ),
        names_unique(children),
        conforms(lookup(schema, row, root), DataTypeView::Struct(children)),
    ensures
        narrowed_value(schema, row, root, children) == lookup(schema, row, root),
    decreases children,
{
    if let Value::Record(values) = lookup(schema, row, root) {
        let got = narrowed_value(schema, row, root, children)->Record_0;
        assert forall|i: int| 0 <= i < got.len() implies got[i] == values[i] by {
            lemma_lookup_push(schema, row, root, children, i);
            assert(conforms(values[i], children[i].data_type));
            if let DataTypeView::Struct(inner) = children[i].data_type {
                assert(decreases_to!(children => children[i]));
                law_narrowing_to_all_fields(schema, row, root.push(children[i].name), inner);
            }
        }
        assert(got =~= values);
    }
}

// --- Values ---

/// What a scan returns of an add whose children are the given ones. A null stays null.
pub open spec fn returned_add(scan: ScanView, children: SchemaView, add: Value) -> Value {
    let schema = seq![nullable_field(ADD_NAME@, DataTypeView::Struct(children))];
    let row = seq![add];
    if add is Record {
        Value::Record(
            Seq::new(
                returned_base(scan).len(),
                |i: int| lookup(schema, row, seq![ADD_NAME@, returned_base(scan)[i].name]),
            ) + (match scan.stats_output_schema {
                Some(wanted) => seq![
                    narrowed_value(schema, row, seq![ADD_NAME@, STATS_PARSED@], wanted),
                ],
                None => seq![],
            }) + (match output_partitions(scan) {
                Some(wanted) => seq![
                    narrowed_value(schema, row, seq![ADD_NAME@, PARTITION_VALUES_PARSED@], wanted),
                ],
                None => seq![],
            }),
        )
    } else {
        Value::Null
    }
}

/// Whether two rows agree on a column.
pub open spec fn agree_on(
    schema: SchemaView,
    row: Row,
    other_schema: SchemaView,
    other: Row,
    name: Seq<char>,
) -> bool {
    let p = field_pos(schema, name);
    let q = field_pos(other_schema, name);
    &&& has_field(schema, name)
    &&& has_field(other_schema, name)
    &&& schema[p].data_type == other_schema[q].data_type
    &&& row[p] == other[q]
}

/// What lies below a column on which two rows agree is the same in both.
pub proof fn lemma_agree(
    schema: SchemaView,
    row: Row,
    other_schema: SchemaView,
    other: Row,
    path: PathView,
)
    requires
        path.len() > 0,
        agree_on(schema, row, other_schema, other, path[0]),
    ensures
        lookup(schema, row, path) == lookup(other_schema, other, path),
{
}

/// A struct below a column on which two rows agree is narrowed to the same in both.
proof fn lemma_agree_narrowed(
    schema: SchemaView,
    row: Row,
    other_schema: SchemaView,
    other: Row,
    root: PathView,
    wanted: SchemaView,
)
    requires
        root.len() > 0,
        agree_on(schema, row, other_schema, other, root[0]),
    ensures
        narrowed_value(schema, row, root, wanted) == narrowed_value(
            other_schema,
            other,
            root,
            wanted,
        ),
    decreases wanted,
{
    lemma_agree(schema, row, other_schema, other, root);
    if lookup(schema, row, root) != Value::Null {
        let a = narrowed_value(schema, row, root, wanted)->Record_0;
        let b = narrowed_value(other_schema, other, root, wanted)->Record_0;
        assert forall|i: int| 0 <= i < a.len() implies a[i] == b[i] by {
            let column = root.push(wanted[i].name);
            assert(column[0] == root[0]);
            match wanted[i].data_type {
                DataTypeView::Struct(children) => {
                    assert(decreases_to!(wanted => wanted[i]));
                    lemma_agree_narrowed(schema, row, other_schema, other, column, children);
                },
                _ => {
                    lemma_agree(schema, row, other_schema, other, column);
                },
            }
        }
        assert(a =~= b);
    }
}

/// The row that a scan returns for a row with an add.
pub proof fn lemma_returned_row(
    engine: Engine,
    scan: ScanView,
    schema: SchemaView,
    row: Row,
    p: int,
    children: SchemaView,
)
    requires
        can_return(scan),
        distinct_names(schema),
        0 <= p < schema.len(),
        schema[p].name == ADD_NAME@,
        schema[p].data_type == DataTypeView::Struct(children),
        row[p] is Null || row[p] is Record,
    ensures
        ({
            let patch = output_patch(scan, normalized_add_view(scan));
            project_row(engine, output_expr(patch), schema, row, output_schema(patch)) == seq![
                returned_add(scan, children, row[p]),
            ]
        }),
{
    let patch = output_patch(scan, normalized_add_view(scan));
    lemma_returned_slots(scan);
    let slots = returned_slots(scan);
    let es = slot_exprs(slots);
    let whole = ExprView::Column(seq![ADD_NAME@]);
    let top = DataTypeView::Struct(output_schema(patch));
    let target = child_type(top, 0);
    let one_schema = seq![nullable_field(ADD_NAME@, DataTypeView::Struct(children))];
    let one_row = seq![row[p]];
    lemma_distinct_field_pos(schema, p);
    lemma_distinct_field_pos(one_schema, 0);
    lemma_agree(schema, row, one_schema, one_row, seq![ADD_NAME@]);
    lemma_is_not_null(engine, whole, schema, row, boolean_type());
    let value = eval_expr(engine, patch.expr(), schema, row, target);
    if row[p] is Record {
        let got = eval_exprs(engine, es, schema, row, target);
        let expected = returned_add(scan, children, row[p])->Record_0;
        let base = returned_base(scan);
        assert(got.len() == expected.len());
        assert forall|i: int| 0 <= i < got.len() implies got[i] == expected[i] by {
            let t = child_type(target, i);
            assert(got[i] == eval_expr(engine, es[i], schema, row, t));
            if i < base.len() {
                let path = seq![ADD_NAME@, base[i].name];
                assert(seq![ADD_NAME@].push(base[i].name) =~= path);
                assert(es[i] == ExprView::Column(path));
                lemma_agree(schema, row, one_schema, one_row, path);
            } else {
                let stats_path = seq![ADD_NAME@, STATS_PARSED@];
                let partitions_path = seq![ADD_NAME@, PARTITION_VALUES_PARSED@];
                let (path, wanted) = if i == base.len() && scan.stats_output_schema is Some {
                    (stats_path, scan.stats_output_schema->0)
                } else {
                    (partitions_path, output_partitions(scan)->0)
                };
                assert(es[i] == narrowed_expr(path, wanted));
                law_narrowing(engine, schema, row, path, wanted, t);
                lemma_agree_narrowed(schema, row, one_schema, one_row, path, wanted);
            }
        }
        assert(got =~= expected);
    }
    assert(value == returned_add(scan, children, row[p]));
    let outer = seq![patch.expr()];
    assert(eval_exprs(engine, outer, schema, row, top) =~= seq![value]);
}

} // verus!
