//! The output projection of adds of any fields.

use vstd::prelude::*;

use crate::error::Error;
use crate::expressions::ExprView;
use crate::scan_plan::{add_has, lemma_resolve_first, narrowed_expr, output_patch, ScanView};
use crate::schema::{
    distinct_names, field_pos, has_field, lemma_has_field, DataTypeView, FieldView, SchemaView,
};
use crate::schema_laws::law_lookup_by_name;
use crate::sequences::{lemma_filter_all, lemma_filter_positions, lemma_filter_same};
use crate::struct_patch::{drop_slot, replace_slot, slot_fields, PatchView, SlotView};

verus! {

/// Columns that are made of fields one by one, each under the name of its field.
spec fn keeps_names(make: spec_fn(FieldView) -> SlotView) -> bool {
    forall|f: FieldView| (#[trigger] make(f)).field.name == f.name
}

/// Leaving out the one field of a name is keeping the others.
proof fn lemma_remove_is_filter(fields: SchemaView, name: Seq<char>, p: int)
    requires
        distinct_names(fields),
        0 <= p < fields.len(),
        fields[p].name == name,
    ensures
        fields.remove(p) == fields.filter(|f: FieldView| f.name != name),
    decreases fields.len(),
{
    reveal(Seq::filter);
    let keep = |f: FieldView| f.name != name;
    let init = fields.drop_last();
    let last = fields[fields.len() - 1];
    assert(last == fields.last());
    if p == fields.len() - 1 {
        assert forall|i: int| 0 <= i < init.len() implies keep(#[trigger] init[i]) by {
            assert(fields[i].name != fields[p].name);
        }
        lemma_filter_all(init, keep);
        assert(fields.remove(p) =~= init);
    } else {
        assert forall|i: int, j: int| 0 <= i < j < init.len() implies (#[trigger] init[i]).name
            != (#[trigger] init[j]).name by {
            assert(fields[i].name != fields[j].name);
        }
        lemma_remove_is_filter(init, name, p);
        assert(fields[p].name != last.name);
        assert(fields.remove(p) =~= init.remove(p).push(last));
    }
}

/// What is left of fields of distinct names has distinct names, and has those that were kept.
proof fn lemma_left(fields: SchemaView, name: Seq<char>, other: Seq<char>)
    requires
        distinct_names(fields),
        name != other,
    ensures
        distinct_names(fields.filter(|f: FieldView| f.name != name)),
        has_field(fields.filter(|f: FieldView| f.name != name), other) <==> has_field(
            fields,
            other,
        ),
{
    let keep = |f: FieldView| f.name != name;
    let left = fields.filter(keep);
    let positions = lemma_filter_positions(fields, keep);
    assert forall|i: int, j: int| 0 <= i < j < left.len() implies (#[trigger] left[i]).name != (
    #[trigger] left[j]).name by {
        assert(positions[i] < positions[j]);
        assert(left[i] == fields[positions[i]] && left[j] == fields[positions[j]]);
    }
    law_lookup_by_name(fields, other);
    law_lookup_by_name(left, other);
    if has_field(left, other) {
        let i = choose|i: int| 0 <= i < left.len() && (#[trigger] left[i]).name == other;
        assert(fields[positions[i]].name == other);
    }
    if has_field(fields, other) {
        let i = choose|i: int| 0 <= i < fields.len() && (#[trigger] fields[i]).name == other;
        assert(keep(fields[i]));
        let k = choose|k: int| 0 <= k < positions.len() && #[trigger] positions[k] == i;
        assert(left[k].name == other);
    }
}

/// Filtering twice is filtering once by both.
proof fn lemma_filter_twice(
    fields: SchemaView,
    f: spec_fn(FieldView) -> bool,
    g: spec_fn(FieldView) -> bool,
)
    ensures
        fields.filter(f).filter(g) == fields.filter(|x: FieldView| f(x) && g(x)),
    decreases fields.len(),
{
    reveal(Seq::filter);
    if fields.len() > 0 {
        lemma_filter_twice(fields.drop_last(), f, g);
        let before = fields.drop_last().filter(f);
        if f(fields.last()) {
            assert(before.push(fields.last()).drop_last() =~= before);
        }
    }
}

/// The names of columns that are made of fields are those of the fields.
proof fn lemma_made_names(fields: SchemaView, make: spec_fn(FieldView) -> SlotView, name: Seq<char>)
    requires
        keeps_names(make),
    ensures
        has_field(slot_fields(fields.map_values(make)), name) <==> has_field(fields, name),
        has_field(fields, name) ==> field_pos(slot_fields(fields.map_values(make)), name)
            == field_pos(fields, name),
{
    let made = slot_fields(fields.map_values(make));
    law_lookup_by_name(fields, name);
    law_lookup_by_name(made, name);
    assert forall|i: int| 0 <= i < fields.len() implies (#[trigger] made[i]).name
        == fields[i].name by {
        assert(made[i] == make(fields[i]).field);
    }
    if has_field(fields, name) {
        let p = field_pos(fields, name);
        assert(made[p].name == name);
        lemma_has_field(made, name, p);
        let q = field_pos(made, name);
        if q < p {
            assert(fields[q].name != name);
        } else if p < q {
            assert(made[p].name != name);
        }
    }
    if has_field(made, name) {
        let i = choose|i: int| 0 <= i < made.len() && (#[trigger] made[i]).name == name;
        assert(fields[i].name == name);
    }
}

/// Dropping the column of a name, if it is there, keeps the columns of the other fields.
proof fn lemma_drop(fields: SchemaView, make: spec_fn(FieldView) -> SlotView, name: Seq<char>)
    requires
        keeps_names(make),
        distinct_names(fields),
    ensures
        ({
            let left = fields.filter(|f: FieldView| f.name != name).map_values(make);
            &&& has_field(fields, name) ==> drop_slot(fields.map_values(make), name) == Ok::<
                Seq<SlotView>,
                Error,
            >(left)
            &&& !has_field(fields, name) ==> left == fields.map_values(make)
        }),
{
    let keep = |f: FieldView| f.name != name;
    lemma_made_names(fields, make, name);
    law_lookup_by_name(fields, name);
    if has_field(fields, name) {
        let p = field_pos(fields, name);
        lemma_remove_is_filter(fields, name, p);
        assert(fields.map_values(make).remove(p) =~= fields.remove(p).map_values(make));
    } else {
        lemma_filter_all(fields, keep);
    }
}

/// Replacing the column of a name changes what is made of that field only.
proof fn lemma_replace(
    fields: SchemaView,
    make: spec_fn(FieldView) -> SlotView,
    name: Seq<char>,
    slot: SlotView,
)
    requires
        keeps_names(make),
        distinct_names(fields),
        slot.field.name == name,
    ensures
        ({
            let other = |f: FieldView|
                if f.name == name {
                    slot
                } else {
                    make(f)
                };
            &&& keeps_names(other)
            &&& has_field(fields, name) ==> replace_slot(
                fields.map_values(make),
                name,
                slot,
            ) == Ok::<Seq<SlotView>, Error>(fields.map_values(other))
            &&& !has_field(fields, name) ==> replace_slot(
                fields.map_values(make),
                name,
                slot,
            ) == Err::<Seq<SlotView>, Error>(Error::UnknownColumn)
        }),
{
    let other = |f: FieldView|
        if f.name == name {
            slot
        } else {
            make(f)
        };
    lemma_made_names(fields, make, name);
    law_lookup_by_name(fields, name);
    if has_field(fields, name) {
        let p = field_pos(fields, name);
        let got = fields.map_values(make).update(p, slot);
        let expected = fields.map_values(other);
        assert forall|i: int| 0 <= i < got.len() implies got[i] == expected[i] by {
            if i != p {
                assert(fields[i].name != fields[p].name);
            }
        }
        assert(got =~= expected);
    }
}

/// Whether a field of an add is returned: the JSON statistics, the parsed statistics and the parsed
/// partition values if they are requested, and every other field.
pub open spec fn is_returned(scan: ScanView, field: FieldView) -> bool {
    &&& field.name == "stats"@ ==> scan.synthesize_json
    &&& field.name == "stats_parsed"@ ==> scan.stats_output_schema is Some
    &&& field.name == "partitionValues_parsed"@ ==> scan.parsed_partition_values
        && scan.partition_schema is Some
}

/// What is returned of a field of an add: the requested fields of a parsed struct, and any other
/// field as it is.
pub open spec fn returned_as(scan: ScanView, field: FieldView) -> SlotView {
    if field.name == "stats_parsed"@ {
        SlotView {
            field: FieldView {
                name: "stats_parsed"@,
                data_type: DataTypeView::Struct(scan.stats_output_schema->0),
                nullable: true,
            },
            expr: narrowed_expr(
                seq!["add"@, "stats_parsed"@],
                scan.stats_output_schema->0,
            ),
        }
    } else if field.name == "partitionValues_parsed"@ {
        SlotView {
            field: FieldView {
                name: "partitionValues_parsed"@,
                data_type: DataTypeView::Struct(scan.partition_schema->0),
                nullable: true,
            },
            expr: narrowed_expr(
                seq!["add"@, "partitionValues_parsed"@],
                scan.partition_schema->0,
            ),
        }
    } else {
        SlotView { field, expr: ExprView::Column(seq!["add"@, field.name]) }
    }
}

/// Of adds of any fields, a scan returns the fields that are to be returned, in their order, each
/// as it is to be. That fails exactly if parsed statistics or parsed partition values are
/// requested that the adds do not have.
#[verifier::rlimit(40)]
pub proof fn law_output_of_any_add(scan: ScanView, add_field: FieldView, children: SchemaView)
    requires
        add_field.name == "add"@,
        add_field.data_type == DataTypeView::Struct(children),
        distinct_names(children),
    ensures
        ({
            let stats = scan.stats_output_schema is Some;
            let partitions = scan.parsed_partition_values && scan.partition_schema is Some;
            let possible = (stats ==> has_field(children, "stats_parsed"@)) && (partitions
                ==> has_field(children, "partitionValues_parsed"@));
            let returned = children.filter(|f: FieldView| is_returned(scan, f));
            match output_patch(scan, add_field).slots {
                Ok(slots) => {
                    &&& possible
                    &&& slots.len() == returned.len()
                    &&& forall|k: int|
                        0 <= k < slots.len() ==> #[trigger] slots[k] == returned_as(
                            scan,
                            returned[k],
                        )
                },
                Err(e) => e == Error::UnknownColumn && !possible,
            }
        }),
{
    reveal_strlit("stats");
    reveal_strlit("stats_parsed");
    reveal_strlit("partitionValues_parsed");
    assert("stats"@.len() != "stats_parsed"@.len());
    assert("stats"@.len() != "partitionValues_parsed"@.len());
    assert("stats_parsed"@.len() != "partitionValues_parsed"@.len());
    let (json, parsed, values) = ("stats"@, "stats_parsed"@, "partitionValues_parsed"@);
    let input = seq![add_field];
    lemma_resolve_first(input, children, json);
    lemma_resolve_first(input, children, parsed);
    lemma_resolve_first(input, children, values);
    let partitions = scan.parsed_partition_values && scan.partition_schema is Some;
    let stats_slot = SlotView {
        field: FieldView {
            name: parsed,
            data_type: DataTypeView::Struct(scan.stats_output_schema->0),
            nullable: true,
        },
        expr: narrowed_expr(seq!["add"@, parsed], scan.stats_output_schema->0),
    };
    let values_slot = SlotView {
        field: FieldView {
            name: values,
            data_type: DataTypeView::Struct(scan.partition_schema->0),
            nullable: true,
        },
        expr: narrowed_expr(seq!["add"@, values], scan.partition_schema->0),
    };

    // The JSON statistics.
    let make0 = |f: FieldView|
        SlotView { field: f, expr: ExprView::Column(seq!["add"@].push(f.name)) };
    let start = PatchView::start(input, seq!["add"@]);
    assert(start.slots->Ok_0 =~= children.map_values(make0));
    let no_json = |f: FieldView| f.name != json;
    let all = |f: FieldView| true;
    lemma_filter_all(children, all);
    let keep1 = if scan.synthesize_json {
        all
    } else {
        no_json
    };
    let fields1 = children.filter(keep1);
    lemma_drop(children, make0, json);
    lemma_left(children, json, parsed);
    lemma_left(children, json, values);
    let patch1 = if !scan.synthesize_json && add_has(input, json) {
        start.without(json)
    } else {
        start
    };
    assert(patch1.slots == Ok::<Seq<SlotView>, Error>(fields1.map_values(make0)));

    // The parsed statistics.
    let stats = scan.stats_output_schema is Some;
    let no_parsed = |f: FieldView| f.name != parsed;
    let keep2 = if stats {
        all
    } else {
        no_parsed
    };
    lemma_filter_all(fields1, all);
    let fields2 = fields1.filter(keep2);
    let with_stats = |f: FieldView|
        if f.name == parsed {
            stats_slot
        } else {
            make0(f)
        };
    lemma_replace(fields1, make0, parsed, stats_slot);
    lemma_drop(fields1, make0, parsed);
    lemma_left(fields1, parsed, values);
    let make2 = if stats {
        with_stats
    } else {
        make0
    };
    let patch2 = if stats {
        patch1.replace(parsed, stats_slot.field, stats_slot.expr)
    } else if add_has(input, parsed) {
        patch1.without(parsed)
    } else {
        patch1
    };
    if !stats || has_field(children, parsed) {
        assert(patch2.slots == Ok::<Seq<SlotView>, Error>(fields2.map_values(make2)));

        // The parsed partition values.
        let no_values = |f: FieldView| f.name != values;
        let keep3 = if partitions {
            all
        } else {
            no_values
        };
        lemma_filter_all(fields2, all);
        let fields3 = fields2.filter(keep3);
        let with_values = |f: FieldView|
            if f.name == values {
                values_slot
            } else {
                make2(f)
            };
        lemma_replace(fields2, make2, values, values_slot);
        lemma_drop(fields2, make2, values);
        let make3 = if partitions {
            with_values
        } else {
            make2
        };
        let patch3 = if partitions {
            patch2.replace(values, values_slot.field, values_slot.expr)
        } else if add_has(input, values) {
            patch2.without(values)
        } else {
            patch2
        };
        assert(patch3 == output_patch(scan, add_field));
        lemma_filter_twice(children, keep1, keep2);
        let keep12 = |f: FieldView| keep1(f) && keep2(f);
        lemma_filter_twice(children, keep12, keep3);
        let keep123 = |f: FieldView| keep12(f) && keep3(f);
        let returned = |f: FieldView| is_returned(scan, f);
        lemma_filter_same(children, keep123, returned);
        assert(fields3 == children.filter(returned));
        if !partitions || has_field(children, values) {
            assert(patch3.slots == Ok::<Seq<SlotView>, Error>(fields3.map_values(make3)));
            let slots = fields3.map_values(make3);
            let positions = lemma_filter_positions(children, returned);
            assert forall|k: int| 0 <= k < slots.len() implies #[trigger] slots[k] == returned_as(
                scan,
                fields3[k],
            ) by {
                let f = fields3[k];
                assert(returned(f));
                assert(seq!["add"@].push(f.name) =~= seq!["add"@, f.name]);
            }
        }
    } else {
        assert(patch2.slots == Err::<Seq<SlotView>, Error>(Error::UnknownColumn));
    }
}

} // verus!
