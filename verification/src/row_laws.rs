//! What the rows of the arms hold, by the names of their columns.

use vstd::prelude::*;

use crate::actions::{deletion_vector_view, remove_view};
use crate::arm_laws::{
    action_key, add_deletion_vector, add_key, arm_row, arm_schema, arm_stats, checkpoint_log,
    checkpoint_others, checkpoint_schema, checkpoint_source, commit_log, commit_others,
    commit_schema, key_value, law_checkpoint_arm, law_commit_arm, lemma_arm_names,
    lemma_checkpoint_actions, lemma_column_names, lemma_commit_outcome, lemma_conforming_add,
    lemma_deletion_vector_names, lemma_readable, lemma_remove_names, lemma_source_names,
    lemma_tagged_files, lemma_tagged_rows, path_of, readable_beside, remove_deletion_vector,
    source_children, source_schema,
};
use crate::checkpoint_shape::ShapeView;
use crate::files::FileType;
use crate::log_segment::tag_with_versions;
use crate::scan_plan::{
    add_with_parsed, checkpoint_actions, checkpoint_relation, commit_relation, extracted_add_view,
    file_action_key_field_view, is_add_field_view, json_read_view, key_view,
    lemma_add_names_distinct, parsed_fields, ScanView,
};
use crate::schema::{
    distinct_names, field_pos, has_field, lemma_distinct_field_pos, resolve, DataTypeView,
    SchemaView,
};
use crate::schema_laws::{is_add_column, is_version_column, law_read_schemas};
use crate::semantics::{
    empty_engine, fits, is_sound, lemma_lookup, lemma_lookup_child, lemma_lookup_grandchild, lookup,
    member, or_else, rows_of, Engine, Row, Value,
};
use crate::sequences::{lemma_filter_from, lemma_filter_same};

verus! {

/// Whether a row of an arm holds the add that was read: all fields of the log unchanged; its
/// parsed statistics, if they are wanted, as they were read if they were, else as its JSON text
/// gives them; its parsed partition values, if they are wanted, as its map gives them. Where there
/// was no add there is none.
pub open spec fn holds_the_add(
    engine: Engine,
    scan: ScanView,
    read: SchemaView,
    from: Row,
    schema: SchemaView,
    row: Row,
) -> bool {
    let there = lookup(read, from, seq!["add"@]) != Value::Null;
    &&& lookup(schema, row, seq!["add"@]) != Value::Null <==> there
    &&& forall|k: int|
        #![trigger extracted_add_view()[k]]
        0 <= k < 11 ==> lookup(schema, row, seq!["add"@, extracted_add_view()[k].name]) == lookup(
            read,
            from,
            seq!["add"@, extracted_add_view()[k].name],
        )
    &&& scan.stats_schema matches Some(stats) ==> there ==> lookup(
        schema,
        row,
        seq!["add"@, "stats_parsed"@],
    ) == (if resolve(read, seq!["add"@, "stats_parsed"@]) is Some {
        lookup(read, from, seq!["add"@, "stats_parsed"@])
    } else {
        (engine.parse_json)(lookup(read, from, seq!["add"@, "stats"@]), stats)
    })
    &&& scan.partition_schema matches Some(partitions) ==> there ==> lookup(
        schema,
        row,
        seq!["add"@, "partitionValues_parsed"@],
    ) == (engine.map_to_struct)(
        lookup(read, from, seq!["add"@, "partitionValues"@]),
        DataTypeView::Struct(partitions),
    )
}

/// Whether a row of an arm says what it is: at which version it was read, and whether it is an add.
pub open spec fn is_told_apart(read: SchemaView, from: Row, schema: SchemaView, row: Row) -> bool {
    &&& lookup(schema, row, seq!["version"@]) == lookup(read, from, seq!["version"@])
    &&& lookup(schema, row, seq!["is_add"@]) == Value::Bool(
        lookup(read, from, seq!["add"@, "path"@]) != Value::Null,
    )
}

/// Whether a row of an arm is identified by the given values: the path of a file, and the storage
/// type, the path or inline vector and the offset of its deletion vector, which is null without a
/// storage type.
pub open spec fn is_identified_by(
    schema: SchemaView,
    row: Row,
    path: Value,
    storage_type: Value,
    inline: Value,
    offset: Value,
) -> bool {
    let dv = "deletionVector"@;
    let key = "file_action_key"@;
    &&& lookup(schema, row, seq![key]) != Value::Null
    &&& lookup(schema, row, seq![key, "path"@]) == path
    &&& lookup(schema, row, seq![key, dv]) != Value::Null <==> storage_type != Value::Null
    &&& storage_type != Value::Null ==> {
        &&& lookup(schema, row, seq![key, dv, "storageType"@]) == storage_type
        &&& lookup(schema, row, seq![key, dv, "pathOrInlineDv"@]) == inline
        &&& lookup(schema, row, seq![key, dv, "offset"@]) == offset
    }
}

/// The names of the parts of a file's identity differ.
proof fn lemma_key_names()
    ensures
        distinct_names(key_view()),
        distinct_names(key_view()[1].data_type->Struct_0),
{
    reveal_strlit("path");
    reveal_strlit("deletionVector");
    reveal_strlit("storageType");
    reveal_strlit("pathOrInlineDv");
    reveal_strlit("offset");
    assert("path"@.len() != "deletionVector"@.len());
    let dv = key_view()[1].data_type->Struct_0;
    assert forall|i: int, j: int| 0 <= i < j < dv.len() implies (#[trigger] dv[i]).name != (
    #[trigger] dv[j]).name by {
        assert(dv[i].name.len() != dv[j].name.len());
    }
}

/// An identity is found in a row by the names of its parts.
proof fn lemma_identity(
    scan: ScanView,
    source: Option<SchemaView>,
    others: SchemaView,
    row: Row,
    path: Value,
    storage_type: Value,
    inline: Value,
    offset: Value,
)
    requires
        readable_beside(others),
        row.len() == others.len() + 3,
        row.last() == key_value(path, storage_type, inline, offset),
    ensures
        is_identified_by(
            arm_schema(scan, source, others),
            row,
            path,
            storage_type,
            inline,
            offset,
        ),
{
    let schema = arm_schema(scan, source, others);
    let p: int = others.len() + 2int;
    let parts = key_view()[1].data_type->Struct_0;
    lemma_arm_names(scan, source, others);
    lemma_key_names();
    lemma_lookup(schema, row, p);
    lemma_lookup_child(schema, row, p, key_view(), 0);
    lemma_lookup_child(schema, row, p, key_view(), 1);
    lemma_lookup_grandchild(schema, row, p, key_view(), 1, parts, 0);
    lemma_lookup_grandchild(schema, row, p, key_view(), 1, parts, 1);
    lemma_lookup_grandchild(schema, row, p, key_view(), 1, parts, 2);
}

/// What a row that an arm makes holds, by the names of its columns.
proof fn lemma_arm_row_by_name(
    engine: Engine,
    scan: ScanView,
    source: Option<SchemaView>,
    others: SchemaView,
    from: Row,
    key: Value,
)
    requires
        readable_beside(others),
        others.len() > 0,
        others.last().name == "version"@,
        from.len() == others.len() + 1,
        fits(from[0], source_children(source)),
        from[0] is Null || from[0] is Record,
    ensures
        holds_the_add(
            engine,
            scan,
            source_schema(source, others),
            from,
            arm_schema(scan, source, others),
            arm_row(engine, scan, source, from, key),
        ),
        is_told_apart(
            source_schema(source, others),
            from,
            arm_schema(scan, source, others),
            arm_row(engine, scan, source, from, key),
        ),
        forall|i: int|
            0 <= i < others.len() ==> #[trigger] arm_row(engine, scan, source, from, key)[i + 1]
                == from[i + 1],
{
    let read = source_schema(source, others);
    let schema = arm_schema(scan, source, others);
    let row = arm_row(engine, scan, source, from, key);
    let before = source_children(source);
    let after = extracted_add_view() + parsed_fields(
        arm_stats(scan, source),
        scan.partition_schema,
    );
    lemma_arm_names(scan, source, others);
    lemma_source_names(source, others);
    lemma_add_names_distinct(source, None);
    lemma_add_names_distinct(arm_stats(scan, source), scan.partition_schema);
    assert(schema[0] == add_with_parsed(arm_stats(scan, source), scan.partition_schema));
    assert(read[0] == add_with_parsed(source, None));
    assert(schema[0].name == "add"@ && read[0].name == "add"@);
    lemma_lookup(schema, row, 0);
    lemma_lookup(read, from, 0);
    assert forall|k: int| #![trigger extracted_add_view()[k]] 0 <= k < 11 implies lookup(
        schema,
        row,
        seq!["add"@, extracted_add_view()[k].name],
    ) == lookup(read, from, seq!["add"@, extracted_add_view()[k].name]) by {
        assert(before[k] == extracted_add_view()[k]);
        assert(after[k] == extracted_add_view()[k]);
        lemma_lookup_child(read, from, 0, before, k);
        lemma_lookup_child(schema, row, 0, after, k);
    }
    let n = others.len() as int;
    assert(schema[n] == others[n - 1] && read[n] == others[n - 1]);
    lemma_lookup(schema, row, n);
    lemma_lookup(read, from, n);
    assert(row[n] == from[n]);
    assert(schema[n + 1].name == "is_add"@);
    lemma_lookup(schema, row, n + 1);
    assert(before[0].name == "path"@);
    lemma_lookup_child(read, from, 0, before, 0);
    lemma_parsed_source(source, others);
    if scan.stats_schema is Some {
        assert(after[11].name == "stats_parsed"@);
        lemma_lookup_child(schema, row, 0, after, 11);
        assert(before[5].name == "stats"@);
        lemma_lookup_child(read, from, 0, before, 5);
        if source is Some {
            assert(before[11].name == "stats_parsed"@);
            lemma_lookup_child(read, from, 0, before, 11);
        }
    }
    if scan.partition_schema is Some {
        let k: int = if scan.stats_schema is Some {
            12
        } else {
            11
        };
        assert(after[k].name == "partitionValues_parsed"@);
        lemma_lookup_child(schema, row, 0, after, k);
        assert(before[1].name == "partitionValues"@);
        lemma_lookup_child(read, from, 0, before, 1);
    }
}

/// Parsed statistics are read exactly if the source has them.
proof fn lemma_parsed_source(source: Option<SchemaView>, others: SchemaView)
    requires
        readable_beside(others),
    ensures
        resolve(source_schema(source, others), seq!["add"@, "stats_parsed"@]) is Some
            <==> source is Some,
{
    let read = source_schema(source, others);
    let children = source_children(source);
    let path = seq!["add"@, "stats_parsed"@];
    lemma_source_names(source, others);
    lemma_add_names_distinct(source, None);
    assert(read[0] == add_with_parsed(source, None));
    lemma_distinct_field_pos(read, 0);
    assert(path.drop_first() =~= seq!["stats_parsed"@]);
    if source is Some {
        assert(children[11].name == "stats_parsed"@);
        lemma_lookup(children, arbitrary(), 11);
    } else {
        // The name is that of a child that the parsed statistics would have.
        let some: Option<SchemaView> = Some(seq![]);
        lemma_add_names_distinct(some, None);
        let with = extracted_add_view() + parsed_fields(some, None);
        assert(with[11].name == "stats_parsed"@);
        assert forall|i: int| 0 <= i < children.len() implies (#[trigger] children[i]).name
            != "stats_parsed"@ by {
            assert(children[i] == with[i]);
        }
        assert(!has_field(children, "stats_parsed"@));
        assert(resolve(children, seq!["stats_parsed"@]) is None);
    }
    assert(field_pos(read, path[0]) == 0);
    assert(resolve(read, path) == resolve(children, path.drop_first()));
}

/// The commit arm makes one row of each row that was read with the path of an add or of a remove,
/// in their order. It holds the add, and the remove as it was; it says at which version it was
/// read and whether it is an add; and it is identified by the path and the deletion vector of the
/// add, each part taken from the remove where the add has none.
pub proof fn law_commit_rows(engine: Engine, scan: ScanView)
    requires
        is_sound(engine),
        commit_relation(scan) is Ok,
    ensures
        ({
            let read = json_read_view(true);
            let commits = commit_relation(scan)->Ok_0;
            let rows = rows_of(engine, commits);
            let kept = commit_log(engine, scan).filter(
                |row: Row|
                    lookup(read, row, seq!["add"@, "path"@]) != Value::Null || lookup(
                        read,
                        row,
                        seq!["remove"@, "path"@],
                    ) != Value::Null,
            );
            &&& rows.len() == kept.len()
            &&& forall|i: int|
                0 <= i < rows.len() ==> is_commit_row(
                    engine,
                    scan,
                    kept[i],
                    commits.schema,
                    #[trigger] rows[i],
                )
        }),
{
    let read = json_read_view(true);
    let others = commit_others();
    let commits = commit_relation(scan)->Ok_0;
    let log = commit_log(engine, scan);
    let by_name = |row: Row|
        lookup(read, row, seq!["add"@, "path"@]) != Value::Null || lookup(
            read,
            row,
            seq!["remove"@, "path"@],
        ) != Value::Null;
    let by_path = |row: Row|
        path_of(row[0]) != Value::Null || path_of(row[1])
            != Value::Null;
    lemma_readable();
    lemma_column_names();
    lemma_commit_outcome(scan);
    law_commit_arm(engine, scan);
    let files = tag_with_versions(scan.segment.commit_cover)->Ok_0;
    lemma_tagged_files(scan.segment.commit_cover);
    lemma_tagged_rows(engine, FileType::Json, files, read);
    assert forall|i: int| 0 <= i < log.len() implies by_name(#[trigger] log[i]) == by_path(
        log[i],
    ) by {
        lemma_commit_columns(log[i]);
    }
    lemma_filter_same(log, by_name, by_path);
    let kept = log.filter(by_name);
    let rows = rows_of(engine, commits);
    assert(arm_schema(scan, None, others) =~= commit_schema(scan));
    assert forall|i: int| 0 <= i < rows.len() implies is_commit_row(
        engine,
        scan,
        kept[i],
        commits.schema,
        #[trigger] rows[i],
    ) by {
        lemma_filter_from(log, by_name, i);
        let from = kept[i];
        let key = action_key(from[0], from[1]);
        assert(rows[i] == arm_row(engine, scan, None, from, key));
        lemma_conforming_add(None, from[0]);
        lemma_arm_row_by_name(engine, scan, None, others, from, key);
        lemma_commit_columns(from);
        lemma_arm_names(scan, None, others);
        lemma_lookup(commits.schema, rows[i], 1);
        assert(rows[i][0int + 1] == from[0int + 1]);
        lemma_identity(
            scan,
            None,
            others,
            rows[i],
            or_else(
                lookup(read, from, seq!["add"@, "path"@]),
                lookup(read, from, seq!["remove"@, "path"@]),
            ),
            identity_part(from, "storageType"@),
            identity_part(from, "pathOrInlineDv"@),
            identity_part(from, "offset"@),
        );
    }
}

/// A part of the deletion vector of an add, or of a remove where the add has none.
pub open spec fn identity_part(from: Row, name: Seq<char>) -> Value {
    let of_add = lookup(json_read_view(true), from, seq!["add"@, "deletionVector"@, name]);
    if of_add != Value::Null {
        of_add
    } else {
        lookup(json_read_view(true), from, seq!["remove"@, "deletionVector"@, name])
    }
}

/// Whether a row of the commit arm is what the arm makes of a row that was read.
pub open spec fn is_commit_row(
    engine: Engine,
    scan: ScanView,
    from: Row,
    schema: SchemaView,
    row: Row,
) -> bool {
    let read = json_read_view(true);
    let of_add = lookup(read, from, seq!["add"@, "path"@]);
    &&& holds_the_add(engine, scan, read, from, schema, row)
    &&& lookup(schema, row, seq!["remove"@]) == lookup(read, from, seq!["remove"@])
    &&& is_told_apart(read, from, schema, row)
    &&& is_identified_by(
        schema,
        row,
        if of_add != Value::Null {
            of_add
        } else {
            lookup(read, from, seq!["remove"@, "path"@])
        },
        identity_part(from, "storageType"@),
        identity_part(from, "pathOrInlineDv"@),
        identity_part(from, "offset"@),
    )
}

/// What a row of the commits holds at the names of the columns that identify its file.
proof fn lemma_commit_columns(row: Row)
    ensures
        ({
            let read = json_read_view(true);
            let add = add_deletion_vector(row[0]);
            let remove = remove_deletion_vector(row[1]);
            &&& lookup(read, row, seq!["add"@, "path"@]) == member(row[0], 0)
            &&& lookup(read, row, seq!["remove"@, "path"@]) == member(row[1], 0)
            &&& lookup(read, row, seq!["remove"@]) == row[1]
            &&& identity_part(row, "storageType"@) == or_else(member(add, 0), member(remove, 0))
            &&& identity_part(row, "pathOrInlineDv"@) == or_else(member(add, 1), member(remove, 1))
            &&& identity_part(row, "offset"@) == or_else(member(add, 2), member(remove, 2))
        }),
{
    let read = json_read_view(true);
    let dv = deletion_vector_view();
    let children = source_children(None);
    lemma_readable();
    lemma_source_names(None, commit_others());
    lemma_add_names_distinct(None, None);
    lemma_remove_names();
    lemma_deletion_vector_names();
    assert(read[0] == add_with_parsed(None, None));
    assert(children[0].name == "path"@);
    assert(children[7].name == "deletionVector"@);
    lemma_lookup(read, row, 1);
    lemma_lookup_child(read, row, 0, children, 0);
    lemma_lookup_child(read, row, 1, remove_view(), 0);
    lemma_lookup_grandchild(read, row, 0, children, 7, dv, 0);
    lemma_lookup_grandchild(read, row, 0, children, 7, dv, 1);
    lemma_lookup_grandchild(read, row, 0, children, 7, dv, 2);
    lemma_lookup_grandchild(read, row, 1, remove_view(), 8, dv, 0);
    lemma_lookup_grandchild(read, row, 1, remove_view(), 8, dv, 1);
    lemma_lookup_grandchild(read, row, 1, remove_view(), 8, dv, 2);
}

/// Whether a row of the checkpoint arm is what the arm makes of a row that was read.
pub open spec fn is_checkpoint_row(
    engine: Engine,
    scan: ScanView,
    read: SchemaView,
    from: Row,
    schema: SchemaView,
    row: Row,
) -> bool {
    let dv = "deletionVector"@;
    &&& holds_the_add(engine, scan, read, from, schema, row)
    &&& is_told_apart(read, from, schema, row)
    &&& is_identified_by(
        schema,
        row,
        lookup(read, from, seq!["add"@, "path"@]),
        lookup(read, from, seq!["add"@, dv, "storageType"@]),
        lookup(read, from, seq!["add"@, dv, "pathOrInlineDv"@]),
        lookup(read, from, seq!["add"@, dv, "offset"@]),
    )
}

/// What a row of the checkpoint holds at the names of the columns that identify its file.
proof fn lemma_checkpoint_columns(source: Option<SchemaView>, row: Row)
    ensures
        ({
            let read = source_schema(source, checkpoint_others());
            let add = add_deletion_vector(row[0]);
            let dv = "deletionVector"@;
            &&& lookup(read, row, seq!["add"@, "path"@]) == member(row[0], 0)
            &&& lookup(read, row, seq!["add"@, dv, "storageType"@]) == member(add, 0)
            &&& lookup(read, row, seq!["add"@, dv, "pathOrInlineDv"@]) == member(add, 1)
            &&& lookup(read, row, seq!["add"@, dv, "offset"@]) == member(add, 2)
        }),
{
    let read = source_schema(source, checkpoint_others());
    let dv = deletion_vector_view();
    let children = source_children(source);
    lemma_readable();
    lemma_source_names(source, checkpoint_others());
    lemma_add_names_distinct(source, None);
    lemma_deletion_vector_names();
    assert(read[0] == add_with_parsed(source, None));
    assert(children[0].name == "path"@);
    assert(children[7].name == "deletionVector"@);
    lemma_lookup_child(read, row, 0, children, 0);
    lemma_lookup_grandchild(read, row, 0, children, 7, dv, 0);
    lemma_lookup_grandchild(read, row, 0, children, 7, dv, 1);
    lemma_lookup_grandchild(read, row, 0, children, 7, dv, 2);
}

/// The checkpoint arm makes one row of each row that was read with the path of an add, in their
/// order. It holds the add; it says at which version it was read and that it is an add; and it is
/// identified by the path and the deletion vector of the add.
pub proof fn law_checkpoint_rows(engine: Engine, scan: ScanView, shape: ShapeView)
    requires
        is_sound(engine),
        checkpoint_relation(scan, shape) is Ok,
    ensures
        checkpoint_actions(scan, shape) is Ok,
        ({
            let read = checkpoint_actions(scan, shape)->Ok_0.schema;
            let checkpoint = checkpoint_relation(scan, shape)->Ok_0;
            let rows = rows_of(engine, checkpoint);
            let kept = checkpoint_log(engine, scan, shape).filter(
                |row: Row| lookup(read, row, seq!["add"@, "path"@]) != Value::Null,
            );
            &&& rows.len() == kept.len()
            &&& forall|i: int|
                0 <= i < rows.len() ==> is_checkpoint_row(
                    engine,
                    scan,
                    read,
                    kept[i],
                    checkpoint.schema,
                    #[trigger] rows[i],
                )
        }),
{
    let others = checkpoint_others();
    let source = checkpoint_source(scan, shape);
    law_checkpoint_arm(engine, scan, shape);
    lemma_checkpoint_actions(engine, scan, shape);
    lemma_readable();
    lemma_column_names();
    let read = checkpoint_actions(scan, shape)->Ok_0.schema;
    let checkpoint = checkpoint_relation(scan, shape)->Ok_0;
    let log = checkpoint_log(engine, scan, shape);
    let by_name = |row: Row| lookup(read, row, seq!["add"@, "path"@]) != Value::Null;
    let by_path = |row: Row| path_of(row[0]) != Value::Null;
    assert forall|i: int| 0 <= i < log.len() implies by_name(#[trigger] log[i]) == by_path(
        log[i],
    ) by {
        lemma_checkpoint_columns(source, log[i]);
    }
    lemma_filter_same(log, by_name, by_path);
    let kept = log.filter(by_name);
    let rows = rows_of(engine, checkpoint);
    assert(arm_schema(scan, source, others) =~= checkpoint_schema(scan, shape));
    assert forall|i: int| 0 <= i < rows.len() implies is_checkpoint_row(
        engine,
        scan,
        read,
        kept[i],
        checkpoint.schema,
        #[trigger] rows[i],
    ) by {
        lemma_filter_from(log, by_name, i);
        let from = kept[i];
        let key = add_key(from[0]);
        assert(rows[i] == arm_row(engine, scan, source, from, key));
        lemma_conforming_add(source, from[0]);
        lemma_arm_row_by_name(engine, scan, source, others, from, key);
        lemma_checkpoint_columns(source, from);
        let dv = add_deletion_vector(from[0]);
        lemma_identity(
            scan,
            source,
            others,
            rows[i],
            member(from[0], 0),
            member(dv, 0),
            member(dv, 1),
            member(dv, 2),
        );
    }
}

/// The columns of the arms: the adds, with parsed statistics and parsed partition values if the
/// scan has a schema for them; in the commits the removes; the version; whether the row is an add;
/// and the identity of the file. Parsed statistics that were read stay in the schema they were
/// read in.
pub proof fn law_arm_schemas(scan: ScanView, shape: ShapeView)
    ensures
        commit_relation(scan) matches Ok(commits) ==> {
            &&& commits.schema.len() == 5
            &&& is_add_column(commits.schema[0], scan.stats_schema, scan.partition_schema)
            &&& commits.schema[1] == json_read_view(true)[1]
            &&& is_version_column(commits.schema[2])
            &&& commits.schema[3] == is_add_field_view()
            &&& commits.schema[4] == file_action_key_field_view()
        },
        checkpoint_relation(scan, shape) matches Ok(checkpoint) ==> {
            let read = checkpoint_actions(scan, shape)->Ok_0.schema;
            let parsed = resolve(read, seq!["add"@, "stats_parsed"@]);
            &&& checkpoint_actions(scan, shape) is Ok
            &&& checkpoint.schema.len() == 4
            &&& is_add_column(
                checkpoint.schema[0],
                if scan.stats_schema is None {
                    None
                } else if parsed is Some {
                    Some(parsed->0.data_type->Struct_0)
                } else {
                    scan.stats_schema
                },
                scan.partition_schema,
            )
            &&& is_version_column(checkpoint.schema[1])
            &&& checkpoint.schema[2] == is_add_field_view()
            &&& checkpoint.schema[3] == file_action_key_field_view()
        },
{
    assert(is_sound(empty_engine()));
    law_commit_arm(empty_engine(), scan);
    law_checkpoint_arm(empty_engine(), scan, shape);
    lemma_readable();
    law_read_schemas(None, None);
    if checkpoint_relation(scan, shape) is Ok {
        lemma_checkpoint_actions(empty_engine(), scan, shape);
        let source = checkpoint_source(scan, shape);
        let read = source_schema(source, checkpoint_others());
        lemma_parsed_source(source, checkpoint_others());
        if source is Some {
            let children = source_children(source);
            lemma_source_names(source, checkpoint_others());
            lemma_add_names_distinct(source, None);
            assert(read[0] == add_with_parsed(source, None));
            assert(children[11].name == "stats_parsed"@);
            lemma_distinct_field_pos(read, 0);
            lemma_lookup(children, arbitrary(), 11);
            let path = seq!["add"@, "stats_parsed"@];
            assert(path.drop_first() =~= seq!["stats_parsed"@]);
            assert(resolve(read, path) == Some(children[11]));
        }
    }
}

} // verus!
