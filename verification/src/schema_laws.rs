//! The schemas of the log and of the plans, by the names and types of their fields.

use vstd::prelude::*;

use crate::actions::{
    deletion_vector_view, remove_view, sidecar_view, ADD_NAME, PARTITION_VALUES_PARSED, REMOVE_NAME,
    SIDECAR_DIRECTORY, SIDECAR_NAME, STATS_PARSED,
};
use crate::expressions::PathView;
use crate::log_segment::sidecar_only_view;
use crate::output_laws::{law_output_schema, returned_base};
use crate::scan_plan::{
    add_has, extracted_add_view, file_action_key_field_view, is_add_field_view, is_key_path,
    json_read_view, json_stats_missing, key_dv_path, key_path, key_view, normalized_add_view,
    output_patch, output_schema, parquet_read_view, parsed_fields, partition_values_missing,
    sidecar_file_meta_view, sidecar_read_view, ScanView, FILE_ACTION_KEY, IS_ADD, PARTITION_VALUES,
    STATS, VERSION,
};
use crate::schema::{
    field_pos, has_field, lemma_field_pos, lemma_has_field, resolve, DataTypeView, FieldView,
    PrimitiveType, SchemaView,
};

verus! {

// --- Lookup by name ---

/// A schema has a field of a name exactly if some field has that name, and lookup arrives at the
/// first of them.
pub proof fn law_lookup_by_name(schema: SchemaView, name: Seq<char>)
    ensures
        has_field(schema, name) <==> exists|i: int|
            0 <= i < schema.len() && (#[trigger] schema[i]).name == name,
        has_field(schema, name) ==> {
            let p = field_pos(schema, name);
            &&& 0 <= p < schema.len()
            &&& schema[p].name == name
            &&& forall|j: int| 0 <= j < p ==> (#[trigger] schema[j]).name != name
        },
{
    if exists|i: int| 0 <= i < schema.len() && (#[trigger] schema[i]).name == name {
        let i = choose|i: int| 0 <= i < schema.len() && (#[trigger] schema[i]).name == name;
        lemma_has_field(schema, name, i);
    }
}

/// Whether a path leads to a field, by way of the fields at the given positions: each the first of
/// its name among the children of the one before.
pub open spec fn leads_by(
    schema: SchemaView,
    path: PathView,
    way: Seq<int>,
    field: FieldView,
) -> bool
    decreases path.len(),
{
    &&& path.len() > 0
    &&& way.len() == path.len()
    &&& 0 <= way[0] < schema.len()
    &&& schema[way[0]].name == path[0]
    &&& forall|j: int| 0 <= j < way[0] ==> (#[trigger] schema[j]).name != path[0]
    &&& if path.len() == 1 {
        field == schema[way[0]]
    } else {
        &&& schema[way[0]].data_type matches DataTypeView::Struct(children)
        &&& leads_by(children, path.drop_first(), way.drop_first(), field)
    }
}

/// A path resolves to a field exactly if it leads there, however deep.
pub proof fn law_path_resolution(schema: SchemaView, path: PathView, field: FieldView)
    ensures
        resolve(schema, path) == Some(field) <==> exists|way: Seq<int>| #[trigger]
            leads_by(schema, path, way, field),
    decreases path.len(),
{
    if path.len() > 0 {
        let rest = path.drop_first();
        law_lookup_by_name(schema, path[0]);
        let p = field_pos(schema, path[0]);
        if let DataTypeView::Struct(children) = schema[p].data_type {
            law_path_resolution(children, rest, field);
            if resolve(schema, path) == Some(field) {
                if path.len() == 1 {
                    assert(leads_by(schema, path, seq![p], field));
                } else {
                    let below = choose|way: Seq<int>| #[trigger]
                        leads_by(children, rest, way, field);
                    let way = seq![p] + below;
                    assert(way.drop_first() =~= below);
                    assert(leads_by(schema, path, way, field));
                }
            }
        } else if resolve(schema, path) == Some(field) {
            assert(leads_by(schema, path, seq![p], field));
        }
        if exists|way: Seq<int>| #[trigger] leads_by(schema, path, way, field) {
            let way = choose|way: Seq<int>| #[trigger] leads_by(schema, path, way, field);
            lemma_field_pos(schema, path[0], way[0]);
            if path.len() > 1 {
                let children = schema[p].data_type->Struct_0;
                assert(leads_by(children, rest, way.drop_first(), field));
            }
        }
    }
}

// --- Names ---

/// What the columns of the log and of the plans are called, and the directory of sidecars.
pub proof fn law_names()
    ensures
        ADD_NAME@ == "add"@,
        REMOVE_NAME@ == "remove"@,
        SIDECAR_NAME@ == "sidecar"@,
        STATS@ == "stats"@,
        STATS_PARSED@ == "stats_parsed"@,
        PARTITION_VALUES@ == "partitionValues"@,
        PARTITION_VALUES_PARSED@ == "partitionValues_parsed"@,
        VERSION@ == "version"@,
        IS_ADD@ == "is_add"@,
        FILE_ACTION_KEY@ == "file_action_key"@,
        SIDECAR_DIRECTORY@ == "_sidecars/"@,
{
}

// --- The actions of the log ---

/// Whether a field has the given name and a primitive type, and whether it may be null.
pub open spec fn is_primitive(
    field: FieldView,
    name: Seq<char>,
    data_type: PrimitiveType,
    nullable: bool,
) -> bool {
    &&& field.name == name
    &&& field.data_type == DataTypeView::Primitive(data_type)
    &&& field.nullable == nullable
}

/// Whether a field has the given name and is a map from texts to texts, and whether it may be null.
pub open spec fn is_text_map(field: FieldView, name: Seq<char>, nullable: bool) -> bool {
    let text = DataTypeView::Primitive(PrimitiveType::Text);
    &&& field.name == name
    &&& field.data_type == DataTypeView::MapType(Box::new(text), Box::new(text), true)
    &&& field.nullable == nullable
}

/// Whether a field has the given name and is a struct of the given fields, and whether it may be
/// null.
pub open spec fn is_struct(
    field: FieldView,
    name: Seq<char>,
    children: SchemaView,
    nullable: bool,
) -> bool {
    &&& field.name == name
    &&& field.data_type == DataTypeView::Struct(children)
    &&& field.nullable == nullable
}

/// The fields of an add, as it is read: their names and types, each of which may be null.
pub proof fn law_add_fields()
    ensures
        extracted_add_view().len() == 11,
        is_primitive(extracted_add_view()[0], "path"@, PrimitiveType::Text, true),
        is_text_map(extracted_add_view()[1], "partitionValues"@, true),
        is_primitive(extracted_add_view()[2], "size"@, PrimitiveType::Long, true),
        is_primitive(extracted_add_view()[3], "modificationTime"@, PrimitiveType::Long, true),
        is_primitive(extracted_add_view()[4], "dataChange"@, PrimitiveType::Boolean, true),
        is_primitive(extracted_add_view()[5], "stats"@, PrimitiveType::Text, true),
        is_text_map(extracted_add_view()[6], "tags"@, true),
        is_struct(extracted_add_view()[7], "deletionVector"@, deletion_vector_view(), true),
        is_primitive(extracted_add_view()[8], "baseRowId"@, PrimitiveType::Long, true),
        is_primitive(
            extracted_add_view()[9],
            "defaultRowCommitVersion"@,
            PrimitiveType::Long,
            true,
        ),
        is_primitive(extracted_add_view()[10], "clusteringProvider"@, PrimitiveType::Text, true),
{
}

/// The fields of a deletion vector.
pub proof fn law_deletion_vector_fields()
    ensures
        deletion_vector_view().len() == 5,
        is_primitive(deletion_vector_view()[0], "storageType"@, PrimitiveType::Text, false),
        is_primitive(deletion_vector_view()[1], "pathOrInlineDv"@, PrimitiveType::Text, false),
        is_primitive(deletion_vector_view()[2], "offset"@, PrimitiveType::Integer, true),
        is_primitive(deletion_vector_view()[3], "sizeInBytes"@, PrimitiveType::Integer, false),
        is_primitive(deletion_vector_view()[4], "cardinality"@, PrimitiveType::Long, false),
{
}

/// The fields of a remove.
pub proof fn law_remove_fields()
    ensures
        remove_view().len() == 11,
        is_primitive(remove_view()[0], "path"@, PrimitiveType::Text, false),
        is_primitive(remove_view()[1], "deletionTimestamp"@, PrimitiveType::Long, true),
        is_primitive(remove_view()[2], "dataChange"@, PrimitiveType::Boolean, false),
        is_primitive(remove_view()[3], "extendedFileMetadata"@, PrimitiveType::Boolean, true),
        is_text_map(remove_view()[4], "partitionValues"@, true),
        is_primitive(remove_view()[5], "size"@, PrimitiveType::Long, true),
        is_primitive(remove_view()[6], "stats"@, PrimitiveType::Text, true),
        is_text_map(remove_view()[7], "tags"@, true),
        is_struct(remove_view()[8], "deletionVector"@, deletion_vector_view(), true),
        is_primitive(remove_view()[9], "baseRowId"@, PrimitiveType::Long, true),
        is_primitive(remove_view()[10], "defaultRowCommitVersion"@, PrimitiveType::Long, true),
{
}

/// The fields of a sidecar.
pub proof fn law_sidecar_fields()
    ensures
        sidecar_view().len() == 4,
        is_primitive(sidecar_view()[0], "path"@, PrimitiveType::Text, false),
        is_primitive(sidecar_view()[1], "sizeInBytes"@, PrimitiveType::Long, false),
        is_primitive(sidecar_view()[2], "modificationTime"@, PrimitiveType::Long, false),
        is_text_map(sidecar_view()[3], "tags"@, true),
{
}

// --- What is read ---

/// Whether adds hold the fields of an add of the log, then parsed statistics and parsed partition
/// values, each exactly if there is a schema for it, and in that schema.
pub open spec fn are_adds(
    children: SchemaView,
    stats: Option<SchemaView>,
    partitions: Option<SchemaView>,
) -> bool {
    let s = if stats is Some {
        1int
    } else {
        0int
    };
    let p = if partitions is Some {
        1int
    } else {
        0int
    };
    &&& children.len() == 11 + s + p
    &&& forall|i: int| 0 <= i < 11 ==> #[trigger] children[i] == extracted_add_view()[i]
    &&& stats is Some ==> children[11] == (FieldView {
        name: "stats_parsed"@,
        data_type: DataTypeView::Struct(stats->0),
        nullable: true,
    })
    &&& partitions is Some ==> children[11 + s] == (FieldView {
        name: "partitionValues_parsed"@,
        data_type: DataTypeView::Struct(partitions->0),
        nullable: true,
    })
}

/// Whether a field is the one of adds with the given parsed columns.
pub open spec fn is_add_column(
    field: FieldView,
    stats: Option<SchemaView>,
    partitions: Option<SchemaView>,
) -> bool {
    &&& field.name == "add"@
    &&& field.nullable
    &&& field.data_type is Struct
    &&& are_adds(field.data_type->Struct_0, stats, partitions)
}

/// Whether a field is the version column.
pub open spec fn is_version_column(field: FieldView) -> bool {
    field == (FieldView {
        name: "version"@,
        data_type: DataTypeView::Primitive(PrimitiveType::Long),
        nullable: true,
    })
}

/// Commits are read into adds, removes and versions; the leaves of JSON checkpoints into adds and
/// versions; those of Parquet checkpoints into adds with the parsed columns asked for, and
/// versions.
pub proof fn law_read_schemas(stats: Option<SchemaView>, partitions: Option<SchemaView>)
    ensures
        json_read_view(true).len() == 3,
        is_add_column(json_read_view(true)[0], None, None),
        json_read_view(true)[1] == (FieldView {
            name: "remove"@,
            data_type: DataTypeView::Struct(remove_view()),
            nullable: true,
        }),
        is_version_column(json_read_view(true)[2]),
        json_read_view(false).len() == 2,
        is_add_column(json_read_view(false)[0], None, None),
        is_version_column(json_read_view(false)[1]),
        parquet_read_view(stats, partitions).len() == 2,
        is_add_column(parquet_read_view(stats, partitions)[0], stats, partitions),
        is_version_column(parquet_read_view(stats, partitions)[1]),
{
    assert(extracted_add_view() + parsed_fields(None, None) =~= extracted_add_view());
}

/// The normalized adds of a scan have parsed columns exactly for the schemas that the scan has.
pub proof fn law_normalized_add(scan: ScanView)
    ensures
        is_add_column(normalized_add_view(scan), scan.stats_schema, scan.partition_schema),
{
}

/// Manifests are read into sidecars and versions; a probe for sidecars reads nothing else.
pub proof fn law_sidecar_schemas()
    ensures
        sidecar_only_view().len() == 1,
        sidecar_only_view()[0] == (FieldView {
            name: "sidecar"@,
            data_type: DataTypeView::Struct(sidecar_view()),
            nullable: true,
        }),
        sidecar_read_view().len() == 2,
        sidecar_read_view()[0] == sidecar_only_view()[0],
        is_version_column(sidecar_read_view()[1]),
        sidecar_file_meta_view().len() == 5,
        is_primitive(sidecar_file_meta_view()[0], "path"@, PrimitiveType::Text, false),
        is_primitive(sidecar_file_meta_view()[1], "size"@, PrimitiveType::Long, false),
        is_primitive(sidecar_file_meta_view()[2], "num_records"@, PrimitiveType::Long, true),
        is_struct(sidecar_file_meta_view()[3], "dv"@, deletion_vector_view(), true),
        is_version_column(sidecar_file_meta_view()[4]),
{
}

/// The columns that tell adds from removes and that identify files.
pub proof fn law_key_schema()
    ensures
        is_primitive(is_add_field_view(), "is_add"@, PrimitiveType::Boolean, false),
        is_struct(file_action_key_field_view(), "file_action_key"@, key_view(), true),
        key_view().len() == 2,
        is_primitive(key_view()[0], "path"@, PrimitiveType::Text, true),
        key_view()[1].name == "deletionVector"@,
        key_view()[1].nullable,
        key_view()[1].data_type is Struct,
        ({
            let dv = key_view()[1].data_type->Struct_0;
            &&& dv.len() == 3
            &&& is_primitive(dv[0], "storageType"@, PrimitiveType::Text, true)
            &&& is_primitive(dv[1], "pathOrInlineDv"@, PrimitiveType::Text, true)
            &&& is_primitive(dv[2], "offset"@, PrimitiveType::Integer, true)
        }),
{
}

/// The columns of an action that identify its file, and no others.
pub proof fn law_key_paths(path: PathView)
    ensures
        key_path() == seq!["path"@],
        key_dv_path("storageType"@) == seq!["deletionVector"@, "storageType"@],
        key_dv_path("pathOrInlineDv"@) == seq!["deletionVector"@, "pathOrInlineDv"@],
        key_dv_path("offset"@) == seq!["deletionVector"@, "offset"@],
        is_key_path(path) <==> {
            ||| path == seq!["path"@]
            ||| path == seq!["deletionVector"@, "storageType"@]
            ||| path == seq!["deletionVector"@, "pathOrInlineDv"@]
            ||| path == seq!["deletionVector"@, "offset"@]
        },
{
}

/// Adds have a column of a name exactly if the first column named `add` is a struct that has one.
pub proof fn law_add_has(schema: SchemaView, name: Seq<char>)
    ensures
        add_has(schema, name) <==> exists|i: int, children: SchemaView, j: int|
            #![trigger schema[i], children[j]]
            {
                &&& 0 <= i < schema.len()
                &&& schema[i].name == "add"@
                &&& forall|k: int| 0 <= k < i ==> (#[trigger] schema[k]).name != "add"@
                &&& schema[i].data_type == DataTypeView::Struct(children)
                &&& 0 <= j < children.len()
                &&& children[j].name == name
            },
{
    let path = seq!["add"@, name];
    let rest = seq![name];
    assert(path.drop_first() =~= rest);
    law_lookup_by_name(schema, "add"@);
    let p = field_pos(schema, "add"@);
    if has_field(schema, "add"@) {
        if let DataTypeView::Struct(children) = schema[p].data_type {
            law_lookup_by_name(children, name);
            assert(resolve(schema, path) == resolve(children, rest));
            assert(resolve(children, rest) is Some <==> has_field(children, name));
            if has_field(children, name) {
                let j = field_pos(children, name);
                assert(children[j].name == name && schema[p].name == "add"@);
            }
        }
    }
    if exists|i: int, children: SchemaView, j: int|
        #![trigger schema[i], children[j]]
        {
            &&& 0 <= i < schema.len()
            &&& schema[i].name == "add"@
            &&& forall|k: int| 0 <= k < i ==> (#[trigger] schema[k]).name != "add"@
            &&& schema[i].data_type == DataTypeView::Struct(children)
            &&& 0 <= j < children.len()
            &&& children[j].name == name
        } {
        let (i, children, j) = choose|i: int, children: SchemaView, j: int|
            #![trigger schema[i], children[j]]
            {
                &&& 0 <= i < schema.len()
                &&& schema[i].name == "add"@
                &&& forall|k: int| 0 <= k < i ==> (#[trigger] schema[k]).name != "add"@
                &&& schema[i].data_type == DataTypeView::Struct(children)
                &&& 0 <= j < children.len()
                &&& children[j].name == name
            };
        lemma_field_pos(schema, "add"@, i);
        lemma_has_field(children, name, j);
    }
}

/// What is said of columns that are requested and not there.
pub proof fn law_messages()
    ensures
        json_stats_missing()
            == "JSON stats were requested, but add.stats is missing from the metadata schema"@,
        partition_values_missing()
            == "parsed partition values were requested, but add.partitionValues_parsed is missing"@,
{
}

// --- What is returned ---

/// The rows that a scan returns are nothing but adds, of these fields: those of an add of the log
/// in their order, without the JSON statistics unless they are requested; then the parsed
/// statistics and the parsed partition values, each exactly if it is requested and in the schema
/// that was asked for. Partition values are returned exactly if the table has some.
pub proof fn law_returned_fields(scan: ScanView)
    requires
        scan.stats_output_schema is Some ==> scan.stats_schema is Some,
    ensures
        ({
            let schema = output_schema(output_patch(scan, normalized_add_view(scan)));
            let children = schema[0].data_type->Struct_0;
            let json = if scan.synthesize_json {
                1int
            } else {
                0int
            };
            let stats = if scan.stats_output_schema is Some {
                1int
            } else {
                0int
            };
            let partitions = if scan.parsed_partition_values && scan.partition_schema is Some {
                1int
            } else {
                0int
            };
            &&& schema.len() == 1
            &&& schema[0].name == "add"@
            &&& schema[0].nullable
            &&& schema[0].data_type is Struct
            &&& children.len() == 10 + json + stats + partitions
            &&& forall|i: int| 0 <= i < children.len() ==> (#[trigger] children[i]).nullable
            &&& is_primitive(children[0], "path"@, PrimitiveType::Text, true)
            &&& is_text_map(children[1], "partitionValues"@, true)
            &&& is_primitive(children[2], "size"@, PrimitiveType::Long, true)
            &&& is_primitive(children[3], "modificationTime"@, PrimitiveType::Long, true)
            &&& is_primitive(children[4], "dataChange"@, PrimitiveType::Boolean, true)
            &&& json == 1 ==> is_primitive(children[5], "stats"@, PrimitiveType::Text, true)
            &&& is_text_map(children[5 + json], "tags"@, true)
            &&& is_struct(children[6 + json], "deletionVector"@, deletion_vector_view(), true)
            &&& is_primitive(children[7 + json], "baseRowId"@, PrimitiveType::Long, true)
            &&& is_primitive(
                children[8 + json],
                "defaultRowCommitVersion"@,
                PrimitiveType::Long,
                true,
            )
            &&& is_primitive(children[9 + json], "clusteringProvider"@, PrimitiveType::Text, true)
            &&& stats == 1 ==> children[10 + json].name == "stats_parsed"@ && children[10
                + json].data_type == DataTypeView::Struct(scan.stats_output_schema->0)
            &&& partitions == 1 ==> children[10 + json + stats].name == "partitionValues_parsed"@
                && children[10 + json + stats].data_type == DataTypeView::Struct(
                scan.partition_schema->0,
            )
        }),
{
    law_output_schema(scan);
    assert(returned_base(scan).len() == if scan.synthesize_json {
        11int
    } else {
        10int
    });
}

} // verus!
