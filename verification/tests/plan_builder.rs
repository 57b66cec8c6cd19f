//! Relations under construction and edits of projections.

use std::sync::Arc;

use metadata_scan::error::Error;
use metadata_scan::expressions::{lit, null_lit, ColumnName, Expr, Predicate, Scalar};
use metadata_scan::files::{FileMeta, FileType, ScanFile};
use metadata_scan::plan::{Load, MaxNonNullBy, Plan, PlanBuilder};
use metadata_scan::schema::{DataType, PrimitiveType, SchemaRef, StructField, StructType};
use metadata_scan::struct_patch::{ProjectionStructPatchBuilder, SchemaStructPatchBuilder};

fn long(name: &str) -> StructField {
    StructField::nullable(name, DataType::Primitive(PrimitiveType::Long))
}

fn schema(names: &[&str]) -> SchemaRef {
    Arc::new(StructType::new_unchecked(names.iter().map(|name| long(name)).collect()))
}

/// A struct column `s` of the children `a` and `b`, and a column `v`.
fn nested() -> SchemaRef {
    Arc::new(StructType::new_unchecked(vec![
        StructField::not_null("s", DataType::struct_of(vec![long("a"), long("b")])),
        long("v"),
    ]))
}

fn names(schema: &StructType) -> Vec<String> {
    schema.fields().iter().map(|field| field.name().to_string()).collect()
}

fn column(name: &str) -> ColumnName {
    ColumnName::new(&[name])
}

fn one_row(names: &[&str]) -> PlanBuilder {
    let row = names.iter().map(|_| Scalar::Long(1)).collect();
    PlanBuilder::values(schema(names), vec![row]).unwrap()
}

fn no_rows(names: &[&str]) -> PlanBuilder {
    PlanBuilder::values(schema(names), Vec::new()).unwrap()
}

fn file(constants: Vec<Scalar>) -> ScanFile {
    let meta = FileMeta { location: "file:///f".to_string(), last_modified: 0, size: 0 };
    ScanFile { meta, constants }
}

#[test]
fn scan_needs_its_constants() {
    let unknown = PlanBuilder::scan_json(vec![file(vec![Scalar::Long(1)])], &["w"], schema(&["v"]));
    assert!(matches!(unknown, Err(Error::UnknownColumn)));
    let too_few = PlanBuilder::scan_parquet(vec![file(Vec::new())], &["v"], schema(&["v"]));
    assert!(matches!(too_few, Err(Error::ArityMismatch)));
    let nothing = PlanBuilder::scan_json(Vec::new(), &["v"], schema(&["v"])).unwrap();
    assert!(nothing.plan.is_none());
    let files = vec![file(vec![Scalar::Long(1)])];
    let some = PlanBuilder::scan_parquet(files, &["v"], schema(&["v"])).unwrap().build().unwrap();
    assert_eq!(
        *some,
        Plan::Scan {
            file_type: FileType::Parquet,
            files: vec![file(vec![Scalar::Long(1)])],
            constants: vec!["v".to_string()],
            schema: schema(&["v"]),
        }
    );
}

#[test]
fn values_fill_their_schema() {
    let ragged = PlanBuilder::values(schema(&["v"]), vec![Vec::new()]);
    assert!(matches!(ragged, Err(Error::ArityMismatch)));
    assert!(no_rows(&["v"]).plan.is_none());
    assert!(one_row(&["v"]).plan.is_some());
}

#[test]
fn empty_relation_stays_empty() {
    let empty = no_rows(&["k", "v"]);
    assert!(empty.copy().filter(Expr::column(&["v"]).is_null()).plan.is_none());
    let expr = Arc::new(Expr::struct_from(vec![lit(true)]));
    assert!(empty.copy().project(expr, schema(&["x"])).unwrap().plan.is_none());
    assert!(empty.copy().aggregate_by(vec![column("k")], Vec::new()).unwrap().plan.is_none());
    let joined = empty.copy().anti_join(one_row(&["k"]), vec![column("k")], vec![column("k")]);
    assert!(joined.unwrap().plan.is_none());
    assert!(matches!(empty.copy().build(), Err(Error::EmptyPlan)));
    assert!(empty.build_opt().is_none());
}

#[test]
fn projection_is_a_struct_of_its_schema() {
    let short = Arc::new(Expr::struct_from(vec![lit(true)]));
    let mismatch = one_row(&["v"]).project(short, schema(&["x", "y"]));
    assert!(matches!(mismatch, Err(Error::ArityMismatch)));
    let scalar = one_row(&["v"]).project(Arc::new(lit(true)), schema(&["x"]));
    assert!(matches!(scalar, Err(Error::ArityMismatch)));
}

#[test]
fn aggregation_has_keys_and_values() {
    let newest = |value: &str, witness: &str, order: &str| MaxNonNullBy {
        value: column(value),
        witness: column(witness),
        order: column(order),
    };
    let rows = || one_row(&["k", "v", "o"]);
    let grouped = rows().aggregate_by(vec![column("k")], vec![newest("v", "k", "o")]).unwrap();
    assert_eq!(names(&grouped.schema), vec!["k", "v"]);
    let no_key = rows().aggregate_by(vec![column("x")], Vec::new());
    assert!(matches!(no_key, Err(Error::UnknownColumn)));
    for missing in [newest("x", "k", "o"), newest("v", "x", "o"), newest("v", "k", "x")] {
        let failed = rows().aggregate_by(vec![column("k")], vec![missing]);
        assert!(matches!(failed, Err(Error::UnknownColumn)));
    }
}

#[test]
fn anti_join_with_nothing_keeps_everything() {
    let rows = one_row(&["k"]);
    let kept = rows.copy().anti_join(no_rows(&["k"]), vec![column("k")], vec![column("k")]);
    assert_eq!(kept.unwrap().plan, rows.plan);
    let uneven = one_row(&["k"]).anti_join(one_row(&["k"]), vec![column("k")], Vec::new());
    assert!(matches!(uneven, Err(Error::ArityMismatch)));
    let unknown = one_row(&["k"]).anti_join(one_row(&["k"]), vec![column("k")], vec![column("x")]);
    assert!(matches!(unknown, Err(Error::UnknownColumn)));
}

#[test]
fn union_leaves_out_empty_relations() {
    assert!(matches!(PlanBuilder::union_all(Vec::new()), Err(Error::EmptyPlan)));
    let differ = PlanBuilder::union_all(vec![one_row(&["a"]), one_row(&["b"])]);
    assert!(matches!(differ, Err(Error::SchemaMismatch)));
    let none = PlanBuilder::union_all(vec![no_rows(&["a"]), no_rows(&["a"])]).unwrap();
    assert!(none.plan.is_none());
    let one = PlanBuilder::union_all(vec![no_rows(&["a"]), one_row(&["a"])]).unwrap();
    assert_eq!(one.plan, one_row(&["a"]).plan);
    let two = PlanBuilder::union_all(vec![one_row(&["a"]), one_row(&["a"])]).unwrap();
    let plan = two.build().unwrap();
    let Plan::UnionAll { inputs } = plan.as_ref() else { panic!("two relations are united") };
    assert_eq!(inputs.len(), 2);
}

#[test]
fn load_needs_its_columns() {
    let load = |path: &str, constant: &str| Load {
        schema: schema(&["v", "x"]),
        file_type: FileType::Parquet,
        path: column(path),
        size: column("v"),
        num_records: column("v"),
        deletion_vector: column("v"),
        base_url: "file:///".to_string(),
        constants: vec![constant.to_string()],
    };
    let loaded = one_row(&["v", "w"]).load(load("v", "v")).unwrap();
    assert_eq!(names(&loaded.schema), vec!["v", "x"]);
    assert!(matches!(one_row(&["v", "w"]).load(load("z", "v")), Err(Error::UnknownColumn)));
    assert!(matches!(one_row(&["v", "w"]).load(load("v", "w")), Err(Error::UnknownColumn)));
    assert!(matches!(one_row(&["v", "w"]).load(load("v", "x")), Err(Error::UnknownColumn)));
}

#[test]
fn schema_patch_appends_new_names_only() {
    let appended = SchemaStructPatchBuilder::new().append(long("b")).build(&schema(&["a"]));
    assert_eq!(names(&appended.unwrap()), vec!["a", "b"]);
    let twice = SchemaStructPatchBuilder::new().append(long("b")).append(long("b"));
    assert!(matches!(twice.build(&schema(&["a"])), Err(Error::DuplicateColumn)));
    let there = SchemaStructPatchBuilder::new().append(long("a")).build(&schema(&["a"]));
    assert!(matches!(there, Err(Error::DuplicateColumn)));
}

#[test]
fn projection_patch_edits_columns() {
    let input = schema(&["a", "b", "c"]);
    let (out, expr) = ProjectionStructPatchBuilder::new(&input)
        .without("a")
        .replace("b", long("b2"), lit(true))
        .append(long("d"), lit(false))
        .build()
        .unwrap();
    assert_eq!(names(&out), vec!["b2", "c", "d"]);
    assert_eq!(
        expr,
        Expr::Struct(vec![lit(true), Expr::column(&["c"]), lit(false)], None)
    );
    let patch = || ProjectionStructPatchBuilder::new(&input);
    assert!(matches!(patch().without("x").build(), Err(Error::UnknownColumn)));
    assert!(matches!(
        patch().replace("x", long("x"), lit(true)).build(),
        Err(Error::UnknownColumn)
    ));
    assert!(matches!(
        patch().append(long("a"), lit(true)).build(),
        Err(Error::DuplicateColumn)
    ));
    assert!(matches!(
        patch().without("x").append(long("a"), lit(true)).build(),
        Err(Error::UnknownColumn)
    ));
}

#[test]
fn projection_patch_edits_children_and_keeps_nulls() {
    let input = nested();
    let (out, expr) = ProjectionStructPatchBuilder::new(&input)
        .append_at("s", long("c"), lit(true))
        .replace_at("s", "a", long("a"), lit(false))
        .build()
        .unwrap();
    let DataType::Struct(children) = out.fields()[0].data_type() else {
        panic!("s stays a struct")
    };
    assert_eq!(names(children), vec!["a", "b", "c"]);
    assert!(!out.fields()[0].is_nullable());
    let present = Expr::from_pred(Expr::column(&["s"]).is_not_null());
    let whole = Expr::struct_with_nullability_from(
        vec![lit(false), Expr::column(&["s", "b"]), lit(true)],
        present,
    );
    assert_eq!(expr, Expr::struct_from(vec![whole, Expr::column(&["v"])]));
    let patch = || ProjectionStructPatchBuilder::new(&input);
    assert!(matches!(
        patch().append_at("x", long("c"), lit(true)).build(),
        Err(Error::UnknownColumn)
    ));
    assert!(matches!(
        patch().append_at("v", long("c"), lit(true)).build(),
        Err(Error::UnknownColumn)
    ));
    assert!(matches!(
        patch().append_at("s", long("a"), lit(true)).build(),
        Err(Error::DuplicateColumn)
    ));
    assert!(matches!(
        patch().replace_at("s", "x", long("x"), lit(true)).build(),
        Err(Error::UnknownColumn)
    ));
    let (out, expr) = patch().without_at("s", "a").build().unwrap();
    let DataType::Struct(left) = out.fields()[0].data_type() else { panic!("s stays a struct") };
    assert_eq!(names(left), vec!["b"]);
    let present = Expr::from_pred(Expr::column(&["s"]).is_not_null());
    let whole = Expr::struct_with_nullability_from(vec![Expr::column(&["s", "b"])], present);
    assert_eq!(expr, Expr::struct_from(vec![whole, Expr::column(&["v"])]));
    assert!(matches!(patch().without_at("s", "x").build(), Err(Error::UnknownColumn)));
    assert!(matches!(patch().without_at("x", "a").build(), Err(Error::UnknownColumn)));
}

#[test]
fn nested_projection_is_null_where_the_struct_is() {
    let input = nested();
    let (out, expr) =
        ProjectionStructPatchBuilder::new_nested(&input, column("s")).without("a").build().unwrap();
    assert_eq!(names(&out), vec!["b"]);
    let present = Expr::from_pred(Expr::column(&["s"]).is_not_null());
    assert_eq!(
        expr,
        Expr::struct_with_nullability_from(vec![Expr::column(&["s", "b"])], present)
    );
    let (top, all) =
        ProjectionStructPatchBuilder::new_nested(&input, ColumnName::new(&[])).build().unwrap();
    assert_eq!(names(&top), vec!["s", "v"]);
    assert_eq!(all, Expr::struct_from(vec![Expr::column(&["s"]), Expr::column(&["v"])]));
    let no_struct = ProjectionStructPatchBuilder::new_nested(&input, column("v")).build();
    assert!(matches!(no_struct, Err(Error::UnknownColumn)));
}

#[test]
fn columns_are_found_through_structs() {
    let input = nested();
    assert!(input.contains_col(&ColumnName::new(&["s", "b"])));
    assert!(!input.contains_col(&ColumnName::new(&["s", "c"])));
    assert!(!input.contains_col(&ColumnName::new(&["v", "b"])));
    assert!(!input.contains_col(&ColumnName::new(&[])));
    assert_eq!(input.index_of("v"), Some(1));
    assert_eq!(input.index_of("w"), None);
}

#[test]
fn constants_and_predicates_are_what_they_are_called() {
    let typed = null_lit(DataType::Primitive(PrimitiveType::Text));
    assert_eq!(typed, Expr::Literal(Scalar::Null(DataType::Primitive(PrimitiveType::Text))));
    let a = Expr::column(&["a"]).is_null();
    let b = Expr::column(&["b"]).is_not_null();
    let either = Predicate::or(a.copy(), b.copy());
    assert_eq!(either.copy(), either);
    assert_eq!(
        Expr::column(&["b"]).is_not_null(),
        Predicate::Not(Box::new(Expr::column(&["b"]).is_null()))
    );
}
