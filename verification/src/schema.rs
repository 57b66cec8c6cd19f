//! Column types and schemas.

use std::sync::Arc;

use vstd::prelude::*;

use crate::expressions::{strings_view, ColumnName};

verus! {

/// A type whose values hold no other values.
#[derive(Debug, Clone, Copy, PartialEq, Eq, Structural)]
pub enum PrimitiveType {
    Text,
    Long,
    Integer,
    Short,
    Byte,
    Float,
    Double,
    Boolean,
    Binary,
    Date,
    Timestamp,
    TimestampNtz,
    Decimal(u8, u8),
}

/// The type of a column.
#[derive(Debug, PartialEq)]
pub enum DataType {
    Primitive(PrimitiveType),
    Struct(SchemaRef),
    /// The element type, and whether an element may be null.
    ArrayType(Arc<DataType>, bool),
    /// The key type, the value type, and whether a value may be null.
    MapType(Arc<DataType>, Arc<DataType>, bool),
}

/// A named, typed column or struct child.
#[derive(Debug, PartialEq)]
pub struct StructField {
    pub name: String,
    pub data_type: DataType,
    pub nullable: bool,
}

/// An ordered list of fields: the type of a struct, or the schema of a relation.
#[derive(Debug, PartialEq)]
pub struct StructType {
    pub fields: Vec<StructField>,
}

/// A shared schema.
pub type SchemaRef = Arc<StructType>;

/// A column type as a mathematical value.
pub enum DataTypeView {
    Primitive(PrimitiveType),
    Struct(Seq<FieldView>),
    ArrayType(Box<DataTypeView>, bool),
    MapType(Box<DataTypeView>, Box<DataTypeView>, bool),
}

/// A field as a mathematical value.
pub struct FieldView {
    pub name: Seq<char>,
    pub data_type: DataTypeView,
    pub nullable: bool,
}

/// A schema as a mathematical value.
pub type SchemaView = Seq<FieldView>;

// --- Lookup by name ---

/// Whether `i` is the first field of the schema with the given name.
pub open spec fn is_field_at(schema: SchemaView, name: Seq<char>, i: int) -> bool {
    &&& 0 <= i < schema.len()
    &&& schema[i].name == name
    &&& forall|j: int| 0 <= j < i ==> (#[trigger] schema[j]).name != name
}

/// Whether the schema has a field of the given name.
pub open spec fn has_field(schema: SchemaView, name: Seq<char>) -> bool {
    exists|i: int| is_field_at(schema, name, i)
}

/// The position of the first field of the given name.
pub open spec fn field_pos(schema: SchemaView, name: Seq<char>) -> int {
    choose|i: int| is_field_at(schema, name, i)
}

/// Whether no two fields of the schema share a name.
pub open spec fn distinct_names(schema: SchemaView) -> bool {
    forall|i: int, j: int|
        0 <= i < j < schema.len() ==> (#[trigger] schema[i]).name != (#[trigger] schema[j]).name
}

/// The field that a path of names leads to, through nested structs.
pub open spec fn resolve(schema: SchemaView, path: Seq<Seq<char>>) -> Option<FieldView>
    decreases path.len(),
{
    if path.len() == 0 || !has_field(schema, path[0]) {
        None
    } else {
        let field = schema[field_pos(schema, path[0])];
        if path.len() == 1 {
            Some(field)
        } else {
            match field.data_type {
                DataTypeView::Struct(children) => resolve(children, path.drop_first()),
                _ => None,
            }
        }
    }
}

/// A field that is the first of its name is where lookup by that name arrives.
pub proof fn lemma_field_pos(schema: SchemaView, name: Seq<char>, i: int)
    requires
        is_field_at(schema, name, i),
    ensures
        has_field(schema, name),
        field_pos(schema, name) == i,
{
    let p = field_pos(schema, name);
    assert(is_field_at(schema, name, p));
    if p < i {
        assert(schema[p].name != name);
    } else if i < p {
        assert(schema[i].name != name);
    }
}

/// A field of the given name anywhere in the schema makes lookup succeed.
pub proof fn lemma_has_field(schema: SchemaView, name: Seq<char>, i: int)
    requires
        0 <= i < schema.len(),
        schema[i].name == name,
    ensures
        has_field(schema, name),
        is_field_at(schema, name, field_pos(schema, name)),
    decreases i,
{
    if exists|j: int| 0 <= j < i && (#[trigger] schema[j]).name == name {
        let j = choose|j: int| 0 <= j < i && (#[trigger] schema[j]).name == name;
        lemma_has_field(schema, name, j);
    } else {
        assert(is_field_at(schema, name, i));
    }
}

/// Without duplicate names, lookup finds every field where it stands.
pub proof fn lemma_distinct_field_pos(schema: SchemaView, i: int)
    requires
        distinct_names(schema),
        0 <= i < schema.len(),
    ensures
        has_field(schema, schema[i].name),
        field_pos(schema, schema[i].name) == i,
{
    assert(is_field_at(schema, schema[i].name, i));
    lemma_field_pos(schema, schema[i].name, i);
}

/// A field that may be null.
pub open spec fn nullable_field(name: Seq<char>, data_type: DataTypeView) -> FieldView {
    FieldView { name, data_type, nullable: true }
}

/// A field that is never null.
pub open spec fn required_field(name: Seq<char>, data_type: DataTypeView) -> FieldView {
    FieldView { name, data_type, nullable: false }
}

/// The type of text columns.
pub open spec fn text_type() -> DataTypeView {
    DataTypeView::Primitive(PrimitiveType::Text)
}

/// The type of 64-bit integer columns.
pub open spec fn long_type() -> DataTypeView {
    DataTypeView::Primitive(PrimitiveType::Long)
}

/// The type of 32-bit integer columns.
pub open spec fn integer_type() -> DataTypeView {
    DataTypeView::Primitive(PrimitiveType::Integer)
}

/// The type of truth-valued columns.
pub open spec fn boolean_type() -> DataTypeView {
    DataTypeView::Primitive(PrimitiveType::Boolean)
}

/// The type of maps from texts to texts or nulls.
pub open spec fn text_map_type() -> DataTypeView {
    DataTypeView::MapType(Box::new(text_type()), Box::new(text_type()), true)
}

// --- Views ---

impl DataType {
    pub open spec fn view(&self) -> DataTypeView
        decreases self,
    {
        match self {
            DataType::Primitive(p) => DataTypeView::Primitive(*p),
            DataType::Struct(s) => DataTypeView::Struct(s.view()),
            DataType::ArrayType(e, n) => DataTypeView::ArrayType(Box::new(e.view()), *n),
            DataType::MapType(k, v, n) => DataTypeView::MapType(
                Box::new(k.view()),
                Box::new(v.view()),
                *n,
            ),
        }
    }
}

impl StructField {
    pub open spec fn view(&self) -> FieldView
        decreases self,
    {
        FieldView { name: self.name@, data_type: self.data_type.view(), nullable: self.nullable }
    }
}

impl StructType {
    pub open spec fn view(&self) -> SchemaView
        decreases self,
    {
        Seq::new(
            self.fields@.len(),
            |i: int|
                if 0 <= i < self.fields@.len() {
                    self.fields@[i].view()
                } else {
                    arbitrary()
                },
        )
    }
}

/// The view of an optional schema.
pub open spec fn opt_schema_view(schema: Option<SchemaRef>) -> Option<SchemaView> {
    match schema {
        Some(s) => Some(s.view()),
        None => None,
    }
}

/// A second handle on a shared value: `Arc::clone`, which points at the same value.
#[verifier::external_body]
pub(crate) fn share<T>(shared: &Arc<T>) -> (r: Arc<T>)
    ensures
        r == *shared,
{
    Arc::clone(shared)
}

// --- Operations ---

impl DataType {
    /// A copy of the type; nested types are shared.
    pub fn copy(&self) -> (r: DataType)
        ensures
            r@ == self@,
    {
        match self {
            DataType::Primitive(p) => DataType::Primitive(*p),
            DataType::Struct(s) => DataType::Struct(share(s)),
            DataType::ArrayType(e, n) => DataType::ArrayType(share(e), *n),
            DataType::MapType(k, v, n) => DataType::MapType(share(k), share(v), *n),
        }
    }

    /// A struct of the given fields.
    pub fn struct_of(fields: Vec<StructField>) -> (r: DataType)
        ensures
            r@ == DataTypeView::Struct(fields_view(fields@)),
    {
        let schema = StructType::new_unchecked(fields);
        DataType::Struct(Arc::new(schema))
    }

    /// A map from texts to texts or nulls.
    pub fn text_map() -> (r: DataType)
        ensures
            r@ == text_map_type(),
    {
        let key = DataType::Primitive(PrimitiveType::Text);
        let value = DataType::Primitive(PrimitiveType::Text);
        assert(key@ == text_type() && value@ == text_type());
        DataType::MapType(Arc::new(key), Arc::new(value), true)
    }

    /// Whether two types are the same, nested fields and nullability counted.
    pub fn same(&self, other: &DataType) -> (r: bool)
        ensures
            r == (self@ == other@),
        decreases self,
    {
        match (self, other) {
            (DataType::Primitive(p), DataType::Primitive(q)) => *p == *q,
            (DataType::Struct(s), DataType::Struct(t)) => s.same(t),
            (DataType::ArrayType(e, n), DataType::ArrayType(f, m)) => *n == *m && e.same(f),
            (DataType::MapType(k, v, n), DataType::MapType(l, w, m)) => *n == *m && k.same(l)
                && v.same(w),
            _ => false,
        }
    }
}

impl StructField {
    /// A field that may be null.
    pub fn nullable(name: &str, data_type: DataType) -> (r: StructField)
        ensures
            r@ == (FieldView { name: name@, data_type: data_type@, nullable: true }),
    {
        StructField { name: name.to_owned(), data_type, nullable: true }
    }

    /// A field that is never null.
    pub fn not_null(name: &str, data_type: DataType) -> (r: StructField)
        ensures
            r@ == (FieldView { name: name@, data_type: data_type@, nullable: false }),
    {
        StructField { name: name.to_owned(), data_type, nullable: false }
    }

    /// A copy of the field.
    pub fn copy(&self) -> (r: StructField)
        ensures
            r@ == self@,
    {
        StructField {
            name: self.name.clone(),
            data_type: self.data_type.copy(),
            nullable: self.nullable,
        }
    }

    pub fn name(&self) -> (r: &String)
        ensures
            r@ == self@.name,
    {
        &self.name
    }

    pub fn data_type(&self) -> (r: &DataType)
        ensures
            r@ == self@.data_type,
    {
        &self.data_type
    }

    pub fn is_nullable(&self) -> (r: bool)
        ensures
            r == self@.nullable,
    {
        self.nullable
    }

    /// Whether two fields agree in name, type and nullability.
    pub fn same(&self, other: &StructField) -> (r: bool)
        ensures
            r == (self@ == other@),
        decreases self,
    {
        self.nullable == other.nullable && self.name == other.name && self.data_type.same(
            &other.data_type,
        )
    }
}

impl StructType {
    /// A schema of the given fields, in order; names are not checked for duplicates.
    pub fn new_unchecked(fields: Vec<StructField>) -> (r: StructType)
        ensures
            r@ == fields_view(fields@),
    {
        StructType { fields }
    }

    pub fn fields(&self) -> (r: &Vec<StructField>)
        ensures
            fields_view(r@) == self@,
    {
        &self.fields
    }

    /// Whether two schemas have the same fields in the same order.
    pub fn same(&self, other: &StructType) -> (r: bool)
        ensures
            r == (self@ == other@),
        decreases self,
    {
        if self.fields.len() != other.fields.len() {
            assert(self@.len() != other@.len());
            return false;
        }
        let mut i: usize = 0;
        while i < self.fields.len()
            invariant
                i <= self.fields.len(),
                self.fields.len() == other.fields.len(),
                forall|j: int| 0 <= j < i ==> self@[j] == other@[j],
            decreases self.fields.len() - i,
        {
            assert(decreases_to!(self => self.fields@[i as int]));
            if !self.fields[i].same(&other.fields[i]) {
                assert(self@[i as int] != other@[i as int]);
                return false;
            }
            i = i + 1;
        }
        assert(self@ =~= other@);
        true
    }

    /// The first field of the given name.
    pub fn field(&self, name: &str) -> (r: Option<&StructField>)
        ensures
            r is Some <==> has_field(self@, name@),
            r matches Some(f) ==> f@ == self@[field_pos(self@, name@)],
    {
        match self.index_of(name) {
            Some(i) => Some(&self.fields[i]),
            None => None,
        }
    }

    /// The position of the first field of the given name.
    pub fn index_of(&self, name: &str) -> (r: Option<usize>)
        ensures
            r is Some <==> has_field(self@, name@),
            r matches Some(i) ==> is_field_at(self@, name@, i as int) && i == field_pos(
                self@,
                name@,
            ),
    {
        let wanted = name.to_owned();
        let mut i: usize = 0;
        while i < self.fields.len()
            invariant
                i <= self.fields.len(),
                wanted@ == name@,
                forall|j: int| 0 <= j < i ==> (#[trigger] self@[j]).name != name@,
            decreases self.fields.len() - i,
        {
            if self.fields[i].name == wanted {
                proof {
                    assert(is_field_at(self@, name@, i as int));
                    lemma_field_pos(self@, name@, i as int);
                }
                return Some(i);
            }
            i = i + 1;
        }
        None
    }

    /// The field that the names of a path from a position on lead to.
    fn resolve_from(&self, path: &Vec<String>, from: usize) -> (r: Option<&StructField>)
        requires
            from <= path.len(),
        ensures
            r is Some <==> resolve(self@, strings_view(path@).skip(from as int)) is Some,
            r matches Some(f) ==> resolve(self@, strings_view(path@).skip(from as int)) == Some(f@),
        decreases path.len() - from,
    {
        let ghost rest = strings_view(path@).skip(from as int);
        if from == path.len() {
            return None;
        }
        assert(rest[0] == path@[from as int]@);
        match self.index_of(path[from].as_str()) {
            None => None,
            Some(i) => {
                if from + 1 == path.len() {
                    assert(rest.len() == 1);
                    Some(&self.fields[i])
                } else {
                    assert(rest.drop_first() =~= strings_view(path@).skip(from + 1));
                    match &self.fields[i].data_type {
                        DataType::Struct(children) => children.resolve_from(path, from + 1),
                        _ => None,
                    }
                }
            },
        }
    }

    /// The field that a column path leads to, through nested structs.
    pub fn resolve(&self, column: &ColumnName) -> (r: Option<&StructField>)
        ensures
            r is Some <==> resolve(self@, column@) is Some,
            r matches Some(f) ==> resolve(self@, column@) == Some(f@),
    {
        assert(strings_view(column.path@).skip(0) =~= column@);
        self.resolve_from(&column.path, 0)
    }

    /// Whether a column path leads to a field.
    pub fn contains_col(&self, column: &ColumnName) -> (r: bool)
        ensures
            r == resolve(self@, column@) is Some,
    {
        self.resolve(column).is_some()
    }

    /// Whether the schema has a field of the given name.
    pub fn contains(&self, name: &str) -> (r: bool)
        ensures
            r == has_field(self@, name@),
    {
        self.index_of(name).is_some()
    }
}

/// The views of a sequence of fields.
pub open spec fn fields_view(fields: Seq<StructField>) -> SchemaView {
    Seq::new(fields.len(), |i: int| fields[i]@)
}

} // verus!
