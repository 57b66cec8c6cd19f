//! Edits of a schema, and edits of a schema together with the expressions that compute it.

use std::sync::Arc;

use vstd::prelude::*;

use crate::error::Error;
use crate::expressions::{exprs_view, ColumnName, Expr, ExprView, PathView};
use crate::schema::{
    field_pos, fields_view, has_field, is_field_at, lemma_field_pos, resolve, share, DataType,
    DataTypeView, FieldView, SchemaRef, SchemaView, StructField, StructType,
};

verus! {

// --- Edits of a schema ---

/// Whether fields can be appended to a schema one by one without repeating a name.
pub open spec fn appendable(schema: SchemaView, fields: SchemaView) -> bool {
    forall|i: int|
        0 <= i < fields.len() ==> !has_field(schema + fields.take(i), (#[trigger] fields[i]).name)
}

/// Fields to append to a schema.
#[derive(Debug)]
pub struct SchemaStructPatchBuilder {
    pub appended: Vec<StructField>,
}

impl View for SchemaStructPatchBuilder {
    type V = SchemaView;

    open spec fn view(&self) -> SchemaView {
        fields_view(self.appended@)
    }
}

impl SchemaStructPatchBuilder {
    /// The patch that changes nothing.
    pub fn new() -> (r: SchemaStructPatchBuilder)
        ensures
            r@ == Seq::<FieldView>::empty(),
    {
        let r = SchemaStructPatchBuilder { appended: Vec::new() };
        assert(r@ =~= Seq::<FieldView>::empty());
        r
    }

    /// This patch with one more field at the end.
    pub fn append(self, field: StructField) -> (r: SchemaStructPatchBuilder)
        ensures
            r@ == self@.push(field@),
    {
        let mut appended = self.appended;
        appended.push(field);
        let r = SchemaStructPatchBuilder { appended };
        assert(r@ =~= self@.push(field@));
        r
    }

    /// The patched schema.
    pub fn build(self, schema: &StructType) -> (r: Result<StructType, Error>)
        ensures
            r is Ok <==> appendable(schema@, self@),
            r matches Ok(s) ==> s@ == schema@ + self@,
            r matches Err(e) ==> e == Error::DuplicateColumn,
    {
        let mut out = StructType::new_unchecked(copy_fields(&schema.fields));
        let mut i: usize = 0;
        assert(schema@ + self@.take(0) =~= schema@);
        while i < self.appended.len()
            invariant
                i <= self.appended.len(),
                out@ == schema@ + self@.take(i as int),
                forall|j: int|
                    0 <= j < i ==> !has_field(schema@ + self@.take(j), (#[trigger] self@[j]).name),
            decreases self.appended.len() - i,
        {
            if out.contains(self.appended[i].name.as_str()) {
                assert(has_field(schema@ + self@.take(i as int), self@[i as int].name));
                return Err(Error::DuplicateColumn);
            }
            let ghost before = out@;
            let mut fields = out.fields;
            fields.push(self.appended[i].copy());
            out = StructType { fields };
            assert(out@ =~= before.push(self@[i as int]));
            assert(schema@ + self@.take(i + 1) =~= before.push(self@[i as int]));
            i = i + 1;
        }
        assert(self@.take(i as int) =~= self@);
        Ok(out)
    }
}

/// A copy of the fields.
pub fn copy_fields(fields: &Vec<StructField>) -> (r: Vec<StructField>)
    ensures
        fields_view(r@) == fields_view(fields@),
{
    let mut out: Vec<StructField> = Vec::new();
    let mut i: usize = 0;
    while i < fields.len()
        invariant
            i <= fields.len(),
            out.len() == i,
            forall|j: int| 0 <= j < i ==> (#[trigger] out@[j])@ == fields@[j]@,
        decreases fields.len() - i,
    {
        out.push(fields[i].copy());
        i = i + 1;
    }
    assert(fields_view(out@) =~= fields_view(fields@));
    out
}

// --- Edits of a projection ---

/// One column of a projection: the field it fills and the expression that computes it.
#[derive(Debug)]
pub struct Slot {
    pub field: StructField,
    pub expr: Expr,
}

/// One column of a projection as a mathematical value.
pub struct SlotView {
    pub field: FieldView,
    pub expr: ExprView,
}

impl View for Slot {
    type V = SlotView;

    open spec fn view(&self) -> SlotView {
        SlotView { field: self.field@, expr: self.expr@ }
    }
}

/// The views of a sequence of columns.
pub open spec fn slots_view(slots: Seq<Slot>) -> Seq<SlotView> {
    Seq::new(slots.len(), |i: int| slots[i]@)
}

/// The schema that columns fill.
pub open spec fn slot_fields(slots: Seq<SlotView>) -> SchemaView {
    Seq::new(slots.len(), |i: int| slots[i].field)
}

/// The expressions that compute columns.
pub open spec fn slot_exprs(slots: Seq<SlotView>) -> Seq<ExprView> {
    Seq::new(slots.len(), |i: int| slots[i].expr)
}

/// The columns that read the given children of the struct at a path.
pub open spec fn kept_slots(path: PathView, children: SchemaView) -> Seq<SlotView> {
    Seq::new(
        children.len(),
        |i: int|
            SlotView { field: children[i], expr: ExprView::Column(path.push(children[i].name)) },
    )
}

/// The columns after one more was appended.
pub open spec fn append_slot(slots: Seq<SlotView>, slot: SlotView) -> Result<Seq<SlotView>, Error> {
    if has_field(slot_fields(slots), slot.field.name) {
        Err(Error::DuplicateColumn)
    } else {
        Ok(slots.push(slot))
    }
}

/// The columns after the one of the given name was replaced.
pub open spec fn replace_slot(slots: Seq<SlotView>, name: Seq<char>, slot: SlotView) -> Result<
    Seq<SlotView>,
    Error,
> {
    if has_field(slot_fields(slots), name) {
        Ok(slots.update(field_pos(slot_fields(slots), name), slot))
    } else {
        Err(Error::UnknownColumn)
    }
}

/// The columns after the one of the given name was dropped.
pub open spec fn drop_slot(slots: Seq<SlotView>, name: Seq<char>) -> Result<Seq<SlotView>, Error> {
    if has_field(slot_fields(slots), name) {
        Ok(slots.remove(field_pos(slot_fields(slots), name)))
    } else {
        Err(Error::UnknownColumn)
    }
}

/// The children of a struct column as columns of their own, and the condition under which the
/// struct is not null. A column that is read as a whole falls apart into its children; it stays
/// null where it was.
pub open spec fn open_slot(slot: SlotView) -> Option<(Seq<SlotView>, Option<Box<ExprView>>)> {
    match (slot.field.data_type, slot.expr) {
        (DataTypeView::Struct(children), ExprView::Column(path)) => Some(
            (
                kept_slots(path, children),
                Some(Box::new(ExprView::Column(path).is_not_null().as_expr())),
            ),
        ),
        (
            DataTypeView::Struct(children),
            ExprView::Struct(exprs, present),
        ) if children.len() == exprs.len() => Some(
            (
                Seq::new(
                    children.len(),
                    |i: int| SlotView { field: children[i], expr: exprs[i] },
                ),
                present,
            ),
        ),
        _ => None,
    }
}

/// A struct column made of the given children.
pub open spec fn close_slot(
    field: FieldView,
    children: Seq<SlotView>,
    present: Option<Box<ExprView>>,
) -> SlotView {
    SlotView {
        field: FieldView { data_type: DataTypeView::Struct(slot_fields(children)), ..field },
        expr: ExprView::Struct(slot_exprs(children), present),
    }
}

/// The columns after the children of one struct column were edited.
pub open spec fn edit_children(
    slots: Seq<SlotView>,
    name: Seq<char>,
    edit: spec_fn(Seq<SlotView>) -> Result<Seq<SlotView>, Error>,
) -> Result<Seq<SlotView>, Error> {
    if !has_field(slot_fields(slots), name) {
        Err(Error::UnknownColumn)
    } else {
        let i = field_pos(slot_fields(slots), name);
        match open_slot(slots[i]) {
            None => Err(Error::UnknownColumn),
            Some((children, present)) => match edit(children) {
                Err(e) => Err(e),
                Ok(edited) => Ok(slots.update(i, close_slot(slots[i].field, edited, present))),
            },
        }
    }
}

/// The fields of the struct at a path; of the schema itself at the empty path.
pub open spec fn struct_at(schema: SchemaView, path: PathView) -> Option<SchemaView> {
    if path.len() == 0 {
        Some(schema)
    } else {
        match resolve(schema, path) {
            Some(field) => match field.data_type {
                DataTypeView::Struct(children) => Some(children),
                _ => None,
            },
            None => None,
        }
    }
}

/// A projection under construction, as a mathematical value: the columns so far, or why an edit
/// could not be made.
pub struct PatchView {
    pub input_schema: SchemaView,
    pub root: PathView,
    pub slots: Result<Seq<SlotView>, Error>,
}

impl PatchView {
    /// The projection that keeps the struct at a path as it is.
    pub open spec fn start(schema: SchemaView, root: PathView) -> PatchView {
        PatchView {
            input_schema: schema,
            root,
            slots: match struct_at(schema, root) {
                Some(children) => Ok(kept_slots(root, children)),
                None => Err(Error::UnknownColumn),
            },
        }
    }

    /// This projection after an edit of its columns; a failed projection stays as it is.
    pub open spec fn edited(
        self,
        edit: spec_fn(Seq<SlotView>) -> Result<Seq<SlotView>, Error>,
    ) -> PatchView {
        match self.slots {
            Ok(slots) => PatchView { slots: edit(slots), ..self },
            Err(_) => self,
        }
    }

    /// One more column at the end.
    pub open spec fn append(self, field: FieldView, expr: ExprView) -> PatchView {
        self.edited(|slots: Seq<SlotView>| append_slot(slots, SlotView { field, expr }))
    }

    /// Another column in the place of one.
    pub open spec fn replace(self, name: Seq<char>, field: FieldView, expr: ExprView) -> PatchView {
        self.edited(|slots: Seq<SlotView>| replace_slot(slots, name, SlotView { field, expr }))
    }

    /// One column less.
    pub open spec fn without(self, name: Seq<char>) -> PatchView {
        self.edited(|slots: Seq<SlotView>| drop_slot(slots, name))
    }

    /// One more child at the end of a struct column.
    pub open spec fn append_at(
        self,
        parent: Seq<char>,
        field: FieldView,
        expr: ExprView,
    ) -> PatchView {
        self.edited(
            |slots: Seq<SlotView>|
                edit_children(
                    slots,
                    parent,
                    |children: Seq<SlotView>| append_slot(children, SlotView { field, expr }),
                ),
        )
    }

    /// Another child in the place of one of a struct column's.
    pub open spec fn replace_at(
        self,
        parent: Seq<char>,
        name: Seq<char>,
        field: FieldView,
        expr: ExprView,
    ) -> PatchView {
        self.edited(
            |slots: Seq<SlotView>|
                edit_children(
                    slots,
                    parent,
                    |children: Seq<SlotView>|
                        replace_slot(children, name, SlotView { field, expr }),
                ),
        )
    }

    /// One child of a struct column less.
    pub open spec fn without_at(self, parent: Seq<char>, name: Seq<char>) -> PatchView {
        self.edited(
            |slots: Seq<SlotView>|
                edit_children(
                    slots,
                    parent,
                    |children: Seq<SlotView>| drop_slot(children, name),
                ),
        )
    }

    /// The struct expression of the projection. A nested struct stays null where it was.
    pub open spec fn expr(self) -> ExprView {
        ExprView::Struct(
            slot_exprs(self.slots->Ok_0),
            if self.root.len() == 0 {
                None
            } else {
                Some(Box::new(ExprView::Column(self.root).is_not_null().as_expr()))
            },
        )
    }

    /// The schema that the projection fills.
    pub open spec fn schema(self) -> SchemaView {
        slot_fields(self.slots->Ok_0)
    }
}

/// A projection of a relation's columns, or of the children of one struct column, under
/// construction.
#[derive(Debug)]
pub struct ProjectionStructPatchBuilder {
    pub input_schema: SchemaRef,
    pub root: ColumnName,
    pub slots: Result<Vec<Slot>, Error>,
}

impl View for ProjectionStructPatchBuilder {
    type V = PatchView;

    open spec fn view(&self) -> PatchView {
        PatchView {
            input_schema: self.input_schema@,
            root: self.root@,
            slots: match self.slots {
                Ok(slots) => Ok(slots_view(slots@)),
                Err(e) => Err(e),
            },
        }
    }
}

/// The position of the first column of the given name.
fn slot_index(slots: &Vec<Slot>, name: &str) -> (r: Option<usize>)
    ensures
        r is Some <==> has_field(slot_fields(slots_view(slots@)), name@),
        r matches Some(i) ==> i < slots.len() && i == field_pos(
            slot_fields(slots_view(slots@)),
            name@,
        ),
{
    let wanted = name.to_owned();
    let ghost fields = slot_fields(slots_view(slots@));
    let mut i: usize = 0;
    while i < slots.len()
        invariant
            i <= slots.len(),
            wanted@ == name@,
            fields == slot_fields(slots_view(slots@)),
            forall|j: int| 0 <= j < i ==> (#[trigger] fields[j]).name != name@,
        decreases slots.len() - i,
    {
        if slots[i].field.name == wanted {
            proof {
                assert(is_field_at(fields, name@, i as int));
                lemma_field_pos(fields, name@, i as int);
            }
            return Some(i);
        }
        i = i + 1;
    }
    None
}

/// The columns that read the given children of the struct at a path.
fn keep_slots(path: &ColumnName, children: &StructType) -> (r: Vec<Slot>)
    ensures
        slots_view(r@) == kept_slots(path@, children@),
{
    let mut out: Vec<Slot> = Vec::new();
    let mut i: usize = 0;
    while i < children.fields.len()
        invariant
            i <= children.fields.len(),
            out.len() == i,
            forall|j: int| 0 <= j < i ==> (#[trigger] out@[j])@ == kept_slots(path@, children@)[j],
        decreases children.fields.len() - i,
    {
        let field = children.fields[i].copy();
        let column = path.child(children.fields[i].name.as_str());
        out.push(Slot { field, expr: Expr::Column(column) });
        i = i + 1;
    }
    assert(slots_view(out@) =~= kept_slots(path@, children@));
    out
}

fn append_to(slots: Vec<Slot>, field: StructField, expr: Expr) -> (r: Result<Vec<Slot>, Error>)
    ensures
        match r {
            Ok(out) => append_slot(slots_view(slots@), SlotView { field: field@, expr: expr@ })
                == Ok::<Seq<SlotView>, Error>(slots_view(out@)),
            Err(e) => append_slot(slots_view(slots@), SlotView { field: field@, expr: expr@ })
                == Err::<Seq<SlotView>, Error>(e),
        },
{
    if slot_index(&slots, field.name.as_str()).is_some() {
        return Err(Error::DuplicateColumn);
    }
    let mut out = slots;
    out.push(Slot { field, expr });
    assert(slots_view(out@) =~= slots_view(slots@).push(SlotView { field: field@, expr: expr@ }));
    Ok(out)
}

fn replace_in(slots: Vec<Slot>, name: &str, field: StructField, expr: Expr) -> (r: Result<
    Vec<Slot>,
    Error,
>)
    ensures
        match r {
            Ok(out) => replace_slot(
                slots_view(slots@),
                name@,
                SlotView { field: field@, expr: expr@ },
            ) == Ok::<Seq<SlotView>, Error>(slots_view(out@)),
            Err(e) => replace_slot(
                slots_view(slots@),
                name@,
                SlotView { field: field@, expr: expr@ },
            ) == Err::<Seq<SlotView>, Error>(e),
        },
{
    match slot_index(&slots, name) {
        None => Err(Error::UnknownColumn),
        Some(i) => {
            let mut out = slots;
            out.set(i, Slot { field, expr });
            assert(slots_view(out@) =~= slots_view(slots@).update(
                i as int,
                SlotView { field: field@, expr: expr@ },
            ));
            Ok(out)
        },
    }
}

fn drop_from(slots: Vec<Slot>, name: &str) -> (r: Result<Vec<Slot>, Error>)
    ensures
        match r {
            Ok(out) => drop_slot(slots_view(slots@), name@) == Ok::<Seq<SlotView>, Error>(
                slots_view(out@),
            ),
            Err(e) => drop_slot(slots_view(slots@), name@) == Err::<Seq<SlotView>, Error>(e),
        },
{
    match slot_index(&slots, name) {
        None => Err(Error::UnknownColumn),
        Some(i) => {
            let mut out = slots;
            let dropped = out.remove(i);
            assert(slots_view(out@) =~= slots_view(slots@).remove(i as int));
            Ok(out)
        },
    }
}

/// An edit of the children of a struct column.
enum ChildEdit<'a> {
    Append(StructField, Expr),
    Replace(&'a str, StructField, Expr),
    Remove(&'a str),
}

impl<'a> ChildEdit<'a> {
    /// The children after the edit.
    spec fn applied(self, children: Seq<SlotView>) -> Result<Seq<SlotView>, Error> {
        match self {
            ChildEdit::Append(field, expr) => append_slot(
                children,
                SlotView { field: field@, expr: expr@ },
            ),
            ChildEdit::Replace(name, field, expr) => replace_slot(
                children,
                name@,
                SlotView { field: field@, expr: expr@ },
            ),
            ChildEdit::Remove(name) => drop_slot(children, name@),
        }
    }

    fn apply(self, children: Vec<Slot>) -> (r: Result<Vec<Slot>, Error>)
        ensures
            match r {
                Ok(out) => self.applied(slots_view(children@)) == Ok::<Seq<SlotView>, Error>(
                    slots_view(out@),
                ),
                Err(e) => self.applied(slots_view(children@)) == Err::<Seq<SlotView>, Error>(e),
            },
    {
        match self {
            ChildEdit::Append(field, expr) => append_to(children, field, expr),
            ChildEdit::Replace(name, field, expr) => replace_in(children, name, field, expr),
            ChildEdit::Remove(name) => drop_from(children, name),
        }
    }
}

/// The children of a struct column as columns of their own.
fn open_struct(slot: &Slot) -> (r: Option<(Vec<Slot>, Option<Box<Expr>>)>)
    ensures
        match r {
            Some((children, present)) => open_slot(slot@) == Some(
                (
                    slots_view(children@),
                    match present {
                        Some(e) => Some(Box::new(e@)),
                        None => None,
                    },
                ),
            ),
            None => open_slot(slot@) is None,
        },
{
    match &slot.field.data_type {
        DataType::Struct(children) => {
            match &slot.expr {
                Expr::Column(path) => {
                    let whole = Expr::Column(path.copy());
                    let present = Expr::from_pred(whole.is_not_null());
                    Some((keep_slots(path, children), Some(Box::new(present))))
                },
                Expr::Struct(exprs, present) => {
                    if children.fields.len() != exprs.len() {
                        return None;
                    }
                    let mut out: Vec<Slot> = Vec::new();
                    let mut i: usize = 0;
                    while i < exprs.len()
                        invariant
                            i <= exprs.len(),
                            exprs.len() == children.fields.len(),
                            out.len() == i,
                            forall|j: int|
                                0 <= j < i ==> (#[trigger] out@[j])@ == (SlotView {
                                    field: children@[j],
                                    expr: exprs_view(exprs@)[j],
                                }),
                        decreases exprs.len() - i,
                    {
                        out.push(Slot { field: children.fields[i].copy(), expr: exprs[i].copy() });
                        i = i + 1;
                    }
                    assert(slots_view(out@) =~= Seq::new(
                        children@.len(),
                        |i: int| SlotView { field: children@[i], expr: exprs_view(exprs@)[i] },
                    ));
                    match present {
                        Some(e) => Some((out, Some(Box::new(e.copy())))),
                        None => Some((out, None)),
                    }
                },
                _ => None,
            }
        },
        _ => None,
    }
}

/// The schema and the expressions of columns.
fn unzip(slots: &Vec<Slot>) -> (r: (Vec<StructField>, Vec<Expr>))
    ensures
        fields_view(r.0@) == slot_fields(slots_view(slots@)),
        exprs_view(r.1@) == slot_exprs(slots_view(slots@)),
{
    let mut fields: Vec<StructField> = Vec::new();
    let mut exprs: Vec<Expr> = Vec::new();
    let mut i: usize = 0;
    while i < slots.len()
        invariant
            i <= slots.len(),
            fields.len() == i,
            exprs.len() == i,
            forall|j: int| 0 <= j < i ==> (#[trigger] fields@[j])@ == slots@[j].field@,
            forall|j: int| 0 <= j < i ==> (#[trigger] exprs@[j])@ == slots@[j].expr@,
        decreases slots.len() - i,
    {
        fields.push(slots[i].field.copy());
        exprs.push(slots[i].expr.copy());
        i = i + 1;
    }
    assert(fields_view(fields@) =~= slot_fields(slots_view(slots@)));
    assert(exprs_view(exprs@) =~= slot_exprs(slots_view(slots@)));
    (fields, exprs)
}

/// A struct column made of the given children.
fn close_struct(field: &StructField, children: Vec<Slot>, present: Option<Box<Expr>>) -> (r: Slot)
    ensures
        r@ == close_slot(
            field@,
            slots_view(children@),
            match present {
                Some(e) => Some(Box::new(e@)),
                None => None,
            },
        ),
{
    let (fields, exprs) = unzip(&children);
    Slot {
        field: StructField {
            name: field.name.clone(),
            data_type: DataType::struct_of(fields),
            nullable: field.nullable,
        },
        expr: Expr::Struct(exprs, present),
    }
}

impl ProjectionStructPatchBuilder {
    /// The projection that keeps every column of a schema.
    pub fn new(input_schema: &SchemaRef) -> (r: ProjectionStructPatchBuilder)
        ensures
            r@ == PatchView::start(input_schema@, seq![]),
    {
        let root = ColumnName { path: Vec::new() };
        assert(root@ =~= seq![]);
        let slots = keep_slots(&root, input_schema);
        ProjectionStructPatchBuilder { input_schema: share(input_schema), root, slots: Ok(slots) }
    }

    /// The projection that keeps every child of the struct at a path, or every column of the
    /// schema at the empty path.
    pub fn new_nested(input_schema: &SchemaRef, root: ColumnName) -> (r:
        ProjectionStructPatchBuilder)
        ensures
            r@ == PatchView::start(input_schema@, root@),
    {
        if root.path.len() == 0 {
            let slots = keep_slots(&root, input_schema);
            return ProjectionStructPatchBuilder {
                input_schema: share(input_schema),
                root,
                slots: Ok(slots),
            };
        }
        let slots = match input_schema.resolve(&root) {
            Some(field) => match &field.data_type {
                DataType::Struct(children) => Ok(keep_slots(&root, children)),
                _ => Err(Error::UnknownColumn),
            },
            None => Err(Error::UnknownColumn),
        };
        ProjectionStructPatchBuilder { input_schema: share(input_schema), root, slots }
    }

    /// The schema that the projection reads.
    pub fn input_schema(&self) -> (r: &SchemaRef)
        ensures
            r@ == self@.input_schema,
    {
        &self.input_schema
    }

    /// One more column at the end.
    pub fn append(self, field: StructField, expr: Expr) -> (r: ProjectionStructPatchBuilder)
        ensures
            r@ == self@.append(field@, expr@),
    {
        let slots = match self.slots {
            Ok(slots) => append_to(slots, field, expr),
            Err(e) => Err(e),
        };
        ProjectionStructPatchBuilder { input_schema: self.input_schema, root: self.root, slots }
    }

    /// Another column in the place of one.
    pub fn replace(self, name: &str, field: StructField, expr: Expr) -> (r:
        ProjectionStructPatchBuilder)
        ensures
            r@ == self@.replace(name@, field@, expr@),
    {
        let slots = match self.slots {
            Ok(slots) => replace_in(slots, name, field, expr),
            Err(e) => Err(e),
        };
        ProjectionStructPatchBuilder { input_schema: self.input_schema, root: self.root, slots }
    }

    /// One column less.
    pub fn without(self, name: &str) -> (r: ProjectionStructPatchBuilder)
        ensures
            r@ == self@.without(name@),
    {
        let slots = match self.slots {
            Ok(slots) => drop_from(slots, name),
            Err(e) => Err(e),
        };
        ProjectionStructPatchBuilder { input_schema: self.input_schema, root: self.root, slots }
    }

    /// One more child at the end of a struct column.
    pub fn append_at(self, parent: &str, field: StructField, expr: Expr) -> (r:
        ProjectionStructPatchBuilder)
        ensures
            r@ == self@.append_at(parent@, field@, expr@),
    {
        self.edit_at(parent, ChildEdit::Append(field, expr))
    }

    /// Another child in the place of one of a struct column's.
    pub fn replace_at(self, parent: &str, name: &str, field: StructField, expr: Expr) -> (r:
        ProjectionStructPatchBuilder)
        ensures
            r@ == self@.replace_at(parent@, name@, field@, expr@),
    {
        self.edit_at(parent, ChildEdit::Replace(name, field, expr))
    }

    /// One child of a struct column less.
    pub fn without_at(self, parent: &str, name: &str) -> (r: ProjectionStructPatchBuilder)
        ensures
            r@ == self@.without_at(parent@, name@),
    {
        self.edit_at(parent, ChildEdit::Remove(name))
    }

    /// An edit of the children of a struct column.
    fn edit_at(self, parent: &str, edit: ChildEdit) -> (r: ProjectionStructPatchBuilder)
        ensures
            r@ == self@.edited(
                |slots: Seq<SlotView>|
                    edit_children(
                        slots,
                        parent@,
                        |children: Seq<SlotView>| edit.applied(children),
                    ),
            ),
    {
        let slots = match self.slots {
            Ok(slots) => match slot_index(&slots, parent) {
                None => Err(Error::UnknownColumn),
                Some(i) => match open_struct(&slots[i]) {
                    None => Err(Error::UnknownColumn),
                    Some((children, present)) => match edit.apply(children) {
                        Err(e) => Err(e),
                        Ok(edited) => {
                            let closed = close_struct(&slots[i].field, edited, present);
                            let mut out = slots;
                            out.set(i, closed);
                            assert(slots_view(out@) =~= slots_view(slots@).update(
                                i as int,
                                closed@,
                            ));
                            Ok(out)
                        },
                    },
                },
            },
            Err(e) => Err(e),
        };
        ProjectionStructPatchBuilder { input_schema: self.input_schema, root: self.root, slots }
    }

    /// The schema that the projection fills and the struct expression that fills it.
    pub fn build(self) -> (r: Result<(SchemaRef, Expr), Error>)
        ensures
            match r {
                Ok((schema, expr)) => self@.slots is Ok && schema@ == self@.schema() && expr@
                    == self@.expr(),
                Err(e) => self@.slots == Err::<Seq<SlotView>, Error>(e),
            },
    {
        match self.slots {
            Err(e) => Err(e),
            Ok(slots) => {
                let (fields, exprs) = unzip(&slots);
                let schema = Arc::new(StructType::new_unchecked(fields));
                if self.root.path.len() == 0 {
                    Ok((schema, Expr::struct_from(exprs)))
                } else {
                    let whole = Expr::Column(self.root);
                    let present = Expr::from_pred(whole.is_not_null());
                    Ok((schema, Expr::struct_with_nullability_from(exprs, present)))
                }
            },
        }
    }
}

} // verus!
