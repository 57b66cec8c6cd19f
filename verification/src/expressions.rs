//! Scalar expressions and predicates over the columns of a relation.

use vstd::prelude::*;

use crate::schema::{share, DataType, DataTypeView, PrimitiveType, SchemaRef, SchemaView};

verus! {

/// The path of a column: its name, preceded by the names of the structs it is nested in.
#[derive(Debug, PartialEq)]
pub struct ColumnName {
    pub path: Vec<String>,
}

/// A constant.
#[derive(Debug, PartialEq)]
pub enum Scalar {
    Null(DataType),
    Boolean(bool),
    Integer(i32),
    Long(i64),
    Text(String),
    /// A value of any other primitive type, in the encoding of that type.
    Encoded(PrimitiveType, Vec<u8>),
}

/// An arithmetic operator.
#[derive(Debug, Clone, Copy, PartialEq, Eq, Structural)]
pub enum ArithmeticOp {
    Plus,
    Minus,
    Multiply,
    Divide,
}

/// A comparison of two expressions.
#[derive(Debug, Clone, Copy, PartialEq, Eq, Structural)]
pub enum ComparisonOp {
    Equal,
    LessThan,
    GreaterThan,
    /// Inequality that takes null for a value like any other.
    Distinct,
    In,
}

/// A connective of predicates.
#[derive(Debug, Clone, Copy, PartialEq, Eq, Structural)]
pub enum JunctionOp {
    And,
    Or,
}

/// An expression over the columns of one row.
#[derive(Debug, PartialEq)]
pub enum Expr {
    Literal(Scalar),
    Column(ColumnName),
    Predicate(Box<Predicate>),
    /// A struct of the given children. With a second expression, the struct is null unless that
    /// expression is true.
    Struct(Vec<Expr>, Option<Box<Expr>>),
    /// The first of the given expressions that is not null.
    Coalesce(Vec<Expr>),
    /// A JSON text parsed into a struct of the given schema.
    ParseJson(Box<Expr>, SchemaRef),
    /// A map from names to texts turned into a struct of the type that the context expects.
    MapToStruct(Box<Expr>),
    Arithmetic(ArithmeticOp, Box<Expr>, Box<Expr>),
}

/// A condition on one row: true, false or null.
#[derive(Debug, PartialEq)]
pub enum Predicate {
    BooleanExpression(Expr),
    Not(Box<Predicate>),
    IsNull(Expr),
    Comparison(ComparisonOp, Expr, Expr),
    Junction(JunctionOp, Vec<Predicate>),
}

/// A column path as a mathematical value.
pub type PathView = Seq<Seq<char>>;

/// A constant as a mathematical value.
pub enum ScalarView {
    Null(DataTypeView),
    Boolean(bool),
    Integer(int),
    Long(int),
    Text(Seq<char>),
    Encoded(PrimitiveType, Seq<u8>),
}

/// An expression as a mathematical value.
pub enum ExprView {
    Literal(ScalarView),
    Column(PathView),
    Predicate(Box<PredicateView>),
    Struct(Seq<ExprView>, Option<Box<ExprView>>),
    Coalesce(Seq<ExprView>),
    ParseJson(Box<ExprView>, SchemaView),
    MapToStruct(Box<ExprView>),
    Arithmetic(ArithmeticOp, Box<ExprView>, Box<ExprView>),
}

/// A predicate as a mathematical value.
pub enum PredicateView {
    BooleanExpression(ExprView),
    Not(Box<PredicateView>),
    IsNull(ExprView),
    Comparison(ComparisonOp, ExprView, ExprView),
    Junction(JunctionOp, Seq<PredicateView>),
}

impl ExprView {
    /// The predicate that holds where this expression is not null.
    pub open spec fn is_not_null(self) -> PredicateView {
        PredicateView::Not(Box::new(PredicateView::IsNull(self)))
    }
}

impl PredicateView {
    /// The predicate that holds where either of two does.
    pub open spec fn or(self, other: PredicateView) -> PredicateView {
        PredicateView::Junction(JunctionOp::Or, seq![self, other])
    }

    /// This predicate as an expression.
    pub open spec fn as_expr(self) -> ExprView {
        ExprView::Predicate(Box::new(self))
    }
}

// --- Views ---

/// The views of a sequence of strings.
pub open spec fn strings_view(names: Seq<String>) -> PathView {
    Seq::new(names.len(), |i: int| names[i]@)
}

/// The views of a sequence of string slices.
pub open spec fn strs_view(names: Seq<&str>) -> PathView {
    Seq::new(names.len(), |i: int| names[i]@)
}

impl View for ColumnName {
    type V = PathView;

    open spec fn view(&self) -> PathView {
        strings_view(self.path@)
    }
}

impl View for Scalar {
    type V = ScalarView;

    open spec fn view(&self) -> ScalarView {
        match self {
            Scalar::Null(t) => ScalarView::Null(t@),
            Scalar::Boolean(b) => ScalarView::Boolean(*b),
            Scalar::Integer(i) => ScalarView::Integer(*i as int),
            Scalar::Long(i) => ScalarView::Long(*i as int),
            Scalar::Text(t) => ScalarView::Text(t@),
            Scalar::Encoded(p, bytes) => ScalarView::Encoded(*p, bytes@),
        }
    }
}

impl Expr {
    pub open spec fn view(&self) -> ExprView
        decreases self,
    {
        match self {
            Expr::Literal(s) => ExprView::Literal(s@),
            Expr::Column(c) => ExprView::Column(c@),
            Expr::Predicate(p) => ExprView::Predicate(Box::new(p.view())),
            Expr::Struct(es, n) => ExprView::Struct(
                exprs_view(es@),
                match n {
                    Some(e) => Some(Box::new(e.view())),
                    None => None,
                },
            ),
            Expr::Coalesce(es) => ExprView::Coalesce(exprs_view(es@)),
            Expr::ParseJson(e, s) => ExprView::ParseJson(Box::new(e.view()), s.view()),
            Expr::MapToStruct(e) => ExprView::MapToStruct(Box::new(e.view())),
            Expr::Arithmetic(op, l, r) => ExprView::Arithmetic(
                *op,
                Box::new(l.view()),
                Box::new(r.view()),
            ),
        }
    }
}

impl Predicate {
    pub open spec fn view(&self) -> PredicateView
        decreases self,
    {
        match self {
            Predicate::BooleanExpression(e) => PredicateView::BooleanExpression(e.view()),
            Predicate::Not(p) => PredicateView::Not(Box::new(p.view())),
            Predicate::IsNull(e) => PredicateView::IsNull(e.view()),
            Predicate::Comparison(op, l, r) => PredicateView::Comparison(*op, l.view(), r.view()),
            Predicate::Junction(op, ps) => PredicateView::Junction(*op, predicates_view(ps@)),
        }
    }
}

/// The views of a sequence of expressions.
pub open spec fn exprs_view(es: Seq<Expr>) -> Seq<ExprView>
    decreases es,
{
    Seq::new(
        es.len(),
        |i: int|
            if 0 <= i < es.len() {
                es[i].view()
            } else {
                arbitrary()
            },
    )
}

/// The views of a sequence of predicates.
pub open spec fn predicates_view(ps: Seq<Predicate>) -> Seq<PredicateView>
    decreases ps,
{
    Seq::new(
        ps.len(),
        |i: int|
            if 0 <= i < ps.len() {
                ps[i].view()
            } else {
                arbitrary()
            },
    )
}

/// The view of an optional predicate.
pub open spec fn opt_predicate_view(p: Option<Predicate>) -> Option<PredicateView> {
    match p {
        Some(p) => Some(p.view()),
        None => None,
    }
}

// --- Columns ---

impl ColumnName {
    /// The column that a path of names leads to.
    pub fn new(path: &[&str]) -> (r: ColumnName)
        ensures
            r@ == strs_view(path@),
    {
        let mut out: Vec<String> = Vec::new();
        let mut i: usize = 0;
        while i < path.len()
            invariant
                i <= path.len(),
                out.len() == i,
                forall|j: int| 0 <= j < i ==> (#[trigger] out@[j])@ == path@[j]@,
            decreases path.len() - i,
        {
            out.push(path[i].to_owned());
            i = i + 1;
        }
        assert(strings_view(out@) =~= strs_view(path@));
        ColumnName { path: out }
    }

    /// The names that lead to the column.
    pub fn path(&self) -> (r: &Vec<String>)
        ensures
            strings_view(r@) == self@,
    {
        &self.path
    }

    /// A copy of the column name.
    pub fn copy(&self) -> (r: ColumnName)
        ensures
            r@ == self@,
    {
        ColumnName { path: copy_strings(&self.path, 0) }
    }

    /// The column `other` inside of this column.
    pub fn join(&self, other: &ColumnName) -> (r: ColumnName)
        ensures
            r@ == self@ + other@,
    {
        let mut out = copy_strings(&self.path, 0);
        let mut tail = copy_strings(&other.path, 0);
        let ghost head = strings_view(out@);
        let ghost rest = strings_view(tail@);
        out.append(&mut tail);
        assert(strings_view(out@) =~= head + rest);
        ColumnName { path: out }
    }

    /// The child of the given name inside of this column.
    pub fn child(&self, name: &str) -> (r: ColumnName)
        ensures
            r@ == self@.push(name@),
    {
        let mut out = copy_strings(&self.path, 0);
        out.push(name.to_owned());
        assert(strings_view(out@) =~= self@.push(name@));
        ColumnName { path: out }
    }
}

/// A copy of the strings from a position on.
pub fn copy_strings(names: &Vec<String>, from: usize) -> (r: Vec<String>)
    requires
        from <= names.len(),
    ensures
        strings_view(r@) == strings_view(names@).skip(from as int),
        from == 0 ==> strings_view(r@) == strings_view(names@),
{
    let mut out: Vec<String> = Vec::new();
    let mut i: usize = from;
    while i < names.len()
        invariant
            from <= i <= names.len(),
            out.len() == i - from,
            forall|j: int| 0 <= j < out.len() ==> (#[trigger] out@[j])@ == names@[from + j]@,
        decreases names.len() - i,
    {
        out.push(names[i].clone());
        i = i + 1;
    }
    assert(strings_view(out@) =~= strings_view(names@).skip(from as int));
    assert(from == 0 ==> strings_view(out@) =~= strings_view(names@));
    out
}

// --- Copies ---

impl Scalar {
    /// A copy of the constant.
    pub fn copy(&self) -> (r: Scalar)
        ensures
            r@ == self@,
    {
        match self {
            Scalar::Null(t) => Scalar::Null(t.copy()),
            Scalar::Boolean(b) => Scalar::Boolean(*b),
            Scalar::Integer(i) => Scalar::Integer(*i),
            Scalar::Long(i) => Scalar::Long(*i),
            Scalar::Text(t) => Scalar::Text(t.clone()),
            Scalar::Encoded(p, bytes) => {
                let copied = bytes.clone();
                assert(copied@ =~= bytes@);
                Scalar::Encoded(*p, copied)
            },
        }
    }
}

impl Expr {
    /// A copy of the expression.
    pub fn copy(&self) -> (r: Expr)
        ensures
            r@ == self@,
        decreases self,
    {
        match self {
            Expr::Literal(s) => Expr::Literal(s.copy()),
            Expr::Column(c) => Expr::Column(c.copy()),
            Expr::Predicate(p) => Expr::Predicate(Box::new(p.copy())),
            Expr::Struct(es, n) => {
                let copied = copy_exprs(es);
                match n {
                    Some(e) => Expr::Struct(copied, Some(Box::new(e.copy()))),
                    None => Expr::Struct(copied, None),
                }
            },
            Expr::Coalesce(es) => Expr::Coalesce(copy_exprs(es)),
            Expr::ParseJson(e, s) => Expr::ParseJson(Box::new(e.copy()), share(s)),
            Expr::MapToStruct(e) => Expr::MapToStruct(Box::new(e.copy())),
            Expr::Arithmetic(op, l, r) => Expr::Arithmetic(
                *op,
                Box::new(l.copy()),
                Box::new(r.copy()),
            ),
        }
    }
}

impl Predicate {
    /// A copy of the predicate.
    pub fn copy(&self) -> (r: Predicate)
        ensures
            r@ == self@,
        decreases self,
    {
        match self {
            Predicate::BooleanExpression(e) => Predicate::BooleanExpression(e.copy()),
            Predicate::Not(p) => Predicate::Not(Box::new(p.copy())),
            Predicate::IsNull(e) => Predicate::IsNull(e.copy()),
            Predicate::Comparison(op, l, r) => Predicate::Comparison(*op, l.copy(), r.copy()),
            Predicate::Junction(op, ps) => Predicate::Junction(*op, copy_predicates(ps)),
        }
    }
}

fn copy_exprs(es: &Vec<Expr>) -> (r: Vec<Expr>)
    ensures
        exprs_view(r@) == exprs_view(es@),
    decreases es,
{
    let mut out: Vec<Expr> = Vec::new();
    let mut i: usize = 0;
    while i < es.len()
        invariant
            i <= es.len(),
            out.len() == i,
            forall|j: int| 0 <= j < i ==> (#[trigger] out@[j])@ == es@[j]@,
        decreases es.len() - i,
    {
        assert(decreases_to!(es => es@[i as int]));
        out.push(es[i].copy());
        i = i + 1;
    }
    assert(exprs_view(out@) =~= exprs_view(es@));
    out
}

fn copy_predicates(ps: &Vec<Predicate>) -> (r: Vec<Predicate>)
    ensures
        predicates_view(r@) == predicates_view(ps@),
    decreases ps,
{
    let mut out: Vec<Predicate> = Vec::new();
    let mut i: usize = 0;
    while i < ps.len()
        invariant
            i <= ps.len(),
            out.len() == i,
            forall|j: int| 0 <= j < i ==> (#[trigger] out@[j])@ == ps@[j]@,
        decreases ps.len() - i,
    {
        assert(decreases_to!(ps => ps@[i as int]));
        out.push(ps[i].copy());
        i = i + 1;
    }
    assert(predicates_view(out@) =~= predicates_view(ps@));
    out
}

// --- Constructors ---

impl Expr {
    /// The column that a path of names leads to.
    pub fn column(path: &[&str]) -> (r: Expr)
        ensures
            r@ == ExprView::Column(strs_view(path@)),
    {
        Expr::Column(ColumnName::new(path))
    }

    /// A struct of the given children.
    pub fn struct_from(children: Vec<Expr>) -> (r: Expr)
        ensures
            r@ == ExprView::Struct(exprs_view(children@), None),
    {
        Expr::Struct(children, None)
    }

    /// A struct of the given children that is null unless `present` is true.
    pub fn struct_with_nullability_from(children: Vec<Expr>, present: Expr) -> (r: Expr)
        ensures
            r@ == ExprView::Struct(exprs_view(children@), Some(Box::new(present@))),
    {
        Expr::Struct(children, Some(Box::new(present)))
    }

    /// The first of the given expressions that is not null.
    pub fn coalesce(choices: Vec<Expr>) -> (r: Expr)
        ensures
            r@ == ExprView::Coalesce(exprs_view(choices@)),
    {
        Expr::Coalesce(choices)
    }

    /// The struct that a JSON text holds.
    pub fn parse_json(json: Expr, schema: SchemaRef) -> (r: Expr)
        ensures
            r@ == ExprView::ParseJson(Box::new(json@), schema@),
    {
        Expr::ParseJson(Box::new(json), schema)
    }

    /// The struct that a map from names to texts holds.
    pub fn map_to_struct(map: Expr) -> (r: Expr)
        ensures
            r@ == ExprView::MapToStruct(Box::new(map@)),
    {
        Expr::MapToStruct(Box::new(map))
    }

    /// A predicate as an expression.
    pub fn from_pred(predicate: Predicate) -> (r: Expr)
        ensures
            r@ == predicate@.as_expr(),
    {
        Expr::Predicate(Box::new(predicate))
    }

    /// The predicate that holds where the expression is null.
    pub fn is_null(self) -> (r: Predicate)
        ensures
            r@ == PredicateView::IsNull(self@),
    {
        Predicate::IsNull(self)
    }

    /// The predicate that holds where the expression is not null.
    pub fn is_not_null(self) -> (r: Predicate)
        ensures
            r@ == self@.is_not_null(),
    {
        let null = self.is_null();
        Predicate::Not(Box::new(null))
    }
}

impl Predicate {
    /// The predicate that holds where either of two does.
    pub fn or(a: Predicate, b: Predicate) -> (r: Predicate)
        ensures
            r@ == a@.or(b@),
    {
        let both = vec![a, b];
        assert(predicates_view(both@) =~= seq![a@, b@]);
        Predicate::Junction(JunctionOp::Or, both)
    }

    /// The predicate that holds where two expressions differ, null counted as a value.
    pub fn distinct(a: Expr, b: Expr) -> (r: Predicate)
        ensures
            r@ == PredicateView::Comparison(ComparisonOp::Distinct, a@, b@),
    {
        Predicate::Comparison(ComparisonOp::Distinct, a, b)
    }
}

/// A truth value as a constant expression.
pub fn lit(value: bool) -> (r: Expr)
    ensures
        r@ == ExprView::Literal(ScalarView::Boolean(value)),
{
    Expr::Literal(Scalar::Boolean(value))
}

/// The null of the given type.
pub fn null_lit(data_type: DataType) -> (r: Expr)
    ensures
        r@ == ExprView::Literal(ScalarView::Null(data_type@)),
{
    Expr::Literal(Scalar::Null(data_type))
}

} // verus!
