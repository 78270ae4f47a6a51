//! The sqlparser syntax tree as this library reads and edits it: the outside
//! types it carries, and one small trusted function per field it reads, per
//! enum whose variants it tells apart, per node it builds and per rendering.
//! The tree is opaque here: what the contracts say of its parts, copies,
//! edits and renderings goes through names for sqlparser's own results, each
//! a function of the node it is applied to.
use vstd::prelude::*;

use sqlparser::ast::{
    Distinct, FunctionArgumentList, FunctionArguments, ObjectName, ObjectNamePart, Delete, DuplicateTreatment, Expr, Function, FunctionArg, Ident, Insert, Join, OnInsert,
    Query, Select, SelectItem, Statement, TableFactor, TableWithJoins, Update, ValueWithSpan,
    Values, WindowType, With,
};

verus! {

#[verifier::external_type_specification]
#[verifier::external_body]
pub struct ExStatement(sqlparser::ast::Statement);

#[verifier::external_type_specification]
#[verifier::external_body]
pub struct ExQuery(sqlparser::ast::Query);

#[verifier::external_type_specification]
#[verifier::external_body]
pub struct ExSelect(sqlparser::ast::Select);

#[verifier::external_type_specification]
#[verifier::external_body]
pub struct ExDistinct(sqlparser::ast::Distinct);

#[verifier::external_type_specification]
#[verifier::external_body]
pub struct ExSelectItem(sqlparser::ast::SelectItem);

#[verifier::external_type_specification]
#[verifier::external_body]
pub struct ExExpr(sqlparser::ast::Expr);

#[verifier::external_type_specification]
#[verifier::external_body]
pub struct ExIdent(sqlparser::ast::Ident);

#[verifier::external_type_specification]
#[verifier::external_body]
pub struct ExFunction(sqlparser::ast::Function);

#[verifier::external_type_specification]
#[verifier::external_body]
pub struct ExWindowType(sqlparser::ast::WindowType);

#[verifier::external_type_specification]
#[verifier::external_body]
pub struct ExTableWithJoins(sqlparser::ast::TableWithJoins);

#[verifier::external_type_specification]
#[verifier::external_body]
pub struct ExJoin(sqlparser::ast::Join);

#[verifier::external_type_specification]
#[verifier::external_body]
pub struct ExTableFactor(sqlparser::ast::TableFactor);

#[verifier::external_type_specification]
#[verifier::external_body]
pub struct ExValues(sqlparser::ast::Values);

#[verifier::external_type_specification]
#[verifier::external_body]
pub struct ExInsert(sqlparser::ast::Insert);

#[verifier::external_type_specification]
#[verifier::external_body]
pub struct ExUpdate(sqlparser::ast::Update);

#[verifier::external_type_specification]
#[verifier::external_body]
pub struct ExDelete(sqlparser::ast::Delete);

#[verifier::external_type_specification]
#[verifier::external_body]
pub struct ExOnInsert(sqlparser::ast::OnInsert);

#[verifier::external_type_specification]
#[verifier::external_body]
pub struct ExWith(sqlparser::ast::With);

#[verifier::external_type_specification]
#[verifier::external_body]
pub struct ExValueWithSpan(sqlparser::ast::ValueWithSpan);

#[verifier::external_type_specification]
#[verifier::external_body]
pub struct ExFunctionArg(sqlparser::ast::FunctionArg);

#[verifier::external_type_specification]
#[verifier::external_body]
pub struct ExDuplicateTreatment(sqlparser::ast::DuplicateTreatment);

/// The statement kinds the library tells apart.
pub enum StatementNode<'a> {
    Query(&'a Query),
    Insert(&'a Insert),
    Update(&'a Update),
    Delete(&'a Delete),
    Other,
}

/// The query bodies the library tells apart.
pub enum BodyNode<'a> {
    Select(&'a Select),
    Values(&'a Values),
    Other,
}

/// The projection items the library tells apart.
pub enum SelectItemNode<'a> {
    Unnamed(&'a Expr),
    Aliased(&'a Expr, &'a Ident),
    QualifiedWildcard,
    Wildcard,
}

/// The expressions the library tells apart.
pub enum ExprNode<'a> {
    Identifier(&'a Ident),
    CompoundIdentifier(&'a Vec<Ident>),
    Function(&'a Function),
    BinaryOp(&'a Expr, &'a Expr),
    Nested(&'a Expr),
    Value(&'a ValueWithSpan),
    Other,
}

/// The table factors the library tells apart.
pub enum TableNode<'a> {
    Derived(&'a Query),
    Other,
}

/// `GROUP BY ALL` or the list of grouping expressions.
pub enum GroupByNode<'a> {
    All,
    Expressions(&'a Vec<Expr>),
}

/// The statement kinds the library tells apart, with the node each holds.
pub enum StatementPart {
    Query(Query),
    Insert(Insert),
    Update(Update),
    Delete(Delete),
    Other,
}

/// The kind of a statement and the node it holds (its enum variant).
pub uninterp spec fn statement_part(s: Statement) -> StatementPart;

/// The query bodies the library tells apart, with the node each holds.
pub enum BodyPart {
    Select(Select),
    Values(Values),
    Other,
}

/// The body of a query (the variant of its `body` field).
pub uninterp spec fn body_part(q: Query) -> BodyPart;

/// The projection items the library tells apart, with what each holds.
pub enum ItemPart {
    Unnamed(Expr),
    Aliased(Expr, Ident),
    QualifiedWildcard,
    Wildcard,
}

/// The kind of a projection item and what it holds (its enum variant).
pub uninterp spec fn item_part(i: SelectItem) -> ItemPart;

/// The `projection` field of a select.
pub uninterp spec fn projection_of(s: Select) -> Seq<SelectItem>;

/// The `with` field of a query.
pub uninterp spec fn with_clause_of(q: Query) -> Option<With>;

/// The kind of an expression and what it holds (its enum variant).
pub enum ExprPart {
    Identifier(Ident),
    CompoundIdentifier(Seq<Ident>),
    Function(Function),
    BinaryOp(Expr, Expr),
    Nested(Expr),
    Value(ValueWithSpan),
    Other,
}

/// The kind of an expression (its enum variant) and what it holds.
pub uninterp spec fn expr_part(e: Expr) -> ExprPart;

/// `GROUP BY ALL`, or the grouping expressions.
pub enum GroupByPart {
    All,
    Expressions(Seq<Expr>),
}

/// The `group_by` field of a select.
pub uninterp spec fn group_by_part(s: Select) -> GroupByPart;

/// The table factors the library tells apart, with the subquery of a derived
/// table.
pub enum TablePart {
    Derived(Query),
    Other,
}

/// The kind of a table factor (its enum variant).
pub uninterp spec fn table_part(t: TableFactor) -> TablePart;

/// The `distinct` field of a select.
pub uninterp spec fn distinct_of(s: Select) -> Option<Distinct>;

/// The `with_ties` flag of the `top` field of a select, if it has one.
pub uninterp spec fn top_with_ties_of(s: Select) -> Option<bool>;

/// The `from` field of a select.
pub uninterp spec fn from_of(s: Select) -> Seq<TableWithJoins>;

/// The `having` field of a select.
pub uninterp spec fn having_of(s: Select) -> Option<Expr>;

/// The `relation` field of a `FROM` entry.
pub uninterp spec fn relation_of(t: TableWithJoins) -> TableFactor;

/// The `joins` field of a `FROM` entry.
pub uninterp spec fn joins_of(t: TableWithJoins) -> Seq<Join>;

/// The `relation` field of a join.
pub uninterp spec fn join_relation_of(j: Join) -> TableFactor;

/// Whether a literal value is a placeholder.
pub uninterp spec fn is_placeholder_value(v: ValueWithSpan) -> bool;

/// The `value` field of an identifier.
pub uninterp spec fn ident_text(i: Ident) -> Seq<char>;

/// The `over` field of a function call.
pub uninterp spec fn over_of(f: Function) -> Option<WindowType>;

/// sqlparser's rendering of the `name` field of a function call.
pub uninterp spec fn function_name_of(f: Function) -> Seq<char>;

/// The `rows` field of a `VALUES` list.
pub uninterp spec fn rows_of(v: Values) -> Seq<Vec<Expr>>;

/// The `columns` field of an `INSERT`.
pub uninterp spec fn insert_columns_of(i: Insert) -> Seq<Ident>;

/// The `source` field of an `INSERT`.
pub uninterp spec fn insert_source_of(i: Insert) -> Option<Query>;

/// The `on` field of an `INSERT`.
pub uninterp spec fn insert_on_of(i: Insert) -> Option<OnInsert>;

/// The `returning` field of an `INSERT`.
pub uninterp spec fn insert_returning_of(i: Insert) -> Option<Vec<SelectItem>>;

/// The `returning` field of an `UPDATE`.
pub uninterp spec fn update_returning_of(u: Update) -> Option<Vec<SelectItem>>;

/// The `returning` field of a `DELETE`.
pub uninterp spec fn delete_returning_of(d: Delete) -> Option<Vec<SelectItem>>;

/// sqlparser's rendering (`Display`) of an expression.
pub uninterp spec fn rendered_expr(e: Expr) -> Seq<char>;

/// sqlparser's rendering (`Display`) of a projection item.
pub uninterp spec fn rendered_item(i: SelectItem) -> Seq<char>;

/// sqlparser's rendering (`Display`) of an `ON CONFLICT` clause.
pub uninterp spec fn rendered_on_insert(o: OnInsert) -> Seq<char>;

/// sqlparser's parse of a text with the SQLite dialect: the statements, or
/// `None` when it reports an error.
pub uninterp spec fn parsed_statements(sql: Seq<char>) -> Option<Seq<Statement>>;

/// sqlparser's rendering (`Display`) of a statement.
pub uninterp spec fn rendered_statement(s: Statement) -> Seq<char>;

/// sqlparser's rendering (`Display`) of a query.
pub uninterp spec fn rendered_query(q: Query) -> Seq<char>;

/// sqlparser's rendering (`Display`) of a `WITH` clause.
pub uninterp spec fn rendered_with(w: With) -> Seq<char>;

/// sqlparser's rendering (`Display`) of an `INSERT`.
pub uninterp spec fn rendered_insert(i: Insert) -> Seq<char>;

/// A query with its `order_by` field set to `None`.
pub uninterp spec fn query_without_order_by(q: Query) -> Query;

/// A query with its `limit_clause` field set to `None`.
pub uninterp spec fn query_without_limit(q: Query) -> Query;

/// A query with its `fetch` field set to `None`.
pub uninterp spec fn query_without_fetch(q: Query) -> Query;

/// A query with its `with` field set to `None`.
pub uninterp spec fn query_without_with(q: Query) -> Query;

/// A query whose select body has the given projection (unchanged when its
/// body is not a select).
pub uninterp spec fn query_with_projection(q: Query, items: Seq<SelectItem>) -> Query;

/// A query whose select body has no `DISTINCT` (unchanged when its body is
/// not a select).
pub uninterp spec fn query_without_distinct(q: Query) -> Query;

/// An `INSERT` with its `source` field set to `None`.
pub uninterp spec fn insert_without_source(i: Insert) -> Insert;

/// An `INSERT` with its `on` field set to `None`.
pub uninterp spec fn insert_without_on(i: Insert) -> Insert;

/// An `INSERT` with its `returning` field set to `None`.
pub uninterp spec fn insert_without_returning(i: Insert) -> Insert;

/// `Expr::Identifier(Ident::new(name))`.
pub uninterp spec fn identifier_of(name: Seq<char>) -> Expr;

/// `SelectItem::UnnamedExpr(e)`.
pub uninterp spec fn unnamed_item_of(e: Expr) -> SelectItem;

/// `DuplicateTreatment::Distinct` for `true`, `All` for `false`.
pub uninterp spec fn duplicate_treatment_of(distinct: bool) -> DuplicateTreatment;

/// An unnamed function argument: `*` for `None`, the expression otherwise.
pub uninterp spec fn unnamed_arg_of(e: Option<Expr>) -> FunctionArg;

/// A plain call `name([ALL | DISTINCT] args)`.
pub uninterp spec fn function_call_of(
    name: Seq<char>,
    duplicate_treatment: Option<DuplicateTreatment>,
    args: Seq<FunctionArg>,
) -> Expr;

/// Parses `sql` with sqlparser's SQLite dialect (`Parser::parse_sql`);
/// `None` when sqlparser reports an error.
#[verifier::external_body]
pub(crate) fn parse_statements(sql: &str) -> (r: Option<Vec<Statement>>)
    ensures
        match r {
            Some(v) => parsed_statements(sql@) == Some(v@),
            None => parsed_statements(sql@) is None,
        },
{
    sqlparser::parser::Parser::parse_sql(&sqlparser::dialect::SQLiteDialect {}, sql).ok()
}

/// The variant of a statement.
#[verifier::external_body]
pub(crate) fn statement_node(s: &Statement) -> (r: StatementNode<'_>)
    ensures
        match r {
            StatementNode::Query(q) => statement_part(*s) == StatementPart::Query(*q),
            StatementNode::Insert(i) => statement_part(*s) == StatementPart::Insert(*i),
            StatementNode::Update(u) => statement_part(*s) == StatementPart::Update(*u),
            StatementNode::Delete(d) => statement_part(*s) == StatementPart::Delete(*d),
            StatementNode::Other => statement_part(*s) == StatementPart::Other,
        },
{
    match s {
        Statement::Query(q) => StatementNode::Query(q),
        Statement::Insert(i) => StatementNode::Insert(i),
        Statement::Update(u) => StatementNode::Update(u),
        Statement::Delete(d) => StatementNode::Delete(d),
        _ => StatementNode::Other,
    }
}

/// The `WITH` clause of a query.
#[verifier::external_body]
pub(crate) fn query_with(q: &Query) -> (r: Option<&With>)
    ensures
        match r {
            Some(w) => with_clause_of(*q) == Some(*w),
            None => with_clause_of(*q) is None,
        },
{
    q.with.as_ref()
}

/// The body variant of a query.
#[verifier::external_body]
pub(crate) fn query_body(q: &Query) -> (r: BodyNode<'_>)
    ensures
        match r {
            BodyNode::Select(s) => body_part(*q) == BodyPart::Select(*s),
            BodyNode::Values(v) => body_part(*q) == BodyPart::Values(*v),
            BodyNode::Other => body_part(*q) == BodyPart::Other,
        },
{
    match q.body.as_ref() {
        sqlparser::ast::SetExpr::Select(s) => BodyNode::Select(s),
        sqlparser::ast::SetExpr::Values(v) => BodyNode::Values(v),
        _ => BodyNode::Other,
    }
}

/// The `DISTINCT` clause of a select.
#[verifier::external_body]
pub(crate) fn select_distinct(s: &Select) -> (r: Option<&Distinct>)
    ensures
        match r {
            Some(d) => distinct_of(*s) == Some(*d),
            None => distinct_of(*s) is None,
        },
{
    s.distinct.as_ref()
}

/// The `TOP ... WITH TIES` flag of a select (`false` without `TOP`).
#[verifier::external_body]
pub(crate) fn select_top_with_ties(s: &Select) -> (r: Option<bool>)
    ensures
        r == top_with_ties_of(*s),
{
    s.top.as_ref().map(|t| t.with_ties)
}

/// The projection of a select.
#[verifier::external_body]
pub(crate) fn select_projection(s: &Select) -> (r: &Vec<SelectItem>)
    ensures
        r@ == projection_of(*s),
{
    &s.projection
}

/// The `FROM` list of a select.
#[verifier::external_body]
pub(crate) fn select_from(s: &Select) -> (r: &Vec<TableWithJoins>)
    ensures
        r@ == from_of(*s),
{
    &s.from
}

/// The `GROUP BY` clause of a select.
#[verifier::external_body]
pub(crate) fn select_group_by(s: &Select) -> (r: GroupByNode<'_>)
    ensures
        match r {
            GroupByNode::All => group_by_part(*s) == GroupByPart::All,
            GroupByNode::Expressions(v) => group_by_part(*s) == GroupByPart::Expressions(v@),
        },
{
    match &s.group_by {
        sqlparser::ast::GroupByExpr::All(_) => GroupByNode::All,
        sqlparser::ast::GroupByExpr::Expressions(e, _) => GroupByNode::Expressions(e),
    }
}

/// The `HAVING` clause of a select.
#[verifier::external_body]
pub(crate) fn select_having(s: &Select) -> (r: Option<&Expr>)
    ensures
        match r {
            Some(h) => having_of(*s) == Some(*h),
            None => having_of(*s) is None,
        },
{
    s.having.as_ref()
}

/// The main relation of a `FROM` entry.
#[verifier::external_body]
pub(crate) fn twj_relation(t: &TableWithJoins) -> (r: &TableFactor)
    ensures
        *r == relation_of(*t),
{
    &t.relation
}

/// The joins of a `FROM` entry.
#[verifier::external_body]
pub(crate) fn twj_joins(t: &TableWithJoins) -> (r: &Vec<Join>)
    ensures
        r@ == joins_of(*t),
{
    &t.joins
}

/// The relation of a join.
#[verifier::external_body]
pub(crate) fn join_relation(j: &Join) -> (r: &TableFactor)
    ensures
        *r == join_relation_of(*j),
{
    &j.relation
}

/// The variant of a table factor.
#[verifier::external_body]
pub(crate) fn table_node(t: &TableFactor) -> (r: TableNode<'_>)
    ensures
        match r {
            TableNode::Derived(q) => table_part(*t) == TablePart::Derived(*q),
            TableNode::Other => table_part(*t) == TablePart::Other,
        },
{
    match t {
        TableFactor::Derived { subquery, .. } => TableNode::Derived(subquery),
        _ => TableNode::Other,
    }
}

/// The variant of a projection item.
#[verifier::external_body]
pub(crate) fn select_item_node(i: &SelectItem) -> (r: SelectItemNode<'_>)
    ensures
        match r {
            SelectItemNode::Unnamed(e) => item_part(*i) == ItemPart::Unnamed(*e),
            SelectItemNode::Aliased(e, a) => item_part(*i) == ItemPart::Aliased(*e, *a),
            SelectItemNode::QualifiedWildcard => item_part(*i) == ItemPart::QualifiedWildcard,
            SelectItemNode::Wildcard => item_part(*i) == ItemPart::Wildcard,
        },
{
    match i {
        SelectItem::UnnamedExpr(e) => SelectItemNode::Unnamed(e),
        SelectItem::ExprWithAlias { expr, alias } => SelectItemNode::Aliased(expr, alias),
        SelectItem::QualifiedWildcard(..) => SelectItemNode::QualifiedWildcard,
        SelectItem::Wildcard(_) => SelectItemNode::Wildcard,
    }
}

/// The variant of an expression.
#[verifier::external_body]
pub(crate) fn expr_node(e: &Expr) -> (r: ExprNode<'_>)
    ensures
        match r {
            ExprNode::Identifier(i) => expr_part(*e) == ExprPart::Identifier(*i),
            ExprNode::CompoundIdentifier(v) => expr_part(*e) == ExprPart::CompoundIdentifier(v@),
            ExprNode::Function(f) => expr_part(*e) == ExprPart::Function(*f),
            ExprNode::BinaryOp(l, rr) => expr_part(*e) == ExprPart::BinaryOp(*l, *rr),
            ExprNode::Nested(n) => expr_part(*e) == ExprPart::Nested(*n),
            ExprNode::Value(v) => expr_part(*e) == ExprPart::Value(*v),
            ExprNode::Other => expr_part(*e) == ExprPart::Other,
        },
{
    match e {
        Expr::Identifier(i) => ExprNode::Identifier(i),
        Expr::CompoundIdentifier(v) => ExprNode::CompoundIdentifier(v),
        Expr::Function(f) => ExprNode::Function(f),
        Expr::BinaryOp { left, right, .. } => ExprNode::BinaryOp(left, right),
        Expr::Nested(n) => ExprNode::Nested(n),
        Expr::Value(v) => ExprNode::Value(v),
        _ => ExprNode::Other,
    }
}

/// Whether a literal value is a placeholder (`?`, `$1`, ...).
#[verifier::external_body]
pub(crate) fn value_is_placeholder(v: &ValueWithSpan) -> (r: bool)
    ensures
        r == is_placeholder_value(*v),
{
    matches!(v.value, sqlparser::ast::Value::Placeholder(_))
}

/// The text of an identifier.
#[verifier::external_body]
pub(crate) fn ident_value(i: &Ident) -> (r: String)
    ensures
        r@ == ident_text(*i),
{
    i.value.clone()
}

/// The `OVER` clause of a function call.
#[verifier::external_body]
pub(crate) fn function_over(f: &Function) -> (r: Option<&WindowType>)
    ensures
        match r {
            Some(w) => over_of(*f) == Some(*w),
            None => over_of(*f) is None,
        },
{
    f.over.as_ref()
}

/// The rendered name of a called function (`ObjectName`'s `Display`).
#[verifier::external_body]
pub(crate) fn function_name_text(f: &Function) -> (r: String)
    ensures
        r@ == function_name_of(*f),
{
    f.name.to_string()
}

/// The rows of a `VALUES` list.
#[verifier::external_body]
pub(crate) fn values_rows(v: &Values) -> (r: &Vec<Vec<Expr>>)
    ensures
        r@ == rows_of(*v),
{
    &v.rows
}

/// The target columns of an `INSERT`.
#[verifier::external_body]
pub(crate) fn insert_columns(i: &Insert) -> (r: &Vec<Ident>)
    ensures
        r@ == insert_columns_of(*i),
{
    &i.columns
}

/// The source query of an `INSERT`.
#[verifier::external_body]
pub(crate) fn insert_source(i: &Insert) -> (r: Option<&Query>)
    ensures
        match r {
            Some(q) => insert_source_of(*i) == Some(*q),
            None => insert_source_of(*i) is None,
        },
{
    i.source.as_deref()
}

/// The `ON CONFLICT` / `ON DUPLICATE KEY` clause of an `INSERT`.
#[verifier::external_body]
pub(crate) fn insert_on(i: &Insert) -> (r: Option<&OnInsert>)
    ensures
        match r {
            Some(o) => insert_on_of(*i) == Some(*o),
            None => insert_on_of(*i) is None,
        },
{
    i.on.as_ref()
}

/// The `RETURNING` list of an `INSERT`.
#[verifier::external_body]
pub(crate) fn insert_returning(i: &Insert) -> (r: Option<&Vec<SelectItem>>)
    ensures
        match r {
            Some(items) => insert_returning_of(*i) == Some(*items),
            None => insert_returning_of(*i) is None,
        },
{
    i.returning.as_ref()
}

/// The `RETURNING` list of an `UPDATE`.
#[verifier::external_body]
pub(crate) fn update_returning(u: &Update) -> (r: Option<&Vec<SelectItem>>)
    ensures
        match r {
            Some(items) => update_returning_of(*u) == Some(*items),
            None => update_returning_of(*u) is None,
        },
{
    u.returning.as_ref()
}

/// The `RETURNING` list of a `DELETE`.
#[verifier::external_body]
pub(crate) fn delete_returning(d: &Delete) -> (r: Option<&Vec<SelectItem>>)
    ensures
        match r {
            Some(items) => delete_returning_of(*d) == Some(*items),
            None => delete_returning_of(*d) is None,
        },
{
    d.returning.as_ref()
}

/// `Display` of an expression.
#[verifier::external_body]
pub(crate) fn expr_text(e: &Expr) -> (r: String)
    ensures
        r@ == rendered_expr(*e),
{
    e.to_string()
}

/// `Display` of a projection item.
#[verifier::external_body]
pub(crate) fn select_item_text(i: &SelectItem) -> (r: String)
    ensures
        r@ == rendered_item(*i),
{
    i.to_string()
}

/// `Display` of an `ON CONFLICT` clause.
#[verifier::external_body]
pub(crate) fn on_insert_text(o: &OnInsert) -> (r: String)
    ensures
        r@ == rendered_on_insert(*o),
{
    o.to_string()
}

/// `Display` of a statement.
#[verifier::external_body]
pub(crate) fn statement_text(s: &Statement) -> (r: String)
    ensures
        r@ == rendered_statement(*s),
{
    s.to_string()
}

/// `Display` of a query.
#[verifier::external_body]
pub(crate) fn query_text(q: &Query) -> (r: String)
    ensures
        r@ == rendered_query(*q),
{
    q.to_string()
}

/// `Display` of a `WITH` clause.
#[verifier::external_body]
pub(crate) fn with_text(w: &With) -> (r: String)
    ensures
        r@ == rendered_with(*w),
{
    w.to_string()
}

/// `Display` of an `INSERT`.
#[verifier::external_body]
pub(crate) fn insert_text(i: &Insert) -> (r: String)
    ensures
        r@ == rendered_insert(*i),
{
    i.to_string()
}

/// A copy of a query (the derived `Clone`, field by field).
#[verifier::external_body]
pub(crate) fn query_clone(q: &Query) -> (r: Query)
    ensures
        r == *q,
{
    q.clone()
}

/// A copy of an `INSERT` (the derived `Clone`, field by field).
#[verifier::external_body]
pub(crate) fn insert_clone(i: &Insert) -> (r: Insert)
    ensures
        r == *i,
{
    i.clone()
}

/// A copy of an expression (the derived `Clone`, field by field).
#[verifier::external_body]
pub(crate) fn expr_clone(e: &Expr) -> (r: Expr)
    ensures
        r == *e,
{
    e.clone()
}

/// Sets the `order_by` field of a query to `None`.
#[verifier::external_body]
pub(crate) fn query_clear_order_by(q: &mut Query)
    ensures
        *final(q) == query_without_order_by(*old(q)),
{
    q.order_by = None;
}

/// Sets the `limit_clause` field (`LIMIT`/`OFFSET`) of a query to `None`.
#[verifier::external_body]
pub(crate) fn query_clear_limit(q: &mut Query)
    ensures
        *final(q) == query_without_limit(*old(q)),
{
    q.limit_clause = None;
}

/// Sets the `fetch` field of a query to `None`.
#[verifier::external_body]
pub(crate) fn query_clear_fetch(q: &mut Query)
    ensures
        *final(q) == query_without_fetch(*old(q)),
{
    q.fetch = None;
}

/// Sets the `with` field of a query to `None`.
#[verifier::external_body]
pub(crate) fn query_clear_with(q: &mut Query)
    ensures
        *final(q) == query_without_with(*old(q)),
{
    q.with = None;
}

/// Replaces the projection of a query whose body is a select.
#[verifier::external_body]
pub(crate) fn query_set_projection(q: &mut Query, items: Vec<SelectItem>)
    ensures
        *final(q) == query_with_projection(*old(q), items@),
{
    if let sqlparser::ast::SetExpr::Select(s) = q.body.as_mut() {
        s.projection = items;
    }
}

/// Removes `DISTINCT` from a query whose body is a select.
#[verifier::external_body]
pub(crate) fn query_clear_distinct(q: &mut Query)
    ensures
        *final(q) == query_without_distinct(*old(q)),
{
    if let sqlparser::ast::SetExpr::Select(s) = q.body.as_mut() {
        s.distinct = None;
    }
}

/// Sets the `source` field of an `INSERT` to `None`.
#[verifier::external_body]
pub(crate) fn insert_clear_source(i: &mut Insert)
    ensures
        *final(i) == insert_without_source(*old(i)),
{
    i.source = None;
}

/// Sets the `on` field (`ON CONFLICT` / `ON DUPLICATE KEY`) of an `INSERT` to
/// `None`.
#[verifier::external_body]
pub(crate) fn insert_clear_on(i: &mut Insert)
    ensures
        *final(i) == insert_without_on(*old(i)),
{
    i.on = None;
}

/// Sets the `returning` field of an `INSERT` to `None`.
#[verifier::external_body]
pub(crate) fn insert_clear_returning(i: &mut Insert)
    ensures
        *final(i) == insert_without_returning(*old(i)),
{
    i.returning = None;
}

/// `Expr::Identifier(Ident::new(name))`.
#[verifier::external_body]
pub(crate) fn identifier_expr(name: &str) -> (r: Expr)
    ensures
        r == identifier_of(name@),
{
    Expr::Identifier(Ident::new(name))
}

/// `SelectItem::UnnamedExpr(e)`.
#[verifier::external_body]
pub(crate) fn unnamed_item(e: Expr) -> (r: SelectItem)
    ensures
        r == unnamed_item_of(e),
{
    SelectItem::UnnamedExpr(e)
}

/// `DuplicateTreatment::Distinct` for `true`, `DuplicateTreatment::All` for
/// `false`.
#[verifier::external_body]
pub(crate) fn duplicate_treatment(distinct: bool) -> (r: DuplicateTreatment)
    ensures
        r == duplicate_treatment_of(distinct),
{
    match distinct {
        true => DuplicateTreatment::Distinct,
        false => DuplicateTreatment::All,
    }
}

/// An unnamed function argument: `*` for `None`, the expression otherwise.
#[verifier::external_body]
pub(crate) fn unnamed_arg(e: Option<Expr>) -> (r: FunctionArg)
    ensures
        r == unnamed_arg_of(e),
{
    match e {
        None => FunctionArg::Unnamed(sqlparser::ast::FunctionArgExpr::Wildcard),
        Some(e) => FunctionArg::Unnamed(sqlparser::ast::FunctionArgExpr::Expr(e)),
    }
}

/// A plain call `name([ALL | DISTINCT] args)` with no filter, window or
/// other clause.
#[verifier::external_body]
pub(crate) fn function_call(
    name: &str,
    duplicate_treatment: Option<DuplicateTreatment>,
    args: Vec<FunctionArg>,
) -> (r: Expr)
    ensures
        r == function_call_of(name@, duplicate_treatment, args@),
{
    Expr::Function(Function {
        name: ObjectName(vec![ObjectNamePart::Identifier(Ident::new(name))]),
        uses_odbc_syntax: false,
        parameters: FunctionArguments::None,
        args: FunctionArguments::List(FunctionArgumentList { duplicate_treatment, args, clauses: vec![] }),
        filter: None,
        null_treatment: None,
        within_group: vec![],
        over: None,
    })
}

} // verus!
