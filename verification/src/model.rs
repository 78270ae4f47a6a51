//! What the library reads of a parsed SQL statement, as plain values, and the
//! builder that reads it from the sqlparser tree.
use vstd::prelude::*;

use crate::sql_ast::{
    body_part, delete_returning, delete_returning_of, distinct_of, expr_node, expr_part, expr_text,
    from_of, function_name_of, function_name_text, function_over, group_by_part, having_of,
    ident_text, ident_value, insert_columns, insert_columns_of, insert_on, insert_on_of,
    insert_returning, insert_returning_of, insert_source, insert_source_of, is_placeholder_value,
    item_part, join_relation, join_relation_of, joins_of, on_insert_text, over_of, projection_of,
    query_body, query_with, relation_of, rendered_expr, rendered_item, rendered_on_insert, rows_of,
    select_distinct, select_from, select_group_by, select_having, select_item_node,
    select_item_text, select_projection, select_top_with_ties, statement_node, statement_part,
    table_node, table_part, top_with_ties_of, twj_joins, twj_relation, update_returning,
    update_returning_of, value_is_placeholder, values_rows, with_clause_of, BodyNode, BodyPart,
    ExprNode, ExprPart, GroupByNode, GroupByPart, ItemPart, SelectItemNode, StatementNode,
    StatementPart, TableNode, TablePart,
};
use sqlparser::ast::{
    Expr, Insert, Query, Select, SelectItem, Statement, TableFactor, TableWithJoins,
};

verus! {

/// What the library reads of an expression.
#[derive(Debug)]
pub enum ExprKind {
    /// A plain identifier, with its text.
    Identifier(String),
    /// A qualified identifier `a.b.c`, with the text of its last part.
    CompoundIdentifier(Option<String>),
    /// A function call, with its rendered name and whether it has `OVER`.
    Function { name: String, windowed: bool },
    /// A binary operation.
    BinaryOp(Box<ExprModel>, Box<ExprModel>),
    /// A parenthesised expression.
    Nested(Box<ExprModel>),
    /// A placeholder literal such as `?` or `$1`.
    Placeholder,
    /// Any other expression.
    Other,
}

/// An expression: its kind and its rendered text.
#[derive(Debug)]
pub struct ExprModel {
    pub kind: ExprKind,
    pub text: String,
}

/// What the library reads of a projection item.
#[derive(Debug)]
pub enum ItemKind {
    /// An expression without alias.
    Unnamed(ExprModel),
    /// An expression with `AS alias`, with the alias text.
    Aliased(ExprModel, String),
    /// `t.*`.
    QualifiedWildcard,
    /// `*`.
    Wildcard,
}

/// A projection item: its kind and its rendered text.
#[derive(Debug)]
pub struct SelectItemModel {
    pub kind: ItemKind,
    pub text: String,
}

/// A relation in `FROM` or in a join.
#[derive(Debug)]
pub enum RelationModel {
    /// A derived table `( subquery )`.
    Derived(Box<QueryModel>),
    /// Any other relation.
    Other,
}

/// One `FROM` entry with its joins.
#[derive(Debug)]
pub struct FromModel {
    pub relation: RelationModel,
    pub joins: Vec<RelationModel>,
}

/// What the library reads of a `SELECT`.
#[derive(Debug)]
pub struct SelectModel {
    pub distinct: bool,
    pub with_ties: bool,
    pub projection: Vec<SelectItemModel>,
    pub group_by_nonempty: bool,
    pub having: bool,
    pub from: Vec<FromModel>,
}

/// The body of a query.
#[derive(Debug)]
pub enum BodyModel {
    Select(Box<SelectModel>),
    Values(Vec<Vec<ExprModel>>),
    Other,
}

/// What the library reads of a query.
#[derive(Debug)]
pub struct QueryModel {
    pub has_with: bool,
    pub body: BodyModel,
}

/// What the library reads of an `INSERT`.
#[derive(Debug)]
pub struct InsertModel {
    pub columns: Vec<String>,
    pub source: Option<QueryModel>,
    pub returning: Option<Vec<SelectItemModel>>,
    pub on_conflict: Option<String>,
}

/// What the library reads of a statement.
#[derive(Debug)]
pub enum StatementModel {
    Query(QueryModel),
    Insert(InsertModel),
    Update(Option<Vec<SelectItemModel>>),
    Delete(Option<Vec<SelectItemModel>>),
    Other,
}

/// The depth to which the builders read nested expressions and subqueries.
pub open spec fn full_depth() -> nat {
    0xffff_ffff_ffff_ffffnat
}

/// `m` is what the library reads of expression `e`, nested expressions read
/// to depth `fuel` (deeper ones read as `Other`).
pub open spec fn reads_expr(m: ExprModel, e: Expr, fuel: nat) -> bool
    decreases fuel,
{
    &&& m.text@ == rendered_expr(e)
    &&& match expr_part(e) {
        ExprPart::Identifier(i) => m.kind matches ExprKind::Identifier(v) && v@ == ident_text(i),
        ExprPart::CompoundIdentifier(parts) => if parts.len() == 0 {
            m.kind matches ExprKind::CompoundIdentifier(None)
        } else {
            m.kind matches ExprKind::CompoundIdentifier(Some(v)) && v@ == ident_text(parts.last())
        },
        ExprPart::Function(f) => m.kind matches ExprKind::Function { name, windowed } && name@
            == function_name_of(f) && windowed == (over_of(f) is Some),
        ExprPart::BinaryOp(l, r) => if fuel == 0 {
            m.kind is Other
        } else {
            m.kind matches ExprKind::BinaryOp(ml, mr) && reads_expr(*ml, l, (fuel - 1) as nat)
                && reads_expr(*mr, r, (fuel - 1) as nat)
        },
        ExprPart::Nested(n) => if fuel == 0 {
            m.kind is Other
        } else {
            m.kind matches ExprKind::Nested(mn) && reads_expr(*mn, n, (fuel - 1) as nat)
        },
        ExprPart::Value(v) => if is_placeholder_value(v) {
            m.kind is Placeholder
        } else {
            m.kind is Other
        },
        ExprPart::Other => m.kind is Other,
    }
}

/// `m` is what the library reads of projection item `i`.
pub open spec fn reads_item(m: SelectItemModel, i: SelectItem) -> bool {
    &&& m.text@ == rendered_item(i)
    &&& match item_part(i) {
        ItemPart::Unnamed(e) => m.kind matches ItemKind::Unnamed(me) && reads_expr(
            me,
            e,
            full_depth(),
        ),
        ItemPart::Aliased(e, a) => m.kind matches ItemKind::Aliased(me, al) && reads_expr(
            me,
            e,
            full_depth(),
        ) && al@ == ident_text(a),
        ItemPart::QualifiedWildcard => m.kind is QualifiedWildcard,
        ItemPart::Wildcard => m.kind is Wildcard,
    }
}

/// `ms` reads the projection items `items`, one for one.
pub open spec fn reads_items(ms: Seq<SelectItemModel>, items: Seq<SelectItem>) -> bool {
    &&& ms.len() == items.len()
    &&& forall|k: int| 0 <= k < ms.len() ==> reads_item(#[trigger] ms[k], items[k])
}

/// `m` reads relation `t`, subqueries to depth `fuel`.
pub open spec fn reads_relation(m: RelationModel, t: TableFactor, fuel: nat) -> bool
    decreases fuel, 0nat,
{
    match table_part(t) {
        TablePart::Derived(q) => if fuel == 0 {
            m is Other
        } else {
            m matches RelationModel::Derived(mq) && reads_query(*mq, q, (fuel - 1) as nat)
        },
        TablePart::Other => m is Other,
    }
}

/// `m` reads the `FROM` entry `t` and its joins.
pub open spec fn reads_from(m: FromModel, t: TableWithJoins, fuel: nat) -> bool
    decreases fuel, 1nat,
{
    &&& reads_relation(m.relation, relation_of(t), fuel)
    &&& m.joins@.len() == joins_of(t).len()
    &&& forall|j: int|
        0 <= j < m.joins@.len() ==> reads_relation(
            #[trigger] m.joins@[j],
            join_relation_of(joins_of(t)[j]),
            fuel,
        )
}

/// `m` reads the select `s`.
pub open spec fn reads_select(m: SelectModel, s: Select, fuel: nat) -> bool
    decreases fuel, 2nat,
{
    &&& m.distinct == (distinct_of(s) is Some)
    &&& m.with_ties == match top_with_ties_of(s) {
        Some(b) => b,
        None => false,
    }
    &&& reads_items(m.projection@, projection_of(s))
    &&& m.group_by_nonempty == match group_by_part(s) {
        GroupByPart::All => false,
        GroupByPart::Expressions(v) => v.len() > 0,
    }
    &&& m.having == (having_of(s) is Some)
    &&& m.from@.len() == from_of(s).len()
    &&& forall|k: int|
        0 <= k < m.from@.len() ==> reads_from(#[trigger] m.from@[k], from_of(s)[k], fuel)
}

/// `rows` reads the `VALUES` rows `src`, expression by expression.
pub open spec fn reads_rows(rows: Seq<Vec<ExprModel>>, src: Seq<Vec<Expr>>) -> bool {
    &&& rows.len() == src.len()
    &&& forall|r: int|
        0 <= r < rows.len() ==> (#[trigger] rows[r])@.len() == src[r]@.len() && forall|c: int|
            0 <= c < rows[r]@.len() ==> reads_expr(
                #[trigger] rows[r]@[c],
                src[r]@[c],
                full_depth(),
            )
}

/// `m` reads the query `q`, subqueries to depth `fuel`.
pub open spec fn reads_query(m: QueryModel, q: Query, fuel: nat) -> bool
    decreases fuel, 3nat,
{
    &&& m.has_with == (with_clause_of(q) is Some)
    &&& match body_part(q) {
        BodyPart::Select(s) => m.body matches BodyModel::Select(ms) && reads_select(*ms, s, fuel),
        BodyPart::Values(v) => m.body matches BodyModel::Values(rows) && reads_rows(
            rows@,
            rows_of(v),
        ),
        BodyPart::Other => m.body is Other,
    }
}

/// `m` reads an optional `RETURNING` list.
pub open spec fn reads_returning(
    m: Option<Vec<SelectItemModel>>,
    src: Option<Vec<SelectItem>>,
) -> bool {
    match (m, src) {
        (Some(v), Some(items)) => reads_items(v@, items@),
        (None, None) => true,
        _ => false,
    }
}

/// `m` reads the `INSERT` `i`.
pub open spec fn reads_insert(m: InsertModel, i: Insert) -> bool {
    &&& m.columns@.len() == insert_columns_of(i).len()
    &&& forall|k: int|
        0 <= k < m.columns@.len() ==> (#[trigger] m.columns@[k])@ == ident_text(
            insert_columns_of(i)[k],
        )
    &&& match insert_source_of(i) {
        Some(q) => m.source matches Some(mq) && reads_query(mq, q, full_depth()),
        None => m.source is None,
    }
    &&& reads_returning(m.returning, insert_returning_of(i))
    &&& match insert_on_of(i) {
        Some(o) => m.on_conflict matches Some(t) && t@ == rendered_on_insert(o),
        None => m.on_conflict is None,
    }
}

/// `m` is what the library reads of statement `s`.
pub open spec fn reads_statement(m: StatementModel, s: Statement) -> bool {
    match statement_part(s) {
        StatementPart::Query(q) => m matches StatementModel::Query(mq) && reads_query(
            mq,
            q,
            full_depth(),
        ),
        StatementPart::Insert(i) => m matches StatementModel::Insert(mi) && reads_insert(mi, i),
        StatementPart::Update(u) => m matches StatementModel::Update(r) && reads_returning(
            r,
            update_returning_of(u),
        ),
        StatementPart::Delete(d) => m matches StatementModel::Delete(r) && reads_returning(
            r,
            delete_returning_of(d),
        ),
        StatementPart::Other => m is Other,
    }
}

/// Reads an expression (`fuel` bounds the depth; a tree deeper than any that
/// fits in memory would read as `Other` below that depth).
pub(crate) fn expr_model(e: &Expr, fuel: u64) -> (r: ExprModel)
    ensures
        reads_expr(r, *e, fuel as nat),
    decreases fuel,
{
    let text = expr_text(e);
    let kind = match expr_node(e) {
        ExprNode::Identifier(i) => ExprKind::Identifier(ident_value(i)),
        ExprNode::CompoundIdentifier(parts) => {
            if parts.len() == 0 {
                ExprKind::CompoundIdentifier(None)
            } else {
                ExprKind::CompoundIdentifier(Some(ident_value(&parts[parts.len() - 1])))
            }
        },
        ExprNode::Function(f) => ExprKind::Function {
            name: function_name_text(f),
            windowed: function_over(f).is_some(),
        },
        ExprNode::BinaryOp(l, r) => {
            if fuel == 0 {
                ExprKind::Other
            } else {
                ExprKind::BinaryOp(
                    Box::new(expr_model(l, fuel - 1)),
                    Box::new(expr_model(r, fuel - 1)),
                )
            }
        },
        ExprNode::Nested(n) => {
            if fuel == 0 {
                ExprKind::Other
            } else {
                ExprKind::Nested(Box::new(expr_model(n, fuel - 1)))
            }
        },
        ExprNode::Value(v) => {
            if value_is_placeholder(v) {
                ExprKind::Placeholder
            } else {
                ExprKind::Other
            }
        },
        ExprNode::Other => ExprKind::Other,
    };
    ExprModel { kind, text }
}

/// Reads a projection item.
pub(crate) fn item_model(i: &SelectItem) -> (r: SelectItemModel)
    ensures
        reads_item(r, *i),
{
    let text = select_item_text(i);
    let kind = match select_item_node(i) {
        SelectItemNode::Unnamed(e) => ItemKind::Unnamed(expr_model(e, u64::MAX)),
        SelectItemNode::Aliased(e, a) => ItemKind::Aliased(expr_model(e, u64::MAX), ident_value(a)),
        SelectItemNode::QualifiedWildcard => ItemKind::QualifiedWildcard,
        SelectItemNode::Wildcard => ItemKind::Wildcard,
    };
    SelectItemModel { kind, text }
}

/// Reads a projection list.
pub(crate) fn items_model(v: &Vec<SelectItem>) -> (r: Vec<SelectItemModel>)
    ensures
        r@.len() == v@.len(),
        reads_items(r@, v@),
{
    let mut r: Vec<SelectItemModel> = Vec::new();
    let mut i: usize = 0;
    while i < v.len()
        invariant
            i <= v@.len(),
            r@.len() == i,
            forall|k: int| 0 <= k < i ==> reads_item(#[trigger] r@[k], v@[k]),
        decreases v.len() - i,
    {
        r.push(item_model(&v[i]));
        i += 1;
    }
    r
}

/// Reads a relation.
pub(crate) fn relation_model(t: &TableFactor, fuel: u64) -> (r: RelationModel)
    ensures
        reads_relation(r, *t, fuel as nat),
    decreases fuel, 0nat,
{
    match table_node(t) {
        TableNode::Derived(q) => {
            if fuel == 0 {
                RelationModel::Other
            } else {
                RelationModel::Derived(Box::new(query_model(q, fuel - 1)))
            }
        },
        TableNode::Other => RelationModel::Other,
    }
}

/// Reads a `FROM` entry and its joins.
fn from_model(t: &TableWithJoins, fuel: u64) -> (r: FromModel)
    ensures
        reads_from(r, *t, fuel as nat),
    decreases fuel, 1nat,
{
    let relation = relation_model(twj_relation(t), fuel);
    let joins_ast = twj_joins(t);
    let mut joins: Vec<RelationModel> = Vec::new();
    let mut j: usize = 0;
    while j < joins_ast.len()
        invariant
            j <= joins_ast@.len(),
            joins_ast@ == joins_of(*t),
            joins@.len() == j,
            forall|k: int|
                0 <= k < j ==> reads_relation(
                    #[trigger] joins@[k],
                    join_relation_of(joins_ast@[k]),
                    fuel as nat,
                ),
        decreases joins_ast.len() - j,
    {
        joins.push(relation_model(join_relation(&joins_ast[j]), fuel));
        j += 1;
    }
    FromModel { relation, joins }
}

/// Reads a `SELECT`.
pub(crate) fn select_model(s: &Select, fuel: u64) -> (r: SelectModel)
    ensures
        reads_select(r, *s, fuel as nat),
    decreases fuel, 2nat,
{
    let from_ast = select_from(s);
    let mut from: Vec<FromModel> = Vec::new();
    let mut i: usize = 0;
    while i < from_ast.len()
        invariant
            i <= from_ast@.len(),
            from_ast@ == from_of(*s),
            from@.len() == i,
            forall|k: int| 0 <= k < i ==> reads_from(#[trigger] from@[k], from_ast@[k], fuel as nat),
        decreases from_ast.len() - i,
    {
        from.push(from_model(&from_ast[i], fuel));
        i += 1;
    }
    let group_by_nonempty = match select_group_by(s) {
        GroupByNode::All => false,
        GroupByNode::Expressions(e) => e.len() > 0,
    };
    SelectModel {
        distinct: select_distinct(s).is_some(),
        with_ties: match select_top_with_ties(s) {
            Some(b) => b,
            None => false,
        },
        projection: items_model(select_projection(s)),
        group_by_nonempty,
        having: select_having(s).is_some(),
        from,
    }
}

/// Reads the rows of a `VALUES` list.
fn rows_model(rows_ast: &Vec<Vec<Expr>>) -> (rows: Vec<Vec<ExprModel>>)
    ensures
        reads_rows(rows@, rows_ast@),
{
    let mut rows: Vec<Vec<ExprModel>> = Vec::new();
    let mut i: usize = 0;
    while i < rows_ast.len()
        invariant
            i <= rows_ast@.len(),
            rows@.len() == i,
            forall|r: int|
                0 <= r < i ==> (#[trigger] rows@[r])@.len() == rows_ast@[r]@.len() && forall|c: int|
                    0 <= c < rows@[r]@.len() ==> reads_expr(
                        #[trigger] rows@[r]@[c],
                        rows_ast@[r]@[c],
                        full_depth(),
                    ),
        decreases rows_ast.len() - i,
    {
        let mut row: Vec<ExprModel> = Vec::new();
        let row_ast = &rows_ast[i];
        let mut j: usize = 0;
        while j < row_ast.len()
            invariant
                j <= row_ast@.len(),
                row@.len() == j,
                forall|c: int|
                    0 <= c < j ==> reads_expr(#[trigger] row@[c], row_ast@[c], full_depth()),
            decreases row_ast.len() - j,
        {
            row.push(expr_model(&row_ast[j], u64::MAX));
            j += 1;
        }
        rows.push(row);
        i += 1;
    }
    rows
}

/// Reads a query.
pub(crate) fn query_model(q: &Query, fuel: u64) -> (r: QueryModel)
    ensures
        reads_query(r, *q, fuel as nat),
    decreases fuel, 3nat,
{
    let body = match query_body(q) {
        BodyNode::Select(s) => BodyModel::Select(Box::new(select_model(s, fuel))),
        BodyNode::Values(v) => BodyModel::Values(rows_model(values_rows(v))),
        BodyNode::Other => BodyModel::Other,
    };
    QueryModel { has_with: query_with(q).is_some(), body }
}

/// Reads an optional `RETURNING` list: a list of as many items when there is
/// one, each read from its item, none otherwise.
fn returning_model(r: Option<&Vec<SelectItem>>) -> (m: Option<Vec<SelectItemModel>>)
    ensures
        match r {
            Some(items) => m matches Some(v) && v@.len() == items@.len() && reads_items(
                v@,
                items@,
            ),
            None => m is None,
        },
{
    match r {
        Some(items) => Some(items_model(items)),
        None => None,
    }
}

/// Reads a statement.
pub(crate) fn statement_model(s: &Statement) -> (r: StatementModel)
    ensures
        reads_statement(r, *s),
{
    match statement_node(s) {
        StatementNode::Query(q) => StatementModel::Query(query_model(q, u64::MAX)),
        StatementNode::Insert(ins) => {
            let cols_ast = insert_columns(ins);
            let mut columns: Vec<String> = Vec::new();
            let mut i: usize = 0;
            while i < cols_ast.len()
                invariant
                    i <= cols_ast@.len(),
                    columns@.len() == i,
                    forall|k: int|
                        0 <= k < i ==> (#[trigger] columns@[k])@ == ident_text(cols_ast@[k]),
                decreases cols_ast.len() - i,
            {
                columns.push(ident_value(&cols_ast[i]));
                i += 1;
            }
            let source = match insert_source(ins) {
                Some(q) => Some(query_model(q, u64::MAX)),
                None => None,
            };
            let on_conflict = match insert_on(ins) {
                Some(o) => Some(on_insert_text(o)),
                None => None,
            };
            StatementModel::Insert(
                InsertModel { columns, source, returning: returning_model(insert_returning(ins)), on_conflict },
            )
        },
        StatementNode::Update(u) => StatementModel::Update(returning_model(update_returning(u))),
        StatementNode::Delete(d) => StatementModel::Delete(returning_model(delete_returning(d))),
        StatementNode::Other => StatementModel::Other,
    }
}

} // verus!
