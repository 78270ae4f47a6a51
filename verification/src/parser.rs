//! Parsing one SQL statement, and inferring the result columns of a
//! statement from its projection or `RETURNING` list.
use vstd::prelude::*;

use std::sync::Arc;

use crate::cache::GlobalCache;
use crate::error::ParserError;
use crate::model::{
    reads_statement, statement_model, BodyModel, ExprKind, ExprModel, ItemKind, SelectItemModel, StatementModel,
};
use crate::sql_ast::{parse_statements, parsed_statements, rendered_statement, statement_text};
use crate::text::{decimal, decimal_chars, lowercase_of, string_eq, string_of, to_lowercase};
use sqlparser::ast::Statement;

verus! {

/// SQL statement types for DML operations.
#[derive(Debug, Clone, Copy, PartialEq, Eq, Structural)]
pub enum SqlStatementType {
    Select,
    Insert,
    Update,
    Delete,
    DDL,
    Unknown,
}

/// A parsed statement: the sqlparser tree, what the library reads of it,
/// and the text it was parsed from when the library parsed it.
#[derive(Debug)]
pub struct SqlStatement {
    ast: Statement,
    model: StatementModel,
    source: Option<String>,
}

impl SqlStatement {
    /// The model is what the library reads of the tree.
    #[verifier::type_invariant]
    closed spec fn model_reads_ast(self) -> bool {
        &&& reads_statement(self.model, self.ast)
        &&& self.source matches Some(t) ==> parsed_statements(t@) == Some(seq![self.ast])
    }

    /// What the library reads of this statement.
    pub closed spec fn model_of(&self) -> StatementModel {
        self.model
    }

    /// The sqlparser tree of this statement.
    pub closed spec fn ast_of(&self) -> Statement {
        self.ast
    }

    /// The statement read from a sqlparser tree.
    pub fn from_ast(ast: Statement) -> (r: Self)
        ensures
            r.ast_of() == ast,
            reads_statement(r.model_of(), ast),
    {
        let model = statement_model(&ast);
        SqlStatement { ast, model, source: None }
    }

    /// The statement that sqlparser reads as the only one of `sql`, recorded
    /// with that text.
    fn from_parse(ast: Statement, sql: &str) -> (r: Self)
        requires
            parsed_statements(sql@) == Some(seq![ast]),
        ensures
            r.ast_of() == ast,
            reads_statement(r.model_of(), ast),
    {
        let model = statement_model(&ast);
        SqlStatement { ast, model, source: Some(String::from_str(sql)) }
    }

    /// Whether this statement is known to be the only statement sqlparser
    /// reads from `sql` (it was parsed by the library from that very text).
    pub fn was_parsed_from(&self, sql: &str) -> (r: bool)
        ensures
            r ==> parsed_statements(sql@) == Some(seq![self.ast_of()]),
    {
        proof {
            use_type_invariant(self);
        }
        match &self.source {
            Some(t) => {
                let s = String::from_str(sql);
                string_eq(t, &s)
            },
            None => false,
        }
    }

    /// The sqlparser tree.
    pub fn ast(&self) -> (r: &Statement)
        ensures
            *r == self.ast_of(),
    {
        &self.ast
    }

    /// What the library reads of this statement.
    pub fn model(&self) -> (r: &StatementModel)
        ensures
            *r == self.model_of(),
            reads_statement(*r, self.ast_of()),
    {
        proof {
            use_type_invariant(self);
        }
        &self.model
    }

    /// The statement rendered as SQL by sqlparser.
    pub fn to_string(&self) -> (r: String)
        ensures
            r@ == rendered_statement(self.ast_of()),
    {
        statement_text(&self.ast)
    }
}

/// The result of inferring columns.
#[derive(Debug, Clone)]
pub struct InferredSelect {
    pub columns: Vec<String>,
}

/// `field_<index>`, the name given to a column without a usable name.
pub open spec fn field_name(index: nat) -> Seq<char> {
    "field_"@ + decimal(index)
}

/// Whether a result column needs an `AS` alias to be read by SQLx: every
/// expression but a plain or qualified identifier.
pub open spec fn needs_alias(e: ExprModel) -> bool {
    !(e.kind is Identifier || e.kind is CompoundIdentifier)
}

/// The column name an expression gives at position `index`.
pub open spec fn expression_name(e: ExprModel, index: nat) -> Seq<char> {
    match e.kind {
        ExprKind::Identifier(v) => v@,
        ExprKind::CompoundIdentifier(Some(v)) => v@,
        ExprKind::Function { name, .. } => lowercase_of(name@),
        _ => field_name(index),
    }
}

/// The error message for an unaliased expression at position `index`.
pub open spec fn alias_required_message(index: nat, text: Seq<char>) -> Seq<char> {
    "Column "@ + decimal(index + 1) + " '"@ + text
        + "' requires an alias for SQLx compatibility. Add 'AS column_name'. Example: "@ + text
        + " AS column_name"@
}

/// The column of one projection item at position `index`, or the message of
/// the error it raises.
pub open spec fn item_column(item: SelectItemModel, index: nat) -> Result<Seq<char>, Seq<char>> {
    match item.kind {
        ItemKind::Unnamed(e) => if needs_alias(e) {
            Err(alias_required_message(index, e.text@))
        } else {
            Ok(expression_name(e, index))
        },
        ItemKind::Aliased(_, alias) => Ok(alias@),
        ItemKind::Wildcard => Err("SELECT * is not supported; use explicit columns"@),
        ItemKind::QualifiedWildcard => Ok(field_name(index)),
    }
}

/// The columns of the projection items from position `i` on, or the first
/// error.
pub open spec fn projection_columns(items: Seq<SelectItemModel>, i: nat) -> Result<
    Seq<Seq<char>>,
    Seq<char>,
>
    decreases items.len() - i,
{
    if i >= items.len() {
        Ok(Seq::empty())
    } else {
        match item_column(items[i as int], i) {
            Err(m) => Err(m),
            Ok(c) => match projection_columns(items, i + 1) {
                Ok(cs) => Ok(seq![c] + cs),
                Err(m) => Err(m),
            },
        }
    }
}

/// The result columns of a statement: the projection of a `SELECT`, the
/// `RETURNING` list of an `INSERT`, `UPDATE` or `DELETE`; or the message of
/// the validation error.
pub open spec fn inferred_columns(m: StatementModel) -> Result<Seq<Seq<char>>, Seq<char>> {
    match m {
        StatementModel::Query(q) => match q.body {
            BodyModel::Select(s) => projection_columns(s.projection@, 0),
            _ => Err("Only SELECT queries are supported"@),
        },
        StatementModel::Insert(i) => match i.returning {
            Some(r) => projection_columns(r@, 0),
            None => Err("INSERT without RETURNING clause"@),
        },
        StatementModel::Update(r) => match r {
            Some(r) => projection_columns(r@, 0),
            None => Err("UPDATE without RETURNING clause"@),
        },
        StatementModel::Delete(r) => match r {
            Some(r) => projection_columns(r@, 0),
            None => Err("DELETE without RETURNING clause"@),
        },
        StatementModel::Other => Err("Unsupported SQL statement"@),
    }
}

/// What an inference result stands for; a non-validation error stands for
/// nothing an inference gives.
pub open spec fn inference_view(r: Result<InferredSelect, ParserError>) -> Option<
    Result<Seq<Seq<char>>, Seq<char>>,
> {
    match r {
        Ok(sel) => Some(Ok(sel.columns@.map_values(|s: String| s@))),
        Err(ParserError::Validation(m)) => Some(Err(m@)),
        Err(_) => None,
    }
}

/// Whether an expression needs an alias for SQLx compatibility.
pub fn needs_alias_for_sqlx(expr: &ExprModel) -> (r: bool)
    ensures
        r == needs_alias(*expr),
{
    match &expr.kind {
        ExprKind::Identifier(_) => false,
        ExprKind::CompoundIdentifier(_) => false,
        _ => true,
    }
}

/// `field_<index>`.
fn field_name_of(index: usize) -> (r: String)
    ensures
        r@ == field_name(index as nat),
{
    let mut r = String::from_str("field_");
    let digits = string_of(&decimal_chars(index));
    r.append(digits.as_str());
    r
}

/// The column name an expression gives at position `index`.
pub fn analyze_expression_name(expr: &ExprModel, index: usize) -> (r: String)
    ensures
        r@ == expression_name(*expr, index as nat),
{
    match &expr.kind {
        ExprKind::Identifier(v) => v.clone(),
        ExprKind::CompoundIdentifier(Some(v)) => v.clone(),
        ExprKind::Function { name, .. } => to_lowercase(name.as_str()),
        _ => field_name_of(index),
    }
}

fn alias_required(index: usize, text: &String) -> (r: ParserError)
    requires
        index < usize::MAX,
    ensures
        r matches ParserError::Validation(m) && m@ == alias_required_message(index as nat, text@),
{
    let mut m = String::from_str("Column ");
    let n = string_of(&decimal_chars(index + 1));
    m.append(n.as_str());
    m.append(" '");
    m.append(text.as_str());
    m.append("' requires an alias for SQLx compatibility. Add 'AS column_name'. Example: ");
    m.append(text.as_str());
    m.append(" AS column_name");
    ParserError::Validation(m)
}

/// The result columns of a projection list.
pub fn infer_projection_columns(projection: &Vec<SelectItemModel>) -> (r: Result<
    InferredSelect,
    ParserError,
>)
    ensures
        inference_view(r) == Some(projection_columns(projection@, 0)),
{
    let mut columns: Vec<String> = Vec::new();
    let mut i: usize = 0;
    while i < projection.len()
        invariant
            i <= projection@.len(),
            columns@.len() == i,
            projection_columns(projection@, 0) matches Ok(all) ==> columns@.map_values(
                |s: String| s@,
            ) == all.take(i as int),
            projection_columns(projection@, 0) == (match projection_columns(projection@, i as nat) {
                Ok(rest) => Ok(columns@.map_values(|s: String| s@) + rest),
                Err(m) => Err::<Seq<Seq<char>>, Seq<char>>(m),
            }),
        decreases projection.len() - i,
    {
        let item = &projection[i];
        let ghost cols0 = columns@.map_values(|s: String| s@);
        match &item.kind {
            ItemKind::Unnamed(expr) => {
                if needs_alias_for_sqlx(expr) {
                    return Err(alias_required(i, &expr.text));
                }
                columns.push(analyze_expression_name(expr, i));
            },
            ItemKind::Aliased(_, alias) => {
                columns.push(alias.clone());
            },
            ItemKind::Wildcard => {
                return Err(ParserError::error("SELECT * is not supported; use explicit columns"));
            },
            ItemKind::QualifiedWildcard => {
                columns.push(field_name_of(i));
            },
        }
        proof {
            let c = columns@.last()@;
            assert(item_column(projection@[i as int], i as nat) == Ok::<Seq<char>, Seq<char>>(c));
            assert(columns@.map_values(|s: String| s@) =~= cols0.push(c));
            match projection_columns(projection@, (i + 1) as nat) {
                Ok(rest) => {
                    assert(cols0 + (seq![c] + rest) =~= cols0.push(c) + rest);
                },
                Err(_) => {},
            }
            match projection_columns(projection@, 0) {
                Ok(all) => {
                    assert(all.take(i + 1) =~= all.take(i as int).push(c)) by {
                        match projection_columns(projection@, (i + 1) as nat) {
                            Ok(rest) => {
                                assert(all == cols0.push(c) + rest);
                                assert(all.take(i + 1) =~= cols0.push(c));
                                assert(all.take(i as int) =~= cols0);
                            },
                            Err(_) => {},
                        }
                    }
                },
                Err(_) => {},
            }
        }
        i += 1;
    }
    assert(projection_columns(projection@, i as nat) == Ok::<Seq<Seq<char>>, Seq<char>>(
        Seq::empty(),
    ));
    assert(columns@.map_values(|s: String| s@) + Seq::<Seq<char>>::empty() =~= columns@.map_values(
        |s: String| s@,
    ));
    Ok(InferredSelect { columns })
}

/// The result columns of a statement (see `inferred_columns`).
pub fn infer_columns_from_model(m: &StatementModel) -> (r: Result<InferredSelect, ParserError>)
    ensures
        inference_view(r) == Some(inferred_columns(*m)),
{
    match m {
        StatementModel::Query(q) => match &q.body {
            BodyModel::Select(s) => infer_projection_columns(&s.projection),
            _ => Err(ParserError::error("Only SELECT queries are supported")),
        },
        StatementModel::Insert(i) => match &i.returning {
            Some(r) => infer_projection_columns(r),
            None => Err(ParserError::error("INSERT without RETURNING clause")),
        },
        StatementModel::Update(r) => match r {
            Some(r) => infer_projection_columns(r),
            None => Err(ParserError::error("UPDATE without RETURNING clause")),
        },
        StatementModel::Delete(r) => match r {
            Some(r) => infer_projection_columns(r),
            None => Err(ParserError::error("DELETE without RETURNING clause")),
        },
        StatementModel::Other => Err(ParserError::error("Unsupported SQL statement")),
    }
}

/// The result columns of a parsed statement (see `inferred_columns`).
pub fn infer_columns_from_stmt(stmt: &SqlStatement) -> (r: Result<InferredSelect, ParserError>)
    ensures
        inference_view(r) == Some(inferred_columns(stmt.model_of())),
{
    infer_columns_from_model(stmt.model())
}

/// The one statement of a parse: an error when there are none or several.
pub fn single_statement(mut stmts: Vec<Statement>) -> (r: Result<Statement, ParserError>)
    ensures
        stmts@.len() == 1 ==> r == Ok::<Statement, ParserError>(stmts@[0]),
        stmts@.len() > 1 ==> (r matches Err(ParserError::ParseSql(m))
            && m@ == "Multiple SQL statements detected; only one statement is allowed."@),
        stmts@.len() == 0 ==> (r matches Err(ParserError::ParseSql(m)) && m@
            == "No SQL statement found after parsing."@),
{
    if stmts.len() > 1 {
        return Err(
            ParserError::parse_sql(
                "Multiple SQL statements detected; only one statement is allowed.",
            ),
        );
    }
    match stmts.pop() {
        Some(stmt) => Ok(stmt),
        None => Err(ParserError::parse_sql("No SQL statement found after parsing.")),
    }
}

/// The parse errors of a text, with their messages: empty text, or text
/// that sqlparser reads as no statement or as several.
pub open spec fn parse_failure(sql: Seq<char>, m: Seq<char>) -> bool {
    if sql.len() == 0 {
        m == "Empty SQL statement provided."@
    } else {
        match parsed_statements(sql) {
            Some(v) => (v.len() > 1 && m
                == "Multiple SQL statements detected; only one statement is allowed."@) || (v.len()
                == 0 && m == "No SQL statement found after parsing."@),
            None => false,
        }
    }
}

/// Whether sqlparser reads a non-empty text as exactly one statement.
pub open spec fn parses_to_one(sql: Seq<char>) -> bool {
    sql.len() > 0 && match parsed_statements(sql) {
        Some(v) => v.len() == 1,
        None => false,
    }
}

/// What parsing a text gives when the cache holds nothing for it: `Ok(None)`
/// when sqlparser rejects the text, the one statement it reads, or the error
/// for no statement or for several.
pub open spec fn parse_miss_outcome(
    sql: Seq<char>,
    r: Result<Option<Arc<SqlStatement>>, ParserError>,
) -> bool {
    match parsed_statements(sql) {
        None => r matches Ok(None),
        Some(v) => if v.len() == 1 {
            r matches Ok(Some(a)) && a.ast_of() == v[0]
        } else if v.len() > 1 {
            r matches Err(ParserError::ParseSql(m)) && m@
                == "Multiple SQL statements detected; only one statement is allowed."@
        } else {
            r matches Err(ParserError::ParseSql(m)) && m@ == "No SQL statement found after parsing."@
        },
    }
}

/// What `parse_sql` may give for a text: the empty-text error for empty
/// text; otherwise a cached statement, or exactly the parse of the text.
pub open spec fn parse_sql_outcome(
    sql: Seq<char>,
    r: Result<Option<Arc<SqlStatement>>, ParserError>,
) -> bool {
    if sql.len() == 0 {
        r matches Err(ParserError::ParseSql(m)) && m@ == "Empty SQL statement provided."@
    } else {
        r matches Ok(Some(_)) || parse_miss_outcome(sql, r)
    }
}

/// What parsing gives after the cache lookup under the text's key: the
/// cached statement on a hit; on a miss the parse of `sql` (see
/// `parse_miss_outcome`), its one statement cached under `key`.
pub fn parse_after_lookup(
    cache: &GlobalCache<u64, SqlStatement>,
    key: u64,
    lookup: Option<Arc<SqlStatement>>,
    sql: &str,
) -> (r: Result<Option<Arc<SqlStatement>>, ParserError>)
    ensures
        match lookup {
            Some(a) => r matches Ok(Some(b)) && b == a,
            None => parse_miss_outcome(sql@, r),
        },
{
    match lookup {
        Some(cached) => {
            return Ok(Some(cached));
        },
        None => {},
    }
    let statements = match parse_statements(sql) {
        Some(stmts) => stmts,
        None => {
            return Ok(None);
        },
    };
    let ghost all = statements@;
    let statement = match single_statement(statements) {
        Ok(s) => s,
        Err(e) => {
            return Err(e);
        },
    };
    assert(all =~= seq![statement]);
    let arc_stmt = cache.insert(key, SqlStatement::from_parse(statement, sql));
    Ok(Some(arc_stmt))
}

/// What parsing a text gives: the empty-text error for empty text, and
/// otherwise exactly sqlparser's reading of it (see `parse_miss_outcome`).
pub open spec fn parse_sql_result(
    sql: Seq<char>,
    r: Result<Option<Arc<SqlStatement>>, ParserError>,
) -> bool {
    if sql.len() == 0 {
        r matches Err(ParserError::ParseSql(m)) && m@ == "Empty SQL statement provided."@
    } else {
        parse_miss_outcome(sql, r)
    }
}

/// Parses one SQL statement, through `cache`: `Err` for empty SQL; for other
/// text the statement cached under the text's fingerprint when it was parsed
/// from this very text, and otherwise the parse of the text: either way
/// exactly sqlparser's reading of the text (see `parse_sql_result`).
pub fn parse_sql(cache: &GlobalCache<u64, SqlStatement>, sql: &str) -> (r: Result<
    Option<Arc<SqlStatement>>,
    ParserError,
>)
    ensures
        sql@.len() == 0 ==> (r matches Err(ParserError::ParseSql(m)) && m@
            == "Empty SQL statement provided."@),
        parse_sql_outcome(sql@, r),
        parse_sql_result(sql@, r),
        r matches Ok(Some(a)) ==> parsed_statements(sql@) == Some(seq![a.ast_of()]),
        r matches Err(e) ==> (e matches ParserError::ParseSql(m) && parse_failure(sql@, m@)),
        r matches Ok(None) ==> sql@.len() > 0 && parsed_statements(sql@) is None,
        parses_to_one(sql@) ==> r matches Ok(Some(_)),
{
    if sql.is_empty() {
        return Err(ParserError::parse_sql("Empty SQL statement provided."));
    }
    let key = cache.fingerprint(sql);
    let lookup = match cache.get(key) {
        Some(cached) => {
            if cached.was_parsed_from(sql) {
                Some(cached)
            } else {
                None
            }
        },
        None => None,
    };
    let ghost gl = lookup;
    let r = parse_after_lookup(cache, key, lookup, sql);
    proof {
        if let Some(a) = gl {
            if let Some(v) = parsed_statements(sql@) {
                assert(v[0] == a.ast_of());
            }
        }
    }
    r
}

/// Law: what `parse_sql` hands back (see its `ensures`) is sqlparser's own
/// reading of the text: a statement only when sqlparser reads exactly that
/// one statement from it, `None` only when sqlparser rejects it, whatever
/// the cache held.
pub proof fn lemma_parse_result_is_the_parse(
    sql: Seq<char>,
    r: Result<Option<Arc<SqlStatement>>, ParserError>,
)
    requires
        parse_sql_result(sql, r),
    ensures
        r matches Ok(Some(a)) ==> parsed_statements(sql) == Some(seq![a.ast_of()]),
        r matches Ok(None) ==> sql.len() > 0 && parsed_statements(sql) is None,
        parses_to_one(sql) ==> r is Ok,
{
    if let Ok(Some(a)) = r {
        let v = parsed_statements(sql).unwrap();
        assert(v =~= seq![a.ast_of()]);
    }
}

/// Law: two texts that sqlparser reads differently never get the same
/// statement from `parse_sql`, even when they share a cache key.
pub proof fn lemma_distinct_texts_distinct_statements(
    s1: Seq<char>,
    r1: Result<Option<Arc<SqlStatement>>, ParserError>,
    s2: Seq<char>,
    r2: Result<Option<Arc<SqlStatement>>, ParserError>,
)
    requires
        parse_sql_result(s1, r1),
        parse_sql_result(s2, r2),
        r1 is Ok && r2 is Ok,
        parsed_statements(s1) != parsed_statements(s2),
    ensures
        r1 matches Ok(Some(a)) ==> (r2 matches Ok(Some(b)) ==> a.ast_of() != b.ast_of()),
{
    lemma_parse_result_is_the_parse(s1, r1);
    lemma_parse_result_is_the_parse(s2, r2);
}

/// What column inference gives for a parse result: the columns of the
/// parsed statement (see `inferred_columns`), a validation error when
/// sqlparser rejected the text, the parse error itself otherwise.
pub open spec fn columns_of_parse(
    parsed: Result<Option<Arc<SqlStatement>>, ParserError>,
    r: Result<InferredSelect, ParserError>,
) -> bool {
    match parsed {
        Ok(Some(s)) => inference_view(r) == Some(inferred_columns(s.model_of())),
        Ok(None) => r matches Err(ParserError::Validation(m)) && m@ == "SQL parsing failed"@,
        Err(e) => r == Err::<InferredSelect, ParserError>(e),
    }
}

/// The result columns for a parse result (see `columns_of_parse`).
pub fn infer_columns_of_parse(parsed: Result<Option<Arc<SqlStatement>>, ParserError>) -> (r: Result<
    InferredSelect,
    ParserError,
>)
    ensures
        columns_of_parse(parsed, r),
{
    match parsed {
        Ok(Some(s)) => infer_columns_from_stmt(&s),
        Ok(None) => Err(ParserError::error("SQL parsing failed")),
        Err(e) => Err(e),
    }
}

/// Parses `sql` through `cache` and infers its result columns (see
/// `parse_sql` and `columns_of_parse`); a text sqlparser rejects is a
/// validation error.
pub fn infer_columns(cache: &GlobalCache<u64, SqlStatement>, sql: &str) -> (r: Result<
    InferredSelect,
    ParserError,
>)
    ensures
        sql@.len() == 0 ==> (r matches Err(ParserError::ParseSql(m)) && m@
            == "Empty SQL statement provided."@),
        exists|p: Result<Option<Arc<SqlStatement>>, ParserError>|
            #![trigger columns_of_parse(p, r)]
            parse_sql_outcome(sql@, p) && parse_sql_result(sql@, p) && columns_of_parse(p, r),
        r matches Err(e) ==> (e is ParseSql || e is Validation),
        r matches Err(ParserError::ParseSql(m)) ==> parse_failure(sql@, m@),
{
    let parsed = parse_sql(cache, sql);
    let ghost p = parsed;
    let r = infer_columns_of_parse(parsed);
    assert(columns_of_parse(p, r));
    r
}

/// The cache of parsed statements, keyed by SQL fingerprint.
pub fn new_sql_parser_cache() -> GlobalCache<u64, SqlStatement> {
    GlobalCache::new(256, 1024, None, |_k: &u64, _v: &SqlStatement| -> u32 { 1 })
}

} // verus!
