//! Taking an `INSERT` statement apart for multi-row inserts: the statement
//! head, the first `VALUES` row, the `ON CONFLICT` and `RETURNING` clauses,
//! the target columns, and whether the values are plain placeholders.
use vstd::prelude::*;

use crate::error::ParserError;
use crate::model::{BodyModel, ExprKind, ExprModel, InsertModel, SelectItemModel, StatementModel};
use crate::parser::SqlStatement;
use crate::sql_ast::{
    insert_clear_on, insert_clear_returning, insert_clear_source, insert_clone, insert_text,
    insert_without_on, insert_without_returning, insert_without_source, rendered_insert,
    rendered_statement, statement_node, statement_part, StatementNode, StatementPart,
};
use crate::text::{chars_of, join, join_chars, string_of};

verus! {

/// The `INSERT` of a statement, if it is one.
pub open spec fn insert_of(m: StatementModel) -> Option<InsertModel> {
    match m {
        StatementModel::Insert(i) => Some(i),
        _ => None,
    }
}

/// The rendered projection items joined by `, `.
pub open spec fn items_text(items: Seq<SelectItemModel>) -> Seq<char> {
    join(items.map_values(|i: SelectItemModel| i.text@), ", "@)
}

/// The rendered expressions joined by `, `.
pub open spec fn exprs_text(exprs: Seq<ExprModel>) -> Seq<char> {
    join(exprs.map_values(|e: ExprModel| e.text@), ", "@)
}

/// ` RETURNING item, item, ...` of an `INSERT`, if it has that clause.
pub open spec fn returning_clause(m: StatementModel) -> Option<Seq<char>> {
    match insert_of(m) {
        Some(i) => match i.returning {
            Some(items) => Some(" RETURNING "@ + items_text(items@)),
            None => None,
        },
        None => None,
    }
}

/// The rows of the `VALUES` source of an `INSERT`, if it has one.
pub open spec fn values_of(m: StatementModel) -> Option<Seq<Vec<ExprModel>>> {
    match insert_of(m) {
        Some(i) => match i.source {
            Some(q) => match q.body {
                BodyModel::Values(rows) => Some(rows@),
                _ => None,
            },
            None => None,
        },
        None => None,
    }
}

/// `(expr, expr, ...)` of the first `VALUES` row of an `INSERT`.
pub open spec fn values_clause(m: StatementModel) -> Option<Seq<char>> {
    match values_of(m) {
        Some(rows) => if rows.len() > 0 {
            Some("("@ + exprs_text(rows[0]@) + ")"@)
        } else {
            None
        },
        None => None,
    }
}

/// Some `VALUES` entry of an `INSERT` is more than a placeholder.
pub open spec fn has_complex_values(m: StatementModel) -> bool {
    match values_of(m) {
        Some(rows) => exists|r: int, k: int|
            0 <= r < rows.len() && 0 <= k < rows[r]@.len() && !(rows[r]@[k].kind is Placeholder),
        None => false,
    }
}

fn join_texts(texts: &Vec<Vec<char>>, sep: &str) -> (r: Vec<char>)
    ensures
        r@ == join(texts@.map_values(|p: Vec<char>| p@), sep@),
{
    let s = chars_of(sep);
    join_chars(texts, &s)
}

/// The head text of an `INSERT` statement: the `INSERT` rendered without its
/// source, `ON CONFLICT` and `RETURNING` clauses (`INSERT INTO table
/// (columns)`).
pub open spec fn insert_head_text(ast: sqlparser::ast::Statement) -> Seq<char> {
    match statement_part(ast) {
        StatementPart::Insert(i) => rendered_insert(
            insert_without_returning(insert_without_on(insert_without_source(i))),
        ),
        _ => rendered_statement(ast),
    }
}

/// The head of an `INSERT` without source, `ON CONFLICT` and `RETURNING`
/// (`INSERT INTO table (columns)`), rendered by sqlparser.
pub fn extract_insert_base_from_statement(stmt: &SqlStatement) -> (r: Result<String, ParserError>)
    ensures
        insert_of(stmt.model_of()) is None ==> (r matches Err(ParserError::Validation(m)) && m@
            == "Expected INSERT statement for multi-insert operation"@),
        insert_of(stmt.model_of()) is Some ==> (r matches Ok(s) && s@ == insert_head_text(
            stmt.ast_of(),
        )),
{
    match stmt.model() {
        StatementModel::Insert(_) => {},
        _ => {
            return Err(ParserError::error("Expected INSERT statement for multi-insert operation"));
        },
    }
    match statement_node(stmt.ast()) {
        StatementNode::Insert(insert) => {
            let mut clean_insert = insert_clone(insert);
            insert_clear_source(&mut clean_insert);
            insert_clear_on(&mut clean_insert);
            insert_clear_returning(&mut clean_insert);
            Ok(insert_text(&clean_insert))
        },
        _ => Ok(stmt.to_string()),
    }
}

/// ` RETURNING ...` of an `INSERT` (see `returning_clause`).
pub fn extract_returning_clause_from_statement(stmt: &SqlStatement) -> (r: Option<String>)
    ensures
        match r {
            Some(s) => returning_clause(stmt.model_of()) == Some(s@),
            None => returning_clause(stmt.model_of()) is None,
        },
{
    let insert = match stmt.model() {
        StatementModel::Insert(i) => i,
        _ => {
            return None;
        },
    };
    let items = match &insert.returning {
        Some(items) => items,
        None => {
            return None;
        },
    };
    let mut texts: Vec<Vec<char>> = Vec::new();
    let mut i: usize = 0;
    while i < items.len()
        invariant
            i <= items@.len(),
            texts@.len() == i,
            forall|k: int| 0 <= k < i ==> (#[trigger] texts@[k])@ == items@[k].text@,
        decreases items.len() - i,
    {
        texts.push(chars_of(items[i].text.as_str()));
        i += 1;
    }
    assert(texts@.map_values(|p: Vec<char>| p@) =~= items@.map_values(
        |it: SelectItemModel| it.text@,
    ));
    let joined = join_texts(&texts, ", ");
    let mut r = String::from_str(" RETURNING ");
    r.append(string_of(&joined).as_str());
    Some(r)
}

/// `(...)` of the first `VALUES` row of an `INSERT` (see `values_clause`).
pub fn extract_values_clause_from_statement(stmt: &SqlStatement) -> (r: Option<String>)
    ensures
        match r {
            Some(s) => values_clause(stmt.model_of()) == Some(s@),
            None => values_clause(stmt.model_of()) is None,
        },
{
    let insert = match stmt.model() {
        StatementModel::Insert(i) => i,
        _ => {
            return None;
        },
    };
    let source = match &insert.source {
        Some(q) => q,
        None => {
            return None;
        },
    };
    let rows = match &source.body {
        BodyModel::Values(rows) => rows,
        _ => {
            return None;
        },
    };
    if rows.len() == 0 {
        return None;
    }
    let first = &rows[0];
    let mut texts: Vec<Vec<char>> = Vec::new();
    let mut i: usize = 0;
    while i < first.len()
        invariant
            i <= first@.len(),
            texts@.len() == i,
            forall|k: int| 0 <= k < i ==> (#[trigger] texts@[k])@ == first@[k].text@,
        decreases first.len() - i,
    {
        texts.push(chars_of(first[i].text.as_str()));
        i += 1;
    }
    assert(texts@.map_values(|p: Vec<char>| p@) =~= first@.map_values(|e: ExprModel| e.text@));
    let joined = join_texts(&texts, ", ");
    let mut r = String::from_str("(");
    r.append(string_of(&joined).as_str());
    r.append(")");
    Some(r)
}

/// The target columns of an `INSERT`.
pub fn infer_insert_columns_from_stmt(stmt: &SqlStatement) -> (r: Result<Vec<String>, ParserError>)
    ensures
        match insert_of(stmt.model_of()) {
            Some(i) => r matches Ok(cols) && cols@.map_values(|s: String| s@) == i.columns@.map_values(
                |s: String| s@,
            ),
            None => r matches Err(ParserError::Validation(m)) && m@ == "Not an INSERT statement"@,
        },
{
    match stmt.model() {
        StatementModel::Insert(insert) => {
            let mut cols: Vec<String> = Vec::new();
            let mut i: usize = 0;
            while i < insert.columns.len()
                invariant
                    i <= insert.columns@.len(),
                    cols@.len() == i,
                    forall|k: int| 0 <= k < i ==> (#[trigger] cols@[k])@ == insert.columns@[k]@,
                decreases insert.columns.len() - i,
            {
                cols.push(insert.columns[i].clone());
                i += 1;
            }
            assert(cols@.map_values(|s: String| s@) =~= insert.columns@.map_values(|s: String| s@));
            Ok(cols)
        },
        _ => Err(ParserError::error("Not an INSERT statement")),
    }
}

/// The rendered `ON CONFLICT` clause of an `INSERT`.
pub fn extract_on_conflict_clause_from_statement(stmt: &SqlStatement) -> (r: Option<String>)
    ensures
        match insert_of(stmt.model_of()) {
            Some(i) => match i.on_conflict {
                Some(c) => r matches Some(s) && s@ == c@,
                None => r is None,
            },
            None => r is None,
        },
{
    match stmt.model() {
        StatementModel::Insert(insert) => match &insert.on_conflict {
            Some(c) => Some(c.clone()),
            None => None,
        },
        _ => None,
    }
}

/// Whether an expression is a bare placeholder.
pub fn is_simple_placeholder(expr: &ExprModel) -> (r: bool)
    ensures
        r == (expr.kind is Placeholder),
{
    match expr.kind {
        ExprKind::Placeholder => true,
        _ => false,
    }
}

/// Whether some `VALUES` entry of an `INSERT` is more than a placeholder.
pub fn has_complex_sql_functions_in_values(stmt: &SqlStatement) -> (r: bool)
    ensures
        r == has_complex_values(stmt.model_of()),
{
    let insert = match stmt.model() {
        StatementModel::Insert(i) => i,
        _ => {
            return false;
        },
    };
    let source = match &insert.source {
        Some(q) => q,
        None => {
            return false;
        },
    };
    let rows = match &source.body {
        BodyModel::Values(rows) => rows,
        _ => {
            return false;
        },
    };
    let mut r: usize = 0;
    while r < rows.len()
        invariant
            values_of(stmt.model_of()) == Some(rows@),
            r <= rows@.len(),
            forall|a: int, k: int|
                0 <= a < r && 0 <= k < rows@[a]@.len() ==> (#[trigger] rows@[a]@[k]).kind is Placeholder,
        decreases rows.len() - r,
    {
        let row = &rows[r];
        let mut k: usize = 0;
        while k < row.len()
            invariant
                values_of(stmt.model_of()) == Some(rows@),
                r < rows@.len(),
                row == rows@[r as int],
                k <= row@.len(),
                forall|b: int| 0 <= b < k ==> (#[trigger] row@[b]).kind is Placeholder,
            decreases row.len() - k,
        {
            if !is_simple_placeholder(&row[k]) {
                assert(!(rows@[r as int]@[k as int].kind is Placeholder));
                assert(0 <= r < rows@.len() && 0 <= k < rows@[r as int]@.len());
                return true;
            }
            k += 1;
        }
        r += 1;
    }
    assert(values_of(stmt.model_of()) == Some(rows@));
    false
}

/// Law: an `INSERT ... VALUES` with an entry that is not a placeholder, in
/// any row and at any column (the first included), has complex values.
pub proof fn lemma_non_placeholder_entry_is_complex(m: StatementModel, r: int, k: int)
    requires
        values_of(m) matches Some(rows) && 0 <= r < rows.len() && 0 <= k < rows[r]@.len() && !(
        rows[r]@[k].kind is Placeholder),
    ensures
        has_complex_values(m),
{
}

/// Law: an `INSERT ... VALUES` whose entries are all placeholders, and any
/// statement without `VALUES` rows, has no complex values.
pub proof fn lemma_placeholders_only_not_complex(m: StatementModel)
    requires
        values_of(m) matches Some(rows) ==> forall|r: int, k: int|
            0 <= r < rows.len() && 0 <= k < rows[r]@.len() ==> (#[trigger] rows[r]@[k]).kind is Placeholder,
    ensures
        !has_complex_values(m),
{
}

} // verus!
