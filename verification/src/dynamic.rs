//! Runtime support for generated repository code: COUNT queries built from
//! SQL through the caches, and validation of query parameters.
use vstd::prelude::*;

use std::sync::Arc;

use crate::cache::GlobalCache;
use crate::count::{generate_count_query, statement_count_text};
use crate::error::ParserError;
use crate::parser::{
    parse_failure, parse_sql, parse_sql_outcome, parse_sql_result, parses_to_one, SqlStatement,
};
use crate::sql_ast::parsed_statements;
use crate::text::{decimal, decimal_chars, string_eq, string_of};

verus! {

/// The most cursor fields a request may carry.
pub const MAX_CURSOR_FIELDS: usize = 10;

/// Errors of runtime validation and of SQL handed to the database layer.
#[derive(Debug)]
pub enum DynamicError {
    /// A protocol-level error carrying a parser message.
    Protocol(String),
    /// A request parameter is not acceptable.
    InvalidArgument(String),
}

impl DynamicError {
    /// The protocol error that carries a parser error's message.
    pub fn from_parser_error(err: ParserError) -> (r: Self)
        ensures
            r matches DynamicError::Protocol(m) && m@ == match err {
                ParserError::ParseSql(msg) => msg@,
                ParserError::Validation(msg) => msg@,
                ParserError::InvalidArgument(msg) => msg@,
            },
    {
        match err {
            ParserError::ParseSql(msg) => DynamicError::Protocol(msg),
            ParserError::Validation(msg) => DynamicError::Protocol(msg),
            ParserError::InvalidArgument(msg) => DynamicError::Protocol(msg),
        }
    }

    /// The human-readable message of this error.
    pub fn to_string(&self) -> (r: String)
        ensures
            r@ == match *self {
                DynamicError::Protocol(m) => m@,
                DynamicError::InvalidArgument(m) => m@,
            },
    {
        match self {
            DynamicError::Protocol(m) => m.clone(),
            DynamicError::InvalidArgument(m) => m.clone(),
        }
    }
}

/// What validation reads of the sort parameters: whether they hold
/// caller-supplied (unsafe) fields, and the outcome of checking those
/// against the allowed columns.
#[derive(Debug)]
pub struct SortCheck {
    pub has_unsafe_fields: bool,
    pub whitelist_check: Result<(), String>,
}

/// What validation reads of a request's parameters: the sort check, if the
/// request sorts, and the number of cursor values, if it pages by cursor.
#[derive(Debug)]
pub struct ParamsSummary {
    pub sort: Option<SortCheck>,
    pub cursor_fields: Option<usize>,
}

/// The outcome of validation: `Ok`, or the message of the error.
pub open spec fn validation_outcome(p: ParamsSummary) -> Result<(), Seq<char>> {
    match p.sort {
        Some(s) if s.has_unsafe_fields && s.whitelist_check is Err => Err(
            "Sort validation failed: "@ + s.whitelist_check->Err_0@,
        ),
        _ => match p.cursor_fields {
            Some(n) if n > MAX_CURSOR_FIELDS => Err(
                "Cursor too large: "@ + decimal(n as nat) + " fields (max 10)"@,
            ),
            _ => Ok(()),
        },
    }
}

/// Validates the parameters of a request before its SQL is run: unsafe sort
/// fields must pass the whitelist check, and a cursor may carry at most
/// `MAX_CURSOR_FIELDS` values.
pub fn validate_fields(params: &ParamsSummary) -> (r: Result<(), DynamicError>)
    ensures
        match r {
            Ok(()) => validation_outcome(*params) == Ok::<(), Seq<char>>(()),
            Err(DynamicError::InvalidArgument(m)) => validation_outcome(*params) == Err::<
                (),
                Seq<char>,
            >(m@),
            Err(_) => false,
        },
{
    if let Some(sort) = &params.sort {
        if sort.has_unsafe_fields {
            if let Err(msg) = &sort.whitelist_check {
                let mut m = String::from_str("Sort validation failed: ");
                m.append(msg.as_str());
                return Err(DynamicError::InvalidArgument(m));
            }
        }
    }
    if let Some(n) = params.cursor_fields {
        if n > MAX_CURSOR_FIELDS {
            let mut m = String::from_str("Cursor too large: ");
            m.append(string_of(&decimal_chars(n)).as_str());
            m.append(" fields (max 10)");
            return Err(DynamicError::InvalidArgument(m));
        }
    }
    Ok(())
}

/// The cache of generated COUNT queries, keyed by SQL fingerprint.
pub fn new_count_sql_cache() -> GlobalCache<u64, String> {
    GlobalCache::new(256, 1024, None, |_k: &u64, _v: &String| -> u32 { 1 })
}

/// What building a COUNT query gives for a parse result: the COUNT query,
/// without primary-key hint, of the parsed statement (see
/// `statement_count_text`); a parse error when sqlparser rejected the text;
/// the parse error itself otherwise.
pub open spec fn count_of_parse(
    parsed: Result<Option<Arc<SqlStatement>>, ParserError>,
    r: Result<Arc<String>, ParserError>,
) -> bool {
    match parsed {
        Ok(Some(s)) => r matches Ok(c) && c@ == statement_count_text(
            s.ast_of(),
            s.model_of(),
            None,
        ),
        Ok(None) => r matches Err(ParserError::ParseSql(m)) && m@
            == "No valid SQL statement found"@,
        Err(e) => r == Err::<Arc<String>, ParserError>(e),
    }
}

/// The COUNT query for a parse result (see `count_of_parse`): the one cached
/// under `key` when it is that very text, else the one built, then cached
/// under `key`.
pub fn count_of_parsed(
    count_cache: &GlobalCache<u64, String>,
    key: u64,
    parsed: Result<Option<Arc<SqlStatement>>, ParserError>,
) -> (r: Result<Arc<String>, ParserError>)
    ensures
        count_of_parse(parsed, r),
{
    let statement = match parsed {
        Ok(Some(s)) => s,
        Ok(None) => {
            return Err(ParserError::parse_sql("No valid SQL statement found"));
        },
        Err(e) => {
            return Err(e);
        },
    };
    let count_sql = generate_count_query(&statement, None);
    match count_cache.get(key) {
        Some(cached) => {
            if string_eq(&*cached, &count_sql) {
                return Ok(cached);
            }
        },
        None => {},
    }
    Ok(count_cache.insert(key, count_sql))
}

/// The COUNT query of `sql` (see `generate_count_query`): the statement is
/// taken through the statement cache (see `parse_sql`, which hands back a
/// cached statement only when it was parsed from this very text), its COUNT
/// query built, and the copy cached under the text's fingerprint handed
/// back when it is that very text (see `count_of_parsed`): an entry of the
/// COUNT cache carries no record of the text it was built from, so a hit is
/// only used once it is checked.
pub fn build_count_query_from_sql(
    parser_cache: &GlobalCache<u64, SqlStatement>,
    count_cache: &GlobalCache<u64, String>,
    sql: &str,
) -> (r: Result<Arc<String>, ParserError>)
    ensures
        exists|p: Result<Option<Arc<SqlStatement>>, ParserError>|
            #![trigger count_of_parse(p, r)]
            parse_sql_result(sql@, p) && count_of_parse(p, r),
        r is Err ==> exists|p: Result<Option<Arc<SqlStatement>>, ParserError>|
            #![trigger count_of_parse(p, r)]
            (p matches Ok(Some(_)) || parse_sql_outcome(sql@, p)) && count_of_parse(p, r),
        r matches Err(e) ==> (e matches ParserError::ParseSql(m) && (parse_failure(sql@, m@) || (m@
            == "No valid SQL statement found"@ && sql@.len() > 0 && parsed_statements(sql@) is None))),
        parses_to_one(sql@) ==> r is Ok,
{
    let key = parser_cache.fingerprint(sql);
    let parsed = parse_sql(parser_cache, sql);
    let ghost p = parsed;
    let r = count_of_parsed(count_cache, key, parsed);
    assert(count_of_parse(p, r));
    r
}

} // verus!
