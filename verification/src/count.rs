//! COUNT query generation: choosing how to count the rows of a query (plain
//! `COUNT(*)`, `COUNT(DISTINCT ...)`, or counting over the query as a
//! subquery) and building the COUNT query text.
use vstd::prelude::*;

use crate::model::{
    BodyModel, ExprKind, ExprModel, ItemKind, QueryModel, RelationModel, SelectItemModel,
    SelectModel, StatementModel,
};
use crate::parser::SqlStatement;
use crate::sql_ast::{
    body_part, duplicate_treatment, duplicate_treatment_of, expr_clone, function_call,
    function_call_of, identifier_expr, identifier_of, item_part, projection_of, query_body,
    query_clear_distinct, query_clear_fetch, query_clear_limit, query_clear_order_by,
    query_clear_with, query_clone, query_set_projection, query_text, query_with,
    query_with_projection, query_without_distinct, query_without_fetch, query_without_limit,
    query_without_order_by, query_without_with, rendered_query, rendered_statement, rendered_with,
    select_item_node, select_projection, statement_node, statement_part, unnamed_arg,
    unnamed_arg_of, unnamed_item, unnamed_item_of, with_clause_of, with_text, BodyNode, BodyPart,
    ItemPart, SelectItemNode, StatementNode, StatementPart,
};
use sqlparser::ast::{DuplicateTreatment, Expr, Query};

verus! {

/// An expression counted by `COUNT(DISTINCT ...)`.
#[derive(Debug, Clone)]
pub enum DistinctTarget {
    /// The expression of the projection item at this position.
    Projected(usize),
    /// The primary key column named by the caller.
    PrimaryKey(String),
}

/// How to count the rows of a query.
#[derive(Debug, Clone)]
pub enum CountStrategy {
    /// `SELECT COUNT(*)` in place of the projection.
    SimpleCount,
    /// `COUNT(DISTINCT ...)` over these expressions.
    CountDistinct(Vec<DistinctTarget>),
    /// `SELECT COUNT(*) FROM ( query ) AS sub`.
    SubqueryCount,
}

/// A counting strategy with the reason it was chosen.
#[derive(Debug, Clone)]
pub struct CountAnalysis {
    pub strategy: CountStrategy,
    pub reason: &'static str,
}

impl Default for CountAnalysis {
    fn default() -> (r: Self)
        ensures
            r.strategy is SubqueryCount,
            r.reason@ == ""@,
    {
        CountAnalysis { strategy: CountStrategy::SubqueryCount, reason: "" }
    }
}

/// A distinct target as a value.
pub enum TargetView {
    Projected(nat),
    PrimaryKey(Seq<char>),
}

/// A strategy as a value.
pub enum StrategyView {
    Simple,
    Distinct(Seq<TargetView>),
    Subquery,
}

pub open spec fn target_view(t: DistinctTarget) -> TargetView {
    match t {
        DistinctTarget::Projected(i) => TargetView::Projected(i as nat),
        DistinctTarget::PrimaryKey(s) => TargetView::PrimaryKey(s@),
    }
}

pub open spec fn strategy_view(s: CountStrategy) -> StrategyView {
    match s {
        CountStrategy::SimpleCount => StrategyView::Simple,
        CountStrategy::CountDistinct(v) => StrategyView::Distinct(
            v@.map_values(|t: DistinctTarget| target_view(t)),
        ),
        CountStrategy::SubqueryCount => StrategyView::Subquery,
    }
}

/// An analysis as a value: the strategy and the reason.
pub open spec fn analysis_view(a: CountAnalysis) -> (StrategyView, Seq<char>) {
    (strategy_view(a.strategy), a.reason@)
}

pub open spec fn opt_str_view(pk: Option<&str>) -> Option<Seq<char>> {
    match pk {
        Some(p) => Some(p@),
        None => None,
    }
}

/// Whether an expression holds a window function, looking through binary
/// operations and parentheses.
pub open spec fn expr_has_window(e: ExprModel) -> bool
    decreases e,
{
    match e.kind {
        ExprKind::Function { windowed, .. } => windowed,
        ExprKind::BinaryOp(l, r) => expr_has_window(*l) || expr_has_window(*r),
        ExprKind::Nested(n) => expr_has_window(*n),
        _ => false,
    }
}

/// The expression of a projection item (none for wildcards).
pub open spec fn item_expr(i: SelectItemModel) -> Option<ExprModel> {
    match i.kind {
        ItemKind::Unnamed(e) => Some(e),
        ItemKind::Aliased(e, _) => Some(e),
        _ => None,
    }
}

pub open spec fn item_has_window(i: SelectItemModel) -> bool {
    match item_expr(i) {
        Some(e) => expr_has_window(e),
        None => false,
    }
}

/// Some projected expression holds a window function.
pub open spec fn select_has_window(s: SelectModel) -> bool {
    exists|k: int| 0 <= k < s.projection@.len() && item_has_window(#[trigger] s.projection@[k])
}

/// Some `FROM` entry has joins.
pub open spec fn select_has_join(s: SelectModel) -> bool {
    exists|k: int| 0 <= k < s.from@.len() && (#[trigger] s.from@[k]).joins@.len() > 0
}

pub open spec fn from_has_derived(f: crate::model::FromModel) -> bool {
    (f.relation is Derived) || exists|j: int|
        0 <= j < f.joins@.len() && (#[trigger] f.joins@[j]) is Derived
}

/// Some relation in `FROM` or in a join is a derived table.
pub open spec fn select_has_derived(s: SelectModel) -> bool {
    exists|k: int| 0 <= k < s.from@.len() && from_has_derived(#[trigger] s.from@[k])
}

/// A derived query that changes what counting over it means.
pub open spec fn query_is_complex(q: QueryModel) -> bool {
    match q.body {
        BodyModel::Select(s) => s.group_by_nonempty || s.having || select_has_window(*s)
            || s.distinct || select_has_join(*s),
        _ => true,
    }
}

pub open spec fn relation_is_complex(r: RelationModel) -> bool {
    match r {
        RelationModel::Derived(q) => query_is_complex(*q),
        RelationModel::Other => false,
    }
}

pub open spec fn from_has_complex(f: crate::model::FromModel) -> bool {
    relation_is_complex(f.relation) || exists|j: int|
        0 <= j < f.joins@.len() && relation_is_complex(#[trigger] f.joins@[j])
}

/// Some derived table in `FROM` or in a join is complex.
pub open spec fn select_has_complex_derived(s: SelectModel) -> bool {
    exists|k: int| 0 <= k < s.from@.len() && from_has_complex(#[trigger] s.from@[k])
}

/// A projected expression that `COUNT(*)` counts the same way: a plain or
/// qualified identifier, aliased or not.
pub open spec fn item_is_plain_column(i: SelectItemModel) -> bool {
    match item_expr(i) {
        Some(e) => e.kind is Identifier || e.kind is CompoundIdentifier,
        None => false,
    }
}

/// The projection is a single wildcard, or plain columns only.
pub open spec fn projection_safe(s: SelectModel) -> bool {
    ||| (s.projection@.len() == 1 && (s.projection@[0].kind is Wildcard
        || s.projection@[0].kind is QualifiedWildcard))
    ||| forall|k: int| 0 <= k < s.projection@.len() ==> item_is_plain_column(
        #[trigger] s.projection@[k],
    )
}

/// Positions `>= i` of the projection items that have an expression.
pub open spec fn projected_from(items: Seq<SelectItemModel>, i: int) -> Seq<nat>
    decreases items.len() - i,
{
    if i < 0 || i >= items.len() {
        Seq::empty()
    } else {
        let rest = projected_from(items, i + 1);
        if item_expr(items[i]) is Some {
            seq![i as nat] + rest
        } else {
            rest
        }
    }
}

/// The analysis of a `DISTINCT` select.
pub open spec fn distinct_analysis(s: SelectModel) -> (StrategyView, Seq<char>) {
    let idx = projected_from(s.projection@, 0);
    if idx.len() == 0 {
        (StrategyView::Subquery, "DISTINCT with wildcard or complex projection"@)
    } else {
        (
            StrategyView::Distinct(idx.map_values(|i: nat| TargetView::Projected(i))),
            "DISTINCT on one or more expressions"@,
        )
    }
}

/// The counting strategy of a query, with its reason, in order of the rules:
/// set operations, `WITH TIES`, CTE/`GROUP BY`/`HAVING`/window functions and
/// derived tables count over a subquery; `DISTINCT` counts distinct
/// projected expressions; a join counts distinct primary keys when one is
/// given and over a subquery otherwise; anything else counts plainly.
pub open spec fn query_analysis(q: QueryModel, pk: Option<Seq<char>>) -> (StrategyView, Seq<char>) {
    match q.body {
        BodyModel::Select(s) => if s.with_ties {
            (StrategyView::Subquery, "WITH TIES clause present"@)
        } else if q.has_with || s.group_by_nonempty || s.having || select_has_window(*s) {
            (StrategyView::Subquery, "GROUP BY/HAVING/window functions present"@)
        } else if select_has_derived(*s) {
            (StrategyView::Subquery, "Subquery in FROM or JOIN"@)
        } else if s.distinct {
            distinct_analysis(*s)
        } else if select_has_join(*s) {
            match pk {
                None => (StrategyView::Subquery, "JOIN without primary key information"@),
                Some(p) => (
                    StrategyView::Distinct(seq![TargetView::PrimaryKey(p)]),
                    "JOIN with known primary key"@,
                ),
            }
        } else if projection_safe(*s) {
            (StrategyView::Simple, "Simple COUNT(*) safe"@)
        } else {
            (StrategyView::Simple, "Projection affects result cardinality"@)
        },
        _ => (StrategyView::Subquery, "Set operation (UNION/INTERSECT/EXCEPT)"@),
    }
}

/// The analysis of a statement: a query is analysed; any other statement
/// gets the default analysis (count over a subquery, empty reason).
pub open spec fn statement_analysis(m: StatementModel, pk: Option<Seq<char>>) -> (
    StrategyView,
    Seq<char>,
) {
    match m {
        StatementModel::Query(q) => query_analysis(q, pk),
        _ => (StrategyView::Subquery, ""@),
    }
}

/// Whether a projected expression holds a window function.
pub fn contains_window(expr: &ExprModel) -> (r: bool)
    ensures
        r == expr_has_window(*expr),
    decreases expr,
{
    match &expr.kind {
        ExprKind::Function { windowed, .. } => *windowed,
        ExprKind::BinaryOp(l, r) => contains_window(l) || contains_window(r),
        ExprKind::Nested(n) => contains_window(n),
        _ => false,
    }
}

fn item_expr_of(item: &SelectItemModel) -> (r: Option<&ExprModel>)
    ensures
        match item_expr(*item) {
            Some(e) => r == Some(&e),
            None => r is None,
        },
{
    match &item.kind {
        ItemKind::Unnamed(e) => Some(e),
        ItemKind::Aliased(e, _) => Some(e),
        _ => None,
    }
}

/// Whether some projected expression holds a window function.
pub fn has_window_functions(select: &SelectModel) -> (r: bool)
    ensures
        r == select_has_window(*select),
{
    let mut i: usize = 0;
    while i < select.projection.len()
        invariant
            i <= select.projection@.len(),
            forall|k: int| 0 <= k < i ==> !item_has_window(#[trigger] select.projection@[k]),
        decreases select.projection.len() - i,
    {
        let found = match item_expr_of(&select.projection[i]) {
            Some(e) => contains_window(e),
            None => false,
        };
        if found {
            assert(item_has_window(select.projection@[i as int]));
            return true;
        }
        i += 1;
    }
    false
}

/// Whether some `FROM` entry has joins.
pub fn has_join(select: &SelectModel) -> (r: bool)
    ensures
        r == select_has_join(*select),
{
    let mut i: usize = 0;
    while i < select.from.len()
        invariant
            i <= select.from@.len(),
            forall|k: int| 0 <= k < i ==> (#[trigger] select.from@[k]).joins@.len() == 0,
        decreases select.from.len() - i,
    {
        if select.from[i].joins.len() > 0 {
            return true;
        }
        i += 1;
    }
    false
}

/// Whether the query has a `WITH` clause.
pub fn has_cte(query: &QueryModel) -> (r: bool)
    ensures
        r == query.has_with,
{
    query.has_with
}

/// Whether the select groups by at least one expression (`GROUP BY ALL`
/// does not count).
pub fn has_group_by(select: &SelectModel) -> (r: bool)
    ensures
        r == select.group_by_nonempty,
{
    select.group_by_nonempty
}

/// Whether the select has `HAVING`.
pub fn has_having(select: &SelectModel) -> (r: bool)
    ensures
        r == select.having,
{
    select.having
}

/// Whether the select has `TOP ... WITH TIES`.
pub fn has_with_ties(select: &SelectModel) -> (r: bool)
    ensures
        r == select.with_ties,
{
    select.with_ties
}

fn from_entry_has_derived(f: &crate::model::FromModel) -> (r: bool)
    ensures
        r == from_has_derived(*f),
{
    if let RelationModel::Derived(_) = &f.relation {
        return true;
    }
    let mut j: usize = 0;
    while j < f.joins.len()
        invariant
            j <= f.joins@.len(),
            !(f.relation is Derived),
            forall|k: int| 0 <= k < j ==> !((#[trigger] f.joins@[k]) is Derived),
        decreases f.joins.len() - j,
    {
        if let RelationModel::Derived(_) = &f.joins[j] {
            return true;
        }
        j += 1;
    }
    false
}

/// Whether a relation in `FROM` or in a join is a derived table.
pub fn has_subquery_in_from_or_join(select: &SelectModel) -> (r: bool)
    ensures
        r == select_has_derived(*select),
{
    let mut i: usize = 0;
    while i < select.from.len()
        invariant
            i <= select.from@.len(),
            forall|k: int| 0 <= k < i ==> !from_has_derived(#[trigger] select.from@[k]),
        decreases select.from.len() - i,
    {
        if from_entry_has_derived(&select.from[i]) {
            return true;
        }
        i += 1;
    }
    false
}

/// Whether a derived query changes what counting over it means.
pub fn is_complex_subquery(query: &QueryModel) -> (r: bool)
    ensures
        r == query_is_complex(*query),
{
    match &query.body {
        BodyModel::Select(s) => has_group_by(s) || has_having(s) || has_window_functions(s)
            || s.distinct || has_join(s),
        _ => true,
    }
}

fn relation_complex(r: &RelationModel) -> (b: bool)
    ensures
        b == relation_is_complex(*r),
{
    match r {
        RelationModel::Derived(q) => is_complex_subquery(q),
        RelationModel::Other => false,
    }
}

fn from_entry_has_complex(f: &crate::model::FromModel) -> (r: bool)
    ensures
        r == from_has_complex(*f),
{
    if relation_complex(&f.relation) {
        return true;
    }
    let mut j: usize = 0;
    while j < f.joins.len()
        invariant
            j <= f.joins@.len(),
            !relation_is_complex(f.relation),
            forall|k: int| 0 <= k < j ==> !relation_is_complex(#[trigger] f.joins@[k]),
        decreases f.joins.len() - j,
    {
        if relation_complex(&f.joins[j]) {
            return true;
        }
        j += 1;
    }
    false
}

/// Whether some derived table in `FROM` or in a join is complex.
pub fn has_complex_subquery_in_from_or_join(select: &SelectModel) -> (r: bool)
    ensures
        r == select_has_complex_derived(*select),
{
    let mut i: usize = 0;
    while i < select.from.len()
        invariant
            i <= select.from@.len(),
            forall|k: int| 0 <= k < i ==> !from_has_complex(#[trigger] select.from@[k]),
        decreases select.from.len() - i,
    {
        if from_entry_has_complex(&select.from[i]) {
            return true;
        }
        i += 1;
    }
    false
}

/// Whether `COUNT(*)` counts the select's rows as the projection does.
pub fn is_projection_safe_for_simple_count(select: &SelectModel) -> (r: bool)
    ensures
        r == projection_safe(*select),
{
    if select.projection.len() == 1 {
        match &select.projection[0].kind {
            ItemKind::Wildcard => {
                return true;
            },
            ItemKind::QualifiedWildcard => {
                return true;
            },
            _ => {},
        }
    }
    let mut i: usize = 0;
    while i < select.projection.len()
        invariant
            i <= select.projection@.len(),
            !(select.projection@.len() == 1 && (select.projection@[0].kind is Wildcard
                || select.projection@[0].kind is QualifiedWildcard)),
            forall|k: int| 0 <= k < i ==> item_is_plain_column(#[trigger] select.projection@[k]),
        decreases select.projection.len() - i,
    {
        let plain = match item_expr_of(&select.projection[i]) {
            Some(e) => match &e.kind {
                ExprKind::Identifier(_) => true,
                ExprKind::CompoundIdentifier(_) => true,
                _ => false,
            },
            None => false,
        };
        if !plain {
            assert(!item_is_plain_column(select.projection@[i as int]));
            return false;
        }
        i += 1;
    }
    true
}

/// Positions of the projection items that have an expression.
pub fn get_projected_expr_refs(select: &SelectModel) -> (r: Vec<usize>)
    ensures
        r@.map_values(|i: usize| i as nat) == projected_from(select.projection@, 0),
{
    let n = select.projection.len();
    let mut r: Vec<usize> = Vec::new();
    let mut i: usize = 0;
    while i < n
        invariant
            n == select.projection@.len(),
            i <= n,
            projected_from(select.projection@, 0) == r@.map_values(|i: usize| i as nat)
                + projected_from(select.projection@, i as int),
        decreases n - i,
    {
        let ghost before = r@.map_values(|i: usize| i as nat);
        if item_expr_of(&select.projection[i]).is_some() {
            r.push(i);
            assert(r@.map_values(|i: usize| i as nat) =~= before.push(i as nat));
            assert(before + (seq![i as nat] + projected_from(select.projection@, i + 1)) =~= before.push(
                i as nat,
            ) + projected_from(select.projection@, i + 1));
        }
        i += 1;
    }
    assert(projected_from(select.projection@, n as int) =~= Seq::<nat>::empty());
    assert(r@.map_values(|i: usize| i as nat) + Seq::<nat>::empty() =~= r@.map_values(
        |i: usize| i as nat,
    ));
    r
}

/// The analysis of a `DISTINCT` select.
pub fn analyze_distinct(select: &SelectModel) -> (r: CountAnalysis)
    ensures
        analysis_view(r) == distinct_analysis(*select),
{
    let refs = get_projected_expr_refs(select);
    if refs.len() == 0 {
        return CountAnalysis {
            strategy: CountStrategy::SubqueryCount,
            reason: "DISTINCT with wildcard or complex projection",
        };
    }
    let mut targets: Vec<DistinctTarget> = Vec::new();
    let mut i: usize = 0;
    while i < refs.len()
        invariant
            i <= refs@.len(),
            targets@.len() == i,
            forall|k: int| 0 <= k < i ==> #[trigger] target_view(targets@[k]) == TargetView::Projected(
                refs@[k] as nat,
            ),
        decreases refs.len() - i,
    {
        targets.push(DistinctTarget::Projected(refs[i]));
        i += 1;
    }
    let r = CountAnalysis {
        strategy: CountStrategy::CountDistinct(targets),
        reason: "DISTINCT on one or more expressions",
    };
    assert(targets@.map_values(|t: DistinctTarget| target_view(t)) =~= projected_from(
        select.projection@,
        0,
    ).map_values(|i: nat| TargetView::Projected(i))) by {
        assert(refs@.map_values(|i: usize| i as nat).len() == refs@.len());
        assert forall|k: int| 0 <= k < refs@.len() implies projected_from(select.projection@, 0)[k]
            == refs@[k] as nat by {
            assert(refs@.map_values(|i: usize| i as nat)[k] == refs@[k] as nat);
        }
    }
    r
}

/// The counting strategy of a query (see `query_analysis`).
pub fn analyze_query_body(query: &QueryModel, primary_key: Option<&str>) -> (r: CountAnalysis)
    ensures
        analysis_view(r) == query_analysis(*query, opt_str_view(primary_key)),
{
    let select = match &query.body {
        BodyModel::Select(s) => s,
        _ => {
            return CountAnalysis {
                strategy: CountStrategy::SubqueryCount,
                reason: "Set operation (UNION/INTERSECT/EXCEPT)",
            };
        },
    };
    if has_with_ties(select) {
        return CountAnalysis {
            strategy: CountStrategy::SubqueryCount,
            reason: "WITH TIES clause present",
        };
    }
    if has_cte(query) || has_group_by(select) || has_having(select) || has_window_functions(
        select,
    ) {
        return CountAnalysis {
            strategy: CountStrategy::SubqueryCount,
            reason: "GROUP BY/HAVING/window functions present",
        };
    }
    if has_subquery_in_from_or_join(select) {
        return CountAnalysis {
            strategy: CountStrategy::SubqueryCount,
            reason: "Subquery in FROM or JOIN",
        };
    }
    if select.distinct {
        return analyze_distinct(select);
    }
    if has_join(select) {
        match primary_key {
            None => {
                return CountAnalysis {
                    strategy: CountStrategy::SubqueryCount,
                    reason: "JOIN without primary key information",
                };
            },
            Some(pk) => {
                let mut targets: Vec<DistinctTarget> = Vec::new();
                targets.push(DistinctTarget::PrimaryKey(String::from_str(pk)));
                let r = CountAnalysis {
                    strategy: CountStrategy::CountDistinct(targets),
                    reason: "JOIN with known primary key",
                };
                assert(targets@.map_values(|t: DistinctTarget| target_view(t)) =~= seq![
                    TargetView::PrimaryKey(pk@),
                ]);
                return r;
            },
        }
    }
    if is_projection_safe_for_simple_count(select) {
        return CountAnalysis { strategy: CountStrategy::SimpleCount, reason: "Simple COUNT(*) safe" };
    }
    CountAnalysis {
        strategy: CountStrategy::SimpleCount,
        reason: "Projection affects result cardinality",
    }
}

/// The counting strategy of a statement (see `statement_analysis`).
pub fn analyze_query(statement: &StatementModel, primary_key: Option<&str>) -> (r: CountAnalysis)
    ensures
        analysis_view(r) == statement_analysis(*statement, opt_str_view(primary_key)),
{
    match statement {
        StatementModel::Query(q) => analyze_query_body(q, primary_key),
        _ => CountAnalysis::default(),
    }
}

/// How the projection of the counted query is replaced.
#[derive(Debug, Clone)]
pub enum ProjectionEdit {
    /// Left as it is.
    Keep,
    /// Replaced by `COUNT(*)`.
    CountStar,
    /// Replaced by `COUNT(DISTINCT target)`.
    CountDistinct(DistinctTarget),
    /// Replaced by the constant `1`.
    One,
}

/// What the COUNT query is made of: the analysis, the edit of the query
/// (its `ORDER BY`, `LIMIT`/`OFFSET` and `FETCH` are always dropped), whether
/// the edited query is wrapped as `SELECT COUNT(*) FROM (...) AS sub`, and
/// whether its `WITH` clause is put back in front.
#[derive(Debug, Clone)]
pub struct CountPlan {
    pub analysis: CountAnalysis,
    pub projection: ProjectionEdit,
    pub clear_distinct: bool,
    pub wrap: bool,
    pub keep_with: bool,
}

pub enum EditView {
    Keep,
    CountStar,
    CountDistinct(TargetView),
    One,
}

pub struct PlanView {
    pub strategy: StrategyView,
    pub reason: Seq<char>,
    pub projection: EditView,
    pub clear_distinct: bool,
    pub wrap: bool,
    pub keep_with: bool,
}

pub open spec fn edit_view(e: ProjectionEdit) -> EditView {
    match e {
        ProjectionEdit::Keep => EditView::Keep,
        ProjectionEdit::CountStar => EditView::CountStar,
        ProjectionEdit::CountDistinct(t) => EditView::CountDistinct(target_view(t)),
        ProjectionEdit::One => EditView::One,
    }
}

pub open spec fn plan_view(p: CountPlan) -> PlanView {
    PlanView {
        strategy: strategy_view(p.analysis.strategy),
        reason: p.analysis.reason@,
        projection: edit_view(p.projection),
        clear_distinct: p.clear_distinct,
        wrap: p.wrap,
        keep_with: p.keep_with,
    }
}

/// The projection of a subquery-counted select may become `1` when nothing
/// in the count depends on it.
pub open spec fn can_select_one(s: SelectModel) -> bool {
    !s.distinct && !s.group_by_nonempty && !s.having && !select_has_window(s)
        && !select_has_complex_derived(s)
}

/// The plan of the COUNT query of a query.
pub open spec fn query_plan(q: QueryModel, pk: Option<Seq<char>>) -> PlanView {
    let (strategy, reason) = query_analysis(q, pk);
    let mk = |e: EditView, cd: bool, wrap: bool, kw: bool|
        PlanView {
            strategy,
            reason,
            projection: e,
            clear_distinct: cd,
            wrap,
            keep_with: kw,
        };
    match q.body {
        BodyModel::Select(s) => match strategy {
            StrategyView::Simple => mk(EditView::CountStar, false, false, true),
            StrategyView::Distinct(ts) => if ts.len() == 1 {
                mk(EditView::CountDistinct(ts[0]), true, false, false)
            } else {
                mk(EditView::Keep, false, true, true)
            },
            StrategyView::Subquery => mk(
                if can_select_one(*s) {
                    EditView::One
                } else {
                    EditView::Keep
                },
                false,
                true,
                true,
            ),
        },
        _ => if strategy is Subquery {
            mk(EditView::Keep, false, true, true)
        } else {
            mk(EditView::Keep, false, false, false)
        },
    }
}

/// The COUNT query text of a plan, from the rendered `WITH` clause (when the
/// query has one) and the rendered edited query.
pub open spec fn count_sql_text(p: PlanView, with: Option<Seq<char>>, body: Seq<char>) -> Seq<char> {
    let core = if p.wrap {
        "SELECT COUNT(*) FROM ("@ + body + ") AS sub"@
    } else {
        body
    };
    match with {
        Some(w) => if p.keep_with {
            w + " "@ + core
        } else {
            core
        },
        None => core,
    }
}

fn copy_target(t: &DistinctTarget) -> (r: DistinctTarget)
    ensures
        target_view(r) == target_view(*t),
{
    match t {
        DistinctTarget::Projected(i) => DistinctTarget::Projected(*i),
        DistinctTarget::PrimaryKey(s) => DistinctTarget::PrimaryKey(s.clone()),
    }
}

/// The plan of the COUNT query of a query (see `query_plan`).
pub fn plan_count_query(query: &QueryModel, primary_key: Option<&str>) -> (r: CountPlan)
    ensures
        plan_view(r) == query_plan(*query, opt_str_view(primary_key)),
{
    let analysis = analyze_query_body(query, primary_key);
    match &query.body {
        BodyModel::Select(s) => match &analysis.strategy {
            CountStrategy::SimpleCount => CountPlan {
                analysis,
                projection: ProjectionEdit::CountStar,
                clear_distinct: false,
                wrap: false,
                keep_with: true,
            },
            CountStrategy::CountDistinct(targets) => {
                if targets.len() == 1 {
                    let t = copy_target(&targets[0]);
                    assert(targets@.map_values(|t: DistinctTarget| target_view(t))[0]
                        == target_view(targets@[0]));
                    CountPlan {
                        analysis,
                        projection: ProjectionEdit::CountDistinct(t),
                        clear_distinct: true,
                        wrap: false,
                        keep_with: false,
                    }
                } else {
                    CountPlan {
                        analysis,
                        projection: ProjectionEdit::Keep,
                        clear_distinct: false,
                        wrap: true,
                        keep_with: true,
                    }
                }
            },
            CountStrategy::SubqueryCount => {
                let one = !s.distinct && !has_group_by(s) && !has_having(s)
                    && !has_window_functions(s) && !has_complex_subquery_in_from_or_join(s);
                CountPlan {
                    analysis,
                    projection: if one {
                        ProjectionEdit::One
                    } else {
                        ProjectionEdit::Keep
                    },
                    clear_distinct: false,
                    wrap: true,
                    keep_with: true,
                }
            },
        },
        _ => {
            let wrap = match &analysis.strategy {
                CountStrategy::SubqueryCount => true,
                _ => false,
            };
            CountPlan {
                analysis,
                projection: ProjectionEdit::Keep,
                clear_distinct: false,
                wrap,
                keep_with: wrap,
            }
        },
    }
}

/// The COUNT query text of a plan (see `count_sql_text`).
pub fn assemble_count_sql(plan: &CountPlan, with: Option<String>, body: String) -> (r: String)
    ensures
        r@ == count_sql_text(
            plan_view(*plan),
            match with {
                Some(w) => Some(w@),
                None => None,
            },
            body@,
        ),
{
    let core = if plan.wrap {
        let mut c = String::from_str("SELECT COUNT(*) FROM (");
        c.append(body.as_str());
        c.append(") AS sub");
        c
    } else {
        body
    };
    match with {
        Some(w) => {
            if plan.keep_with {
                let mut r = w;
                r.append(" ");
                r.append(core.as_str());
                r
            } else {
                core
            }
        },
        None => core,
    }
}

/// `COUNT(*)` for `None`, `COUNT([ALL | DISTINCT] expr)` otherwise.
pub open spec fn count_call(maybe_expr: Option<Expr>, dt: Option<DuplicateTreatment>) -> Expr {
    function_call_of("COUNT"@, dt, seq![unnamed_arg_of(maybe_expr)])
}

/// `COUNT(*)` for `None`, `COUNT([ALL | DISTINCT] expr)` otherwise.
pub fn count_expr(maybe_expr: Option<Expr>, duplicate_treatment: Option<DuplicateTreatment>) -> (r: Expr)
    ensures
        r == count_call(maybe_expr, duplicate_treatment),
{
    let mut args = Vec::new();
    args.push(unnamed_arg(maybe_expr));
    assert(args@ =~= seq![unnamed_arg_of(maybe_expr)]);
    function_call("COUNT", duplicate_treatment, args)
}

/// The expression of the projection item at `index` of a query's select, if
/// the query's body is a select and that item has one.
pub open spec fn projected_expr_of(q: Query, index: int) -> Option<Expr> {
    match body_part(q) {
        BodyPart::Select(s) => if 0 <= index < projection_of(s).len() {
            match item_part(projection_of(s)[index]) {
                ItemPart::Unnamed(e) => Some(e),
                ItemPart::Aliased(e, _) => Some(e),
                _ => None,
            }
        } else {
            None
        },
        _ => None,
    }
}

/// A copy of the expression of the projection item at `index` of a query's
/// select (see `projected_expr_of`).
fn projected_expr(q: &Query, index: usize) -> (r: Option<Expr>)
    ensures
        r == projected_expr_of(*q, index as int),
{
    match query_body(q) {
        BodyNode::Select(s) => {
            let items = select_projection(s);
            if index < items.len() {
                match select_item_node(&items[index]) {
                    SelectItemNode::Unnamed(e) => Some(expr_clone(e)),
                    SelectItemNode::Aliased(e, _) => Some(expr_clone(e)),
                    _ => None,
                }
            } else {
                None
            }
        },
        _ => None,
    }
}

/// The projection of the COUNT query: `COUNT(*)`, `COUNT(DISTINCT target)`
/// (kept as it is when the projected item has no expression) or `1`, then
/// `DISTINCT` removed when the plan says so; `source` is the query whose
/// projection the targets index.
pub open spec fn edited_projection(
    q: Query,
    source: Query,
    projection: EditView,
    clear_distinct: bool,
) -> Query {
    let q1 = match projection {
        EditView::Keep => q,
        EditView::CountStar => query_with_projection(
            q,
            seq![unnamed_item_of(count_call(None, None))],
        ),
        EditView::CountDistinct(t) => {
            let e = match t {
                TargetView::Projected(i) => projected_expr_of(source, i as int),
                TargetView::PrimaryKey(pk) => Some(identifier_of(pk)),
            };
            match e {
                Some(e) => query_with_projection(
                    q,
                    seq![unnamed_item_of(count_call(Some(e), Some(duplicate_treatment_of(true))))],
                ),
                None => q,
            }
        },
        EditView::One => query_with_projection(q, seq![unnamed_item_of(identifier_of("1"@))]),
    };
    if clear_distinct {
        query_without_distinct(q1)
    } else {
        q1
    }
}

/// The query a COUNT query is made from: `source` without `ORDER BY`,
/// `LIMIT`/`OFFSET`, `FETCH` and `WITH`, its projection edited by the plan.
pub open spec fn count_body(source: Query, plan: PlanView) -> Query {
    let stripped = query_without_with(
        query_without_fetch(query_without_limit(query_without_order_by(source))),
    );
    edited_projection(stripped, source, plan.projection, plan.clear_distinct)
}

/// The COUNT query text of a query under a plan: its rendered `WITH` clause
/// (when it has one) and its rendered `count_body`, assembled by
/// `count_sql_text`.
pub open spec fn count_query_text(source: Query, plan: PlanView) -> Seq<char> {
    count_sql_text(
        plan,
        match with_clause_of(source) {
            Some(w) => Some(rendered_with(w)),
            None => None,
        },
        rendered_query(count_body(source, plan)),
    )
}

/// The COUNT query of a statement whose tree and model are given.
pub open spec fn statement_count_text(
    ast: sqlparser::ast::Statement,
    model: StatementModel,
    pk: Option<Seq<char>>,
) -> Seq<char> {
    match (model, statement_part(ast)) {
        (StatementModel::Query(q), StatementPart::Query(source)) => count_query_text(
            source,
            query_plan(q, pk),
        ),
        _ => rendered_statement(ast),
    }
}

/// Applies the projection edit and the `DISTINCT` removal of a plan to the
/// query `q`, reading projected targets from `source`.
fn apply_edits(q: &mut Query, source: &Query, plan: &CountPlan)
    ensures
        *final(q) == edited_projection(
            *old(q),
            *source,
            plan_view(*plan).projection,
            plan.clear_distinct,
        ),
{
    match &plan.projection {
        ProjectionEdit::Keep => {},
        ProjectionEdit::CountStar => {
            let mut items = Vec::new();
            items.push(unnamed_item(count_expr(None, None)));
            assert(items@ =~= seq![unnamed_item_of(count_call(None, None))]);
            query_set_projection(q, items);
        },
        ProjectionEdit::CountDistinct(target) => {
            let e = match target {
                DistinctTarget::Projected(i) => projected_expr(source, *i),
                DistinctTarget::PrimaryKey(pk) => Some(identifier_expr(pk.as_str())),
            };
            if let Some(e) = e {
                let ghost ge = e;
                let mut items = Vec::new();
                items.push(unnamed_item(count_expr(Some(e), Some(duplicate_treatment(true)))));
                assert(items@ =~= seq![
                    unnamed_item_of(count_call(Some(ge), Some(duplicate_treatment_of(true)))),
                ]);
                query_set_projection(q, items);
            }
        },
        ProjectionEdit::One => {
            let mut items = Vec::new();
            items.push(unnamed_item(identifier_expr("1")));
            assert(items@ =~= seq![unnamed_item_of(identifier_of("1"@))]);
            query_set_projection(q, items);
        },
    }
    if plan.clear_distinct {
        query_clear_distinct(q);
    }
}

/// The COUNT query of a statement: for a query, the plan of `query_plan`
/// applied to it and rendered by sqlparser (see `count_query_text`); any
/// other statement is rendered as it is.
pub fn generate_count_query(statement: &SqlStatement, primary_key: Option<&str>) -> (r: String)
    ensures
        r@ == statement_count_text(
            statement.ast_of(),
            statement.model_of(),
            opt_str_view(primary_key),
        ),
{
    let q_model = match statement.model() {
        StatementModel::Query(q) => q,
        _ => {
            return statement.to_string();
        },
    };
    let plan = plan_count_query(q_model, primary_key);
    match statement_node(statement.ast()) {
        StatementNode::Query(source) => {
            let mut query = query_clone(source);
            query_clear_order_by(&mut query);
            query_clear_limit(&mut query);
            query_clear_fetch(&mut query);
            let with = match query_with(source) {
                Some(w) => Some(with_text(w)),
                None => None,
            };
            query_clear_with(&mut query);
            apply_edits(&mut query, source, &plan);
            let body = query_text(&query);
            let ghost wv = match &with {
                Some(w) => Some(w@),
                None => None,
            };
            let ghost bv = body@;
            let r = assemble_count_sql(&plan, with, body);
            assert(r@ == count_sql_text(query_plan(*q_model, opt_str_view(primary_key)), wv, bv));
            r
        },
        _ => statement.to_string(),
    }
}

} // verus!
