//! Laws of COUNT planning and of column inference.
use vstd::prelude::*;

use crate::count::{
    can_select_one, from_has_complex, from_has_derived, item_expr, projected_from, query_plan,
    relation_is_complex, select_has_complex_derived, select_has_derived, select_has_join,
    select_has_window, EditView, TargetView,
};
use crate::model::{BodyModel, QueryModel, SelectItemModel, SelectModel};
use crate::parser::{item_column, projection_columns};

verus! {

/// A select with none of the features that force counting over a subquery.
pub open spec fn plain_select(q: QueryModel, s: SelectModel) -> bool {
    &&& q.body == BodyModel::Select(Box::new(s))
    &&& !q.has_with
    &&& !s.with_ties
    &&& !s.group_by_nonempty
    &&& !s.having
    &&& !select_has_window(s)
    &&& !select_has_derived(s)
}

/// Law: a query whose body is not a select (`UNION`, `INTERSECT`, `EXCEPT`,
/// ...) is counted as `SELECT COUNT(*) FROM (query) AS sub`, unchanged, with
/// its `WITH` clause put back in front.
pub proof fn lemma_set_operation_counts_over_subquery(q: QueryModel, pk: Option<Seq<char>>)
    requires
        !(q.body is Select),
    ensures
        query_plan(q, pk).strategy is Subquery,
        query_plan(q, pk).projection is Keep,
        query_plan(q, pk).wrap,
        query_plan(q, pk).keep_with,
{
}

/// Law (the "golden rule"): a select with `GROUP BY` is counted over itself
/// as a subquery, its projection kept.
pub proof fn lemma_group_by_counts_over_subquery(q: QueryModel, pk: Option<Seq<char>>)
    requires
        q.body matches BodyModel::Select(s) && s.group_by_nonempty,
    ensures
        query_plan(q, pk).strategy is Subquery,
        query_plan(q, pk).projection is Keep,
        query_plan(q, pk).wrap,
{
}

/// Law (the other half of the golden rule): a select without grouping,
/// `DISTINCT`, joins, derived tables, window functions, CTE or `WITH TIES`
/// is counted by `COUNT(*)` in place of its projection, with no subquery.
pub proof fn lemma_plain_select_counts_simply(q: QueryModel, s: SelectModel, pk: Option<Seq<char>>)
    requires
        plain_select(q, s),
        !s.distinct,
        !select_has_join(s),
    ensures
        query_plan(q, pk).strategy is Simple,
        query_plan(q, pk).projection is CountStar,
        !query_plan(q, pk).wrap,
{
}

proof fn lemma_no_derived_no_complex(s: SelectModel)
    requires
        !select_has_derived(s),
    ensures
        !select_has_complex_derived(s),
{
    assert forall|k: int| 0 <= k < s.from@.len() implies !from_has_complex(
        #[trigger] s.from@[k],
    ) by {
        assert(!from_has_derived(s.from@[k]));
        let f = s.from@[k];
        assert forall|j: int| 0 <= j < f.joins@.len() implies !relation_is_complex(
            #[trigger] f.joins@[j],
        ) by {
            assert(!(f.joins@[j] is Derived));
        }
    }
}

/// Law: a join is counted as `COUNT(DISTINCT pk)` when the primary key is
/// given, and otherwise over a subquery whose projection becomes `1`.
pub proof fn lemma_join_counting(q: QueryModel, s: SelectModel, pk: Option<Seq<char>>)
    requires
        plain_select(q, s),
        !s.distinct,
        select_has_join(s),
    ensures
        pk matches Some(p) ==> query_plan(q, pk).projection == EditView::CountDistinct(
            TargetView::PrimaryKey(p),
        ) && !query_plan(q, pk).wrap,
        pk is None ==> query_plan(q, pk).strategy is Subquery && query_plan(q, pk).projection
            is One && query_plan(q, pk).wrap,
{
    lemma_no_derived_no_complex(s);
    assert(can_select_one(s));
}

proof fn lemma_projected_all(items: Seq<SelectItemModel>, i: int)
    requires
        0 <= i <= items.len(),
        forall|k: int| 0 <= k < items.len() ==> item_expr(#[trigger] items[k]) is Some,
    ensures
        projected_from(items, i).len() == items.len() - i,
        forall|k: int|
            0 <= k < items.len() - i ==> #[trigger] projected_from(items, i)[k] == (i + k) as nat,
    decreases items.len() - i,
{
    if i < items.len() {
        lemma_projected_all(items, i + 1);
        let rest = projected_from(items, i + 1);
        assert(projected_from(items, i) == seq![i as nat] + rest);
        assert forall|k: int| 0 <= k < items.len() - i implies #[trigger] projected_from(
            items,
            i,
        )[k] == (i + k) as nat by {
            if k > 0 {
                assert(projected_from(items, i)[k] == rest[k - 1]);
            }
        }
    }
}

/// Law: a `DISTINCT` select over one expression is counted as
/// `COUNT(DISTINCT expr)` with its `DISTINCT` removed and no subquery; over
/// several expressions, as a subquery that keeps the `DISTINCT`.
pub proof fn lemma_distinct_counting(q: QueryModel, s: SelectModel, pk: Option<Seq<char>>)
    requires
        plain_select(q, s),
        s.distinct,
        s.projection@.len() >= 1,
        forall|k: int| 0 <= k < s.projection@.len() ==> item_expr(#[trigger] s.projection@[k]) is Some,
    ensures
        s.projection@.len() == 1 ==> query_plan(q, pk).projection == EditView::CountDistinct(
            TargetView::Projected(0),
        ) && query_plan(q, pk).clear_distinct && !query_plan(q, pk).wrap,
        s.projection@.len() > 1 ==> query_plan(q, pk).projection is Keep && !query_plan(
            q,
            pk,
        ).clear_distinct && query_plan(q, pk).wrap,
{
    lemma_projected_all(s.projection@, 0);
    let idx = projected_from(s.projection@, 0);
    assert(idx.len() == s.projection@.len());
    if idx.len() == 1 {
        assert(idx[0] == 0);
    }
}

proof fn lemma_columns_per_item(items: Seq<SelectItemModel>, i: nat)
    requires
        i <= items.len(),
    ensures
        projection_columns(items, i) matches Ok(cs) ==> {
            &&& cs.len() == items.len() - i
            &&& forall|k: int|
                0 <= k < cs.len() ==> Ok::<Seq<char>, Seq<char>>(#[trigger] cs[k]) == item_column(
                    items[i + k],
                    (i + k) as nat,
                )
        },
        (exists|k: int| i <= k < items.len() && (#[trigger] items[k]).kind is Wildcard)
            ==> projection_columns(items, i) is Err,
    decreases items.len() - i,
{
    if i < items.len() {
        lemma_columns_per_item(items, i + 1);
        if projection_columns(items, i) is Ok {
            let cs = projection_columns(items, i)->Ok_0;
            let rest = projection_columns(items, i + 1)->Ok_0;
            assert(cs == seq![item_column(items[i as int], i)->Ok_0] + rest);
            assert forall|k: int| 0 <= k < cs.len() implies Ok::<Seq<char>, Seq<char>>(
                #[trigger] cs[k],
            ) == item_column(items[i + k], (i + k) as nat) by {
                if k > 0 {
                    assert(cs[k] == rest[k - 1]);
                }
            }
        }
        if exists|k: int| i <= k < items.len() && (#[trigger] items[k]).kind is Wildcard {
            let k = choose|k: int| i <= k < items.len() && (#[trigger] items[k]).kind is Wildcard;
            if k == i {
                assert(item_column(items[i as int], i) is Err);
            } else {
                assert(i + 1 <= k < items.len() && items[k].kind is Wildcard);
            }
        }
    }
}

/// Law: a projection infers one column per item, in order, each the item's
/// own column (its alias, identifier, or `field_<i>`); and a projection with
/// `*` infers none but fails.
pub proof fn lemma_one_column_per_item(items: Seq<SelectItemModel>)
    ensures
        projection_columns(items, 0) matches Ok(cs) ==> {
            &&& cs.len() == items.len()
            &&& forall|k: int|
                0 <= k < cs.len() ==> Ok::<Seq<char>, Seq<char>>(#[trigger] cs[k]) == item_column(
                    items[k],
                    k as nat,
                )
        },
        (exists|k: int| 0 <= k < items.len() && (#[trigger] items[k]).kind is Wildcard)
            ==> projection_columns(items, 0) is Err,
{
    lemma_columns_per_item(items, 0);
}

/// Law (the `HAVING` half of the golden rule): a select with `HAVING` is
/// counted over itself as a subquery, its projection kept (the condition may
/// name projected aliases).
pub proof fn lemma_having_counts_over_subquery(q: QueryModel, pk: Option<Seq<char>>)
    requires
        q.body matches BodyModel::Select(s) && s.having,
    ensures
        query_plan(q, pk).strategy is Subquery,
        query_plan(q, pk).projection is Keep,
        query_plan(q, pk).wrap,
{
}

/// Law: the projection of a counted subquery is replaced by `1` only where
/// that cannot change how many rows the subquery has: the query is a select
/// without `DISTINCT`, `GROUP BY`, `HAVING` or window functions.
pub proof fn lemma_select_one_keeps_row_count(q: QueryModel, pk: Option<Seq<char>>)
    requires
        query_plan(q, pk).projection is One,
    ensures
        q.body matches BodyModel::Select(s) && !s.distinct && !s.group_by_nonempty && !s.having
            && !select_has_window(*s),
        query_plan(q, pk).wrap,
{
}

/// Law: a `DISTINCT` select counted over a subquery keeps its projection, so
/// the subquery has one row per distinct projected value.
pub proof fn lemma_distinct_subquery_keeps_projection(q: QueryModel, pk: Option<Seq<char>>)
    requires
        q.body matches BodyModel::Select(s) && s.distinct,
        query_plan(q, pk).strategy is Subquery,
    ensures
        query_plan(q, pk).projection is Keep,
        query_plan(q, pk).wrap,
{
}

/// Law: a select under a `WITH` clause, with window functions or with
/// `TOP ... WITH TIES` is counted over itself as a subquery, its `WITH`
/// clause put back in front of the COUNT query.
pub proof fn lemma_cte_window_ties_count_over_subquery(q: QueryModel, pk: Option<Seq<char>>)
    requires
        q.body matches BodyModel::Select(s) && (q.has_with || s.with_ties || select_has_window(
            *s,
        )),
    ensures
        query_plan(q, pk).strategy is Subquery,
        query_plan(q, pk).wrap,
        query_plan(q, pk).keep_with,
        query_plan(q, pk).projection is Keep || query_plan(q, pk).projection is One,
{
}

} // verus!
