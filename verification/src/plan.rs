//! Construction of the counting and page queries for one lookup: a pair of
//! parameterized statements plus the value bound to their filter predicate.

use vstd::prelude::*;
use crate::pagination::Pagination;
use crate::pagination::effective_page;
use crate::pagination::effective_page_size;
use crate::pagination::offset_of;
use crate::pagination::resolve_pagination;
use vstd::string::StringExecFns;

verus! {

/// Which column a lookup filters on.
#[derive(Clone, Copy, PartialEq, Eq, Structural)]
pub enum FilterKind {
    ByDelegator,
    ByValidator,
}

/// What `str::to_lowercase` returns for a given character sequence.
pub uninterp spec fn lower_of(s: Seq<char>) -> Seq<char>;

/// Relies on str::to_lowercase: the returned string is the Unicode lowercase
/// form of the input and depends on the input characters alone.
#[verifier::external_body]
fn lowercase(s: &str) -> (r: String)
    ensures
        r@ == lower_of(s@),
{
    s.to_lowercase()
}

/// The view of an optional string.
pub open spec fn opt_view(v: Option<String>) -> Option<Seq<char>> {
    match v {
        Some(s) => Some(s@),
        None => None,
    }
}

/// The value bound to the filter predicate: the delegator filter is matched
/// case-insensitively, so its value is lowercased first; the validator
/// filter is matched verbatim.
pub open spec fn bound_value(kind: FilterKind, value: Option<Seq<char>>) -> Option<Seq<char>> {
    match value {
        None => None,
        Some(v) => Some(
            match kind {
                FilterKind::ByDelegator => lower_of(v),
                FilterKind::ByValidator => v,
            },
        ),
    }
}

/// The text of the counting statement.
pub open spec fn count_sql_spec(kind: FilterKind, filtered: bool) -> Seq<char> {
    if !filtered {
        "SELECT count(block_num) FROM evm_undelegations"@
    } else {
        match kind {
            FilterKind::ByDelegator => "SELECT count(block_num) FROM evm_undelegations WHERE delegator=$1"@,
            FilterKind::ByValidator => "SELECT count(block_num) FROM evm_undelegations WHERE validator=$1"@,
        }
    }
}

/// The text of the page statement: same predicate as the counting statement,
/// ordered by time descending, with the page size and offset bound after the
/// filter value.
pub open spec fn page_sql_spec(kind: FilterKind, filtered: bool) -> Seq<char> {
    if !filtered {
        "SELECT tx_id,block_id,block_num,validator,delegator,tm,amount FROM evm_undelegations ORDER BY tm DESC LIMIT $1 OFFSET $2"@
    } else {
        match kind {
            FilterKind::ByDelegator => "SELECT tx_id,block_id,block_num,validator,delegator,tm,amount FROM evm_undelegations WHERE delegator=$1 ORDER BY tm DESC LIMIT $2 OFFSET $3"@,
            FilterKind::ByValidator => "SELECT tx_id,block_id,block_num,validator,delegator,tm,amount FROM evm_undelegations WHERE validator=$1 ORDER BY tm DESC LIMIT $2 OFFSET $3"@,
        }
    }
}

/// One lookup's pair of statements: the counting query, the page query, the
/// value bound to their shared filter predicate (absent for an unfiltered
/// listing), and the resolved pagination parameters.
pub struct QueryPlan {
    pub kind: FilterKind,
    pub count_sql: String,
    pub page_sql: String,
    pub bind: Option<String>,
    pub paging: Pagination,
}

impl QueryPlan {
    /// The plan built for a lookup of `kind` with filter `value` and the
    /// given optional pagination parameters.
    pub open spec fn is_plan_for(
        self,
        kind: FilterKind,
        value: Option<Seq<char>>,
        page: Option<i32>,
        page_size: Option<i32>,
    ) -> bool {
        &&& self.kind == kind
        &&& opt_view(self.bind) == bound_value(kind, value)
        &&& self.count_sql@ == count_sql_spec(kind, value is Some)
        &&& self.page_sql@ == page_sql_spec(kind, value is Some)
        &&& self.paging.page as int == effective_page(page)
        &&& self.paging.page_size as int == effective_page_size(page_size)
        &&& self.paging.offset as int == offset_of(
            effective_page(page),
            effective_page_size(page_size),
        )
    }
}

/// Builds the two statements for one lookup. The delegator filter value is
/// lowercased before it is bound; the validator filter value is bound
/// verbatim; pagination parameters default to page 1 with ten rows.
pub fn build_query_plan(
    kind: FilterKind,
    value: Option<String>,
    page: Option<i32>,
    page_size: Option<i32>,
) -> (plan: QueryPlan)
    ensures
        plan.is_plan_for(kind, opt_view(value), page, page_size),
{
    let paging = resolve_pagination(page, page_size);
    match value {
        None => QueryPlan {
            kind,
            count_sql: String::from_str("SELECT count(block_num) FROM evm_undelegations"),
            page_sql: String::from_str(
                "SELECT tx_id,block_id,block_num,validator,delegator,tm,amount FROM evm_undelegations ORDER BY tm DESC LIMIT $1 OFFSET $2",
            ),
            bind: None,
            paging,
        },
        Some(v) => match kind {
            FilterKind::ByDelegator => QueryPlan {
                kind,
                count_sql: String::from_str(
                    "SELECT count(block_num) FROM evm_undelegations WHERE delegator=$1",
                ),
                page_sql: String::from_str(
                    "SELECT tx_id,block_id,block_num,validator,delegator,tm,amount FROM evm_undelegations WHERE delegator=$1 ORDER BY tm DESC LIMIT $2 OFFSET $3",
                ),
                bind: Some(lowercase(v.as_str())),
                paging,
            },
            FilterKind::ByValidator => QueryPlan {
                kind,
                count_sql: String::from_str(
                    "SELECT count(block_num) FROM evm_undelegations WHERE validator=$1",
                ),
                page_sql: String::from_str(
                    "SELECT tx_id,block_id,block_num,validator,delegator,tm,amount FROM evm_undelegations WHERE validator=$1 ORDER BY tm DESC LIMIT $2 OFFSET $3",
                ),
                bind: Some(v),
                paging,
            },
        },
    }
}

} // verus!
