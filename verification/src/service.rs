//! The two lookup operations: plan construction, the decision taken between
//! the two store round-trips, row normalization, and envelope assembly —
//! together with their execution against the in-memory table model.

use vstd::prelude::*;
use crate::pagination::effective_page;
use crate::pagination::effective_page_size;
use crate::pagination::offset_of;
use crate::plan::FilterKind;
use crate::plan::QueryPlan;
use crate::plan::bound_value;
use crate::plan::build_query_plan;
use crate::plan::lower_of;
use crate::plan::opt_view;
use crate::record::UndelegateRecord;
use crate::record::UndelegationEvent;
use crate::record::is_record_of;
use crate::record::normalize_event;
use crate::table::count_matching;
use crate::table::count_spec;
use crate::table::event_matches;
use crate::table::eval_page;
use crate::table::lemma_page_spec_ensures;
use crate::table::page_spec;
use crate::table::sorted_desc;

verus! {

/// Why an invocation failed. Every failure aborts the invocation; no partial
/// or degraded envelope is ever returned.
#[derive(Clone, Copy, PartialEq, Eq, Structural, Debug)]
pub enum ServiceError {
    /// The store could not be reached or gave out no connection.
    StoreUnavailable,
    /// The store rejected a query, a negative page size or offset among the
    /// causes.
    QueryExecution,
    /// A returned row could not be decoded into a stored event.
    RowDecode,
}

/// The request parameters of the lookup by delegator. The delegator filter
/// is matched case-insensitively.
pub struct DelegatorUndelegateRecordsParams {
    pub delegator: Option<String>,
    pub page: Option<i32>,
    pub page_size: Option<i32>,
}

/// The request parameters of the lookup by validator. The validator filter
/// is matched case-sensitively.
pub struct ValidatorUndelegateRecordsParams {
    pub validator: Option<String>,
    pub page: Option<i32>,
    pub page_size: Option<i32>,
}

/// The result envelope: the count of matching rows ignoring pagination, the
/// effective request parameters echoed back, and the page of records.
#[derive(Debug)]
pub struct PagedResult {
    pub total: i64,
    pub page: i32,
    pub page_size: i32,
    pub data: Vec<UndelegateRecord>,
}

/// The decision taken once the counting query has returned.
#[derive(PartialEq, Eq, Structural, Debug)]
pub enum CountDecision {
    /// The count arrived: the page query may be issued.
    Proceed { total: i64 },
    /// The counting query failed: the invocation aborts with that error and
    /// the page query is never issued.
    Abort { error: ServiceError },
}

/// Decides between the two store round-trips: a failed counting query aborts
/// the invocation with the store's error, so no page query follows it; only
/// a counted total lets the page query proceed.
pub fn decide_after_count(count: Result<i64, ServiceError>) -> (r: CountDecision)
    ensures
        match count {
            Ok(n) => r == (CountDecision::Proceed { total: n }),
            Err(e) => r == (CountDecision::Abort { error: e }),
        },
{
    match count {
        Ok(n) => CountDecision::Proceed { total: n },
        Err(e) => CountDecision::Abort { error: e },
    }
}

/// Every fetched row is well-formed.
pub open spec fn all_wf(rows: Seq<UndelegationEvent>) -> bool {
    forall|i: int| 0 <= i < rows.len() ==> (#[trigger] rows[i]).wf()
}

/// Normalizes the fetched rows and assembles the result envelope. Fails with
/// a row-decode error, and returns no partial page, as soon as one row is
/// not well-formed; otherwise every row is normalized in order.
pub fn assemble_page(total: i64, page: i32, page_size: i32, rows: Vec<UndelegationEvent>) -> (r:
    Result<PagedResult, ServiceError>)
    ensures
        r is Ok <==> all_wf(rows@),
        r matches Ok(pr) ==> {
            &&& pr.total == total
            &&& pr.page == page
            &&& pr.page_size == page_size
            &&& pr.data@.len() == rows@.len()
            &&& forall|i: int|
                0 <= i < rows@.len() ==> is_record_of(rows@[i], #[trigger] pr.data@[i])
        },
        r is Err ==> r == Err::<PagedResult, ServiceError>(ServiceError::RowDecode),
{
    let mut i: usize = 0;
    while i < rows.len()
        invariant
            0 <= i <= rows@.len(),
            forall|m: int| 0 <= m < i ==> (#[trigger] rows@[m]).wf(),
        decreases rows@.len() - i,
    {
        if !rows[i].tm.is_wf() {
            proof {
                assert(!all_wf(rows@));
            }
            return Err(ServiceError::RowDecode);
        }
        i = i + 1;
    }
    let ghost orig = rows@;
    let mut input = rows;
    let mut data: Vec<UndelegateRecord> = Vec::new();
    while input.len() > 0
        invariant
            all_wf(orig),
            input@.len() <= orig.len(),
            input@ == orig.skip(orig.len() - input@.len()),
            data@.len() == orig.len() - input@.len(),
            forall|i: int| 0 <= i < data@.len() ==> is_record_of(orig[i], #[trigger] data@[i]),
        decreases input@.len(),
    {
        let ghost k = orig.len() - input@.len();
        proof {
            assert(input@[0] == orig.skip(k as int)[0]);
            assert(orig.skip(k as int).drop_first() =~= orig.skip(k as int + 1));
        }
        let e = input.remove(0);
        proof {
            assert(input@ =~= orig.skip(k as int).drop_first());
            assert(e == orig[k as int]);
            assert(orig[k as int].wf());
        }
        data.push(normalize_event(e));
    }
    Ok(PagedResult { total, page, page_size, data })
}

/// What the envelope of a lookup of `kind` with bound value `bind` holds,
/// for a table model `t`: the store rejects a negative page size or offset;
/// otherwise the count of matching rows comes back as `total`, the effective
/// parameters are echoed, and the data is the normalized page — ordered by
/// timestamp descending, never longer than the page size, and empty when the
/// offset reaches the total.
pub open spec fn envelope_ok(
    t: Seq<UndelegationEvent>,
    kind: FilterKind,
    bind: Option<Seq<char>>,
    page: int,
    page_size: int,
    r: Result<PagedResult, ServiceError>,
) -> bool {
    let offset = offset_of(page, page_size);
    if page_size < 0 || offset < 0 {
        r == Err::<PagedResult, ServiceError>(ServiceError::QueryExecution)
    } else {
        match r {
            Err(_) => false,
            Ok(pr) => {
                let rows = page_spec(t, kind, bind, page_size, offset);
                &&& pr.total as int == count_spec(t, kind, bind)
                &&& pr.page as int == page
                &&& pr.page_size as int == page_size
                &&& pr.data@.len() == rows.len()
                &&& forall|i: int|
                    0 <= i < rows.len() ==> is_record_of(rows[i], #[trigger] pr.data@[i])
            },
        }
    }
}

/// Shared body of the two lookups, parameterized by the filtered column.
fn list_undelegations(
    table: Vec<UndelegationEvent>,
    kind: FilterKind,
    value: Option<String>,
    page: Option<i32>,
    page_size: Option<i32>,
) -> (r: Result<PagedResult, ServiceError>)
    requires
        table@.len() <= 0x7fff_ffff_ffff_ffff,
        forall|i: int| 0 <= i < table@.len() ==> (#[trigger] table@[i]).wf(),
    ensures
        envelope_ok(
            table@,
            kind,
            bound_value(kind, opt_view(value)),
            effective_page(page),
            effective_page_size(page_size),
            r,
        ),
        r matches Ok(pr) ==> forall|i: int, j: int|
            0 <= i <= j < pr.data@.len() ==> (#[trigger] pr.data@[i]).timestamp >= (
            #[trigger] pr.data@[j]).timestamp,
{
    let ghost bind = bound_value(kind, opt_view(value));
    let plan: QueryPlan = build_query_plan(kind, value, page, page_size);
    if plan.paging.page_size < 0 || plan.paging.offset < 0 {
        return Err(ServiceError::QueryExecution);
    }
    let limit: i64 = plan.paging.page_size as i64;
    proof {
        lemma_page_spec_ensures(table@, kind, bind, limit as int, plan.paging.offset as int);
    }
    let total: i64 = count_matching(&table, kind, &plan.bind);
    let rows = eval_page(table, kind, &plan.bind, limit, plan.paging.offset);
    let ghost rows_spec = page_spec(
        table@,
        kind,
        bind,
        limit as int,
        plan.paging.offset as int,
    );
    let r = assemble_page(total, plan.paging.page, plan.paging.page_size, rows);
    proof {
        assert(r is Ok);
        let pr = r->Ok_0;
        assert(sorted_desc(rows_spec));
        assert forall|i: int, j: int|
            0 <= i <= j < pr.data@.len() implies (#[trigger] pr.data@[i]).timestamp >= (
        #[trigger] pr.data@[j]).timestamp by {
            assert(is_record_of(rows_spec[i], pr.data@[i]));
            assert(is_record_of(rows_spec[j], pr.data@[j]));
            assert(rows_spec[i].tm_key() >= rows_spec[j].tm_key());
        }
    }
    r
}

/// The lookup by delegator: matches the stored delegator against the
/// lowercased filter value, so differently-cased queries return the same
/// envelope.
pub fn list_undelegations_by_delegator(
    table: Vec<UndelegationEvent>,
    params: DelegatorUndelegateRecordsParams,
) -> (r: Result<PagedResult, ServiceError>)
    requires
        table@.len() <= 0x7fff_ffff_ffff_ffff,
        forall|i: int| 0 <= i < table@.len() ==> (#[trigger] table@[i]).wf(),
    ensures
        envelope_ok(
            table@,
            FilterKind::ByDelegator,
            bound_value(FilterKind::ByDelegator, opt_view(params.delegator)),
            effective_page(params.page),
            effective_page_size(params.page_size),
            r,
        ),
        r matches Ok(pr) ==> forall|i: int, j: int|
            0 <= i <= j < pr.data@.len() ==> (#[trigger] pr.data@[i]).timestamp >= (
            #[trigger] pr.data@[j]).timestamp,
{
    list_undelegations(table, FilterKind::ByDelegator, params.delegator, params.page, params.page_size)
}

/// The lookup by validator: matches the stored validator against the filter
/// value verbatim, case-sensitively.
pub fn list_undelegations_by_validator(
    table: Vec<UndelegationEvent>,
    params: ValidatorUndelegateRecordsParams,
) -> (r: Result<PagedResult, ServiceError>)
    requires
        table@.len() <= 0x7fff_ffff_ffff_ffff,
        forall|i: int| 0 <= i < table@.len() ==> (#[trigger] table@[i]).wf(),
    ensures
        envelope_ok(
            table@,
            FilterKind::ByValidator,
            bound_value(FilterKind::ByValidator, opt_view(params.validator)),
            effective_page(params.page),
            effective_page_size(params.page_size),
            r,
        ),
        r matches Ok(pr) ==> forall|i: int, j: int|
            0 <= i <= j < pr.data@.len() ==> (#[trigger] pr.data@[i]).timestamp >= (
            #[trigger] pr.data@[j]).timestamp,
{
    list_undelegations(table, FilterKind::ByValidator, params.validator, params.page, params.page_size)
}

/// A successful envelope never holds more records than the page size, and
/// holds none at all once the offset reaches the count of matching rows.
pub proof fn lemma_envelope_page_bounds(
    t: Seq<UndelegationEvent>,
    kind: FilterKind,
    bind: Option<Seq<char>>,
    page: int,
    page_size: int,
    r: Result<PagedResult, ServiceError>,
)
    requires
        envelope_ok(t, kind, bind, page, page_size, r),
        r is Ok,
    ensures
        r->Ok_0.data@.len() <= page_size,
        offset_of(page, page_size) >= count_spec(t, kind, bind) ==> r->Ok_0.data@.len() == 0,
{
    lemma_page_spec_ensures(t, kind, bind, page_size, offset_of(page, page_size));
}

/// An unfiltered listing reports the full row count of the table as its
/// total.
pub proof fn lemma_unfiltered_total(
    t: Seq<UndelegationEvent>,
    kind: FilterKind,
    page: int,
    page_size: int,
    r: Result<PagedResult, ServiceError>,
)
    requires
        envelope_ok(t, kind, None, page, page_size, r),
        r is Ok,
    ensures
        r->Ok_0.total as int == t.len(),
{
    crate::table::lemma_unfiltered_matches_all(t, kind);
}

/// The delegator lookup is case-insensitive: two filter values with the same
/// lowercase form bind the same value, so the count, the page, and with them
/// the whole envelope that `envelope_ok` admits are identical.
pub proof fn lemma_delegator_lookup_case_insensitive(
    t: Seq<UndelegationEvent>,
    a: Seq<char>,
    b: Seq<char>,
    limit: int,
    offset: int,
)
    requires
        lower_of(a) == lower_of(b),
    ensures
        bound_value(FilterKind::ByDelegator, Some(a)) == bound_value(
            FilterKind::ByDelegator,
            Some(b),
        ),
        count_spec(t, FilterKind::ByDelegator, bound_value(FilterKind::ByDelegator, Some(a)))
            == count_spec(
            t,
            FilterKind::ByDelegator,
            bound_value(FilterKind::ByDelegator, Some(b)),
        ),
        page_spec(
            t,
            FilterKind::ByDelegator,
            bound_value(FilterKind::ByDelegator, Some(a)),
            limit,
            offset,
        ) == page_spec(
            t,
            FilterKind::ByDelegator,
            bound_value(FilterKind::ByDelegator, Some(b)),
            limit,
            offset,
        ),
{
}

/// The validator lookup is case-sensitive: the filter value is bound
/// verbatim, and a stored row matches only a validator equal to it exactly.
pub proof fn lemma_validator_lookup_case_sensitive(e: UndelegationEvent, v: Seq<char>)
    ensures
        bound_value(FilterKind::ByValidator, Some(v)) == Some(v),
        event_matches(FilterKind::ByValidator, Some(v), e) <==> e.validator@ == v,
{
}

} // verus!
