use undelegation_query::plan::{build_query_plan, FilterKind};

#[test]
fn delegator_filter_value_is_lowercased_before_binding() {
    let plan = build_query_plan(
        FilterKind::ByDelegator,
        Some("0xABCdef".to_string()),
        None,
        None,
    );
    assert_eq!(plan.bind.as_deref(), Some("0xabcdef"));
}

#[test]
fn validator_filter_value_is_bound_verbatim() {
    let plan = build_query_plan(FilterKind::ByValidator, Some("ValX".to_string()), None, None);
    assert_eq!(plan.bind.as_deref(), Some("ValX"));
}

#[test]
fn unfiltered_plan_binds_nothing_and_queries_whole_table() {
    let plan = build_query_plan(FilterKind::ByDelegator, None, Some(2), Some(5));
    assert!(plan.bind.is_none());
    assert_eq!(plan.count_sql, "SELECT count(block_num) FROM evm_undelegations");
    assert_eq!(
        plan.page_sql,
        "SELECT tx_id,block_id,block_num,validator,delegator,tm,amount FROM evm_undelegations ORDER BY tm DESC LIMIT $1 OFFSET $2",
    );
    assert_eq!(plan.paging.page, 2);
    assert_eq!(plan.paging.page_size, 5);
    assert_eq!(plan.paging.offset, 5);
}

#[test]
fn filtered_plans_share_the_predicate_between_count_and_page() {
    let plan = build_query_plan(FilterKind::ByDelegator, Some("0xabc".to_string()), None, None);
    assert_eq!(
        plan.count_sql,
        "SELECT count(block_num) FROM evm_undelegations WHERE delegator=$1",
    );
    assert_eq!(
        plan.page_sql,
        "SELECT tx_id,block_id,block_num,validator,delegator,tm,amount FROM evm_undelegations WHERE delegator=$1 ORDER BY tm DESC LIMIT $2 OFFSET $3",
    );

    let plan = build_query_plan(FilterKind::ByValidator, Some("v".to_string()), None, None);
    assert_eq!(
        plan.count_sql,
        "SELECT count(block_num) FROM evm_undelegations WHERE validator=$1",
    );
    assert_eq!(
        plan.page_sql,
        "SELECT tx_id,block_id,block_num,validator,delegator,tm,amount FROM evm_undelegations WHERE validator=$1 ORDER BY tm DESC LIMIT $2 OFFSET $3",
    );
}

#[test]
fn pagination_defaults_flow_into_the_plan() {
    let plan = build_query_plan(FilterKind::ByValidator, None, None, None);
    assert_eq!(plan.paging.page, 1);
    assert_eq!(plan.paging.page_size, 10);
    assert_eq!(plan.paging.offset, 0);
}
