use undelegation_query::record::UndelegationEvent;
use undelegation_query::service::{
    assemble_page, decide_after_count, list_undelegations_by_delegator,
    list_undelegations_by_validator, CountDecision, DelegatorUndelegateRecordsParams,
    ServiceError, ValidatorUndelegateRecordsParams,
};
use undelegation_query::time::Timestamp;

fn ts(year: i32, month: u8, day: u8, hour: u8, minute: u8, second: u8) -> Timestamp {
    Timestamp { year, month, day, hour, minute, second }
}

fn ev(tx: &str, delegator: &str, validator: &str, amount: &str, tm: Timestamp) -> UndelegationEvent {
    UndelegationEvent {
        tx_id: tx.to_string(),
        block_id: format!("block-{}", tx),
        block_num: 7,
        validator: validator.to_string(),
        delegator: delegator.to_string(),
        tm,
        amount: amount.to_string(),
    }
}

fn sample_table() -> Vec<UndelegationEvent> {
    vec![
        ev("t1", "0xabc", "valx", "1.50", ts(2023, 1, 1, 0, 0, 0)),
        ev("t2", "0xdef", "ValX", "2.25", ts(2023, 3, 1, 0, 0, 0)),
        ev("t3", "0xabc", "valy", "123.456000", ts(2023, 2, 1, 0, 0, 0)),
    ]
}

fn by_delegator(
    delegator: Option<&str>,
    page: Option<i32>,
    page_size: Option<i32>,
) -> DelegatorUndelegateRecordsParams {
    DelegatorUndelegateRecordsParams {
        delegator: delegator.map(|s| s.to_string()),
        page,
        page_size,
    }
}

fn by_validator(
    validator: Option<&str>,
    page: Option<i32>,
    page_size: Option<i32>,
) -> ValidatorUndelegateRecordsParams {
    ValidatorUndelegateRecordsParams {
        validator: validator.map(|s| s.to_string()),
        page,
        page_size,
    }
}

#[test]
fn delegator_lookup_is_case_insensitive() {
    let upper = list_undelegations_by_delegator(sample_table(), by_delegator(Some("0xABC"), None, None))
        .unwrap();
    let lower = list_undelegations_by_delegator(sample_table(), by_delegator(Some("0xabc"), None, None))
        .unwrap();
    assert_eq!(upper.total, 2);
    assert_eq!(lower.total, 2);
    assert_eq!(upper.data.len(), lower.data.len());
    for (a, b) in upper.data.iter().zip(lower.data.iter()) {
        assert_eq!(a.tx_hash, b.tx_hash);
        assert_eq!(a.timestamp, b.timestamp);
        assert_eq!(a.amount, b.amount);
    }
    assert_eq!(upper.data[0].tx_hash, "t3");
    assert_eq!(upper.data[1].tx_hash, "t1");
}

#[test]
fn validator_lookup_is_case_sensitive() {
    let r = list_undelegations_by_validator(sample_table(), by_validator(Some("ValX"), None, None))
        .unwrap();
    assert_eq!(r.total, 1);
    assert_eq!(r.data.len(), 1);
    assert_eq!(r.data[0].tx_hash, "t2");

    let r = list_undelegations_by_validator(sample_table(), by_validator(Some("valx"), None, None))
        .unwrap();
    assert_eq!(r.total, 1);
    assert_eq!(r.data[0].tx_hash, "t1");

    let r = list_undelegations_by_validator(sample_table(), by_validator(Some("VALX"), None, None))
        .unwrap();
    assert_eq!(r.total, 0);
    assert!(r.data.is_empty());
}

#[test]
fn data_is_sorted_by_timestamp_descending() {
    let r = list_undelegations_by_delegator(sample_table(), by_delegator(None, None, None)).unwrap();
    assert_eq!(r.data.len(), 3);
    for w in r.data.windows(2) {
        assert!(w[0].timestamp >= w[1].timestamp);
    }
    assert_eq!(r.data[0].tx_hash, "t2");
    assert_eq!(r.data[1].tx_hash, "t3");
    assert_eq!(r.data[2].tx_hash, "t1");
}

#[test]
fn page_is_never_longer_than_page_size() {
    let r = list_undelegations_by_delegator(sample_table(), by_delegator(None, Some(1), Some(2)))
        .unwrap();
    assert_eq!(r.total, 3);
    assert_eq!(r.data.len(), 2);
    assert_eq!(r.data[0].tx_hash, "t2");
    assert_eq!(r.data[1].tx_hash, "t3");

    let r = list_undelegations_by_delegator(sample_table(), by_delegator(None, Some(2), Some(2)))
        .unwrap();
    assert_eq!(r.data.len(), 1);
    assert_eq!(r.data[0].tx_hash, "t1");
}

#[test]
fn page_beyond_total_is_empty() {
    let r = list_undelegations_by_delegator(sample_table(), by_delegator(None, Some(3), Some(2)))
        .unwrap();
    assert_eq!(r.total, 3);
    assert!(r.data.is_empty());

    let r = list_undelegations_by_delegator(sample_table(), by_delegator(Some("0xnobody"), None, None))
        .unwrap();
    assert_eq!(r.total, 0);
    assert!(r.data.is_empty());
}

#[test]
fn unfiltered_listing_counts_the_whole_table() {
    let r = list_undelegations_by_validator(sample_table(), by_validator(None, None, None)).unwrap();
    assert_eq!(r.total, 3);
    assert_eq!(r.page, 1);
    assert_eq!(r.page_size, 10);
    assert_eq!(r.data.len(), 3);
    assert_eq!(r.data[0].tx_hash, "t2");
}

#[test]
fn omitted_pagination_equals_explicit_defaults() {
    let defaulted =
        list_undelegations_by_delegator(sample_table(), by_delegator(None, None, None)).unwrap();
    let explicit =
        list_undelegations_by_delegator(sample_table(), by_delegator(None, Some(1), Some(10)))
            .unwrap();
    assert_eq!(defaulted.total, explicit.total);
    assert_eq!(defaulted.page, explicit.page);
    assert_eq!(defaulted.page_size, explicit.page_size);
    assert_eq!(defaulted.data.len(), explicit.data.len());
}

#[test]
fn decimal_amount_string_is_preserved_exactly() {
    let r = list_undelegations_by_delegator(sample_table(), by_delegator(Some("0xABC"), None, None))
        .unwrap();
    assert_eq!(r.data[0].amount, "123.456000");
    assert_eq!(r.data[1].amount, "1.50");
}

#[test]
fn stored_naive_timestamp_is_read_as_utc() {
    let r = list_undelegations_by_validator(sample_table(), by_validator(Some("valx"), None, None))
        .unwrap();
    assert_eq!(r.data[0].timestamp, 1672531200);
}

#[test]
fn identifiers_pass_through_unchanged() {
    let r = list_undelegations_by_validator(sample_table(), by_validator(Some("ValX"), None, None))
        .unwrap();
    assert_eq!(r.data[0].tx_hash, "t2");
    assert_eq!(r.data[0].block_hash, "block-t2");
    assert_eq!(r.data[0].block_num, 7);
    assert_eq!(r.data[0].validator, "ValX");
    assert_eq!(r.data[0].delegator, "0xdef");
}

#[test]
fn negative_pagination_is_rejected_as_query_error() {
    let r = list_undelegations_by_delegator(sample_table(), by_delegator(None, Some(0), Some(10)));
    assert_eq!(r.unwrap_err(), ServiceError::QueryExecution);

    let r = list_undelegations_by_delegator(sample_table(), by_delegator(None, Some(1), Some(-5)));
    assert_eq!(r.unwrap_err(), ServiceError::QueryExecution);
}

#[test]
fn count_failure_aborts_before_the_page_query() {
    let aborted = decide_after_count(Err(ServiceError::StoreUnavailable));
    assert_eq!(aborted, CountDecision::Abort { error: ServiceError::StoreUnavailable });

    let aborted = decide_after_count(Err(ServiceError::QueryExecution));
    assert_eq!(aborted, CountDecision::Abort { error: ServiceError::QueryExecution });

    let counted = decide_after_count(Ok(42));
    assert_eq!(counted, CountDecision::Proceed { total: 42 });
}

#[test]
fn malformed_row_fails_with_row_decode_and_no_partial_page() {
    let rows = vec![
        ev("t1", "0xabc", "valx", "1", ts(2023, 1, 1, 0, 0, 0)),
        ev("t2", "0xabc", "valx", "2", ts(2023, 13, 1, 0, 0, 0)),
    ];
    let r = assemble_page(2, 1, 10, rows);
    assert_eq!(r.unwrap_err(), ServiceError::RowDecode);
}

#[test]
fn assemble_page_echoes_the_effective_parameters() {
    let rows = vec![ev("t1", "0xabc", "valx", "9.000", ts(2024, 2, 29, 12, 0, 0))];
    let r = assemble_page(25, 3, 20, rows).unwrap();
    assert_eq!(r.total, 25);
    assert_eq!(r.page, 3);
    assert_eq!(r.page_size, 20);
    assert_eq!(r.data.len(), 1);
    assert_eq!(r.data[0].timestamp, 1709208000);
    assert_eq!(r.data[0].amount, "9.000");
}

#[test]
fn ties_on_timestamp_keep_storage_order() {
    let same = ts(2023, 5, 5, 5, 5, 5);
    let table = vec![
        ev("t1", "0xabc", "v", "1", same),
        ev("t2", "0xabc", "v", "2", same),
        ev("t3", "0xabc", "v", "3", same),
    ];
    let r = list_undelegations_by_delegator(table, by_delegator(None, None, None)).unwrap();
    assert_eq!(r.data[0].tx_hash, "t1");
    assert_eq!(r.data[1].tx_hash, "t2");
    assert_eq!(r.data[2].tx_hash, "t3");
}

#[test]
fn empty_table_lists_nothing() {
    let r = list_undelegations_by_delegator(Vec::new(), by_delegator(None, None, None)).unwrap();
    assert_eq!(r.total, 0);
    assert!(r.data.is_empty());
    assert_eq!(r.page, 1);
    assert_eq!(r.page_size, 10);

    let r = list_undelegations_by_validator(Vec::new(), by_validator(Some("v"), None, None)).unwrap();
    assert_eq!(r.total, 0);
    assert!(r.data.is_empty());
}
