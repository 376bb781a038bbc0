use undelegation_query::pagination::resolve_pagination;

#[test]
fn offset_is_page_minus_one_times_page_size() {
    let r = resolve_pagination(Some(1), Some(10));
    assert_eq!(r.page, 1);
    assert_eq!(r.page_size, 10);
    assert_eq!(r.offset, 0);

    let r = resolve_pagination(Some(3), Some(20));
    assert_eq!(r.page, 3);
    assert_eq!(r.page_size, 20);
    assert_eq!(r.offset, 40);

    let r = resolve_pagination(Some(7), Some(25));
    assert_eq!(r.offset, 150);
}

#[test]
fn omitted_parameters_default_to_page_one_of_ten() {
    let defaulted = resolve_pagination(None, None);
    let explicit = resolve_pagination(Some(1), Some(10));
    assert_eq!(defaulted.page, explicit.page);
    assert_eq!(defaulted.page_size, explicit.page_size);
    assert_eq!(defaulted.offset, explicit.offset);
    assert_eq!(defaulted.page, 1);
    assert_eq!(defaulted.page_size, 10);
    assert_eq!(defaulted.offset, 0);
}

#[test]
fn omitting_only_one_parameter_defaults_it() {
    let r = resolve_pagination(None, Some(20));
    assert_eq!(r.page, 1);
    assert_eq!(r.page_size, 20);
    assert_eq!(r.offset, 0);

    let r = resolve_pagination(Some(4), None);
    assert_eq!(r.page, 4);
    assert_eq!(r.page_size, 10);
    assert_eq!(r.offset, 30);
}

#[test]
fn non_positive_parameters_pass_through() {
    let r = resolve_pagination(Some(0), Some(10));
    assert_eq!(r.offset, -10);
    let r = resolve_pagination(Some(-2), Some(5));
    assert_eq!(r.offset, -15);
}

#[test]
fn extreme_parameters_do_not_wrap() {
    let r = resolve_pagination(Some(i32::MAX), Some(i32::MAX));
    assert_eq!(r.offset, (i32::MAX as i64 - 1) * i32::MAX as i64);
    let r = resolve_pagination(Some(i32::MIN), Some(i32::MAX));
    assert_eq!(r.offset, (i32::MIN as i64 - 1) * i32::MAX as i64);
}
