use proxy_pulse::api::{health_check, ApiResponse, ErrorResponse, PaginationParams, TopParams};

#[test]
fn top_limit_defaults_to_ten() {
    assert_eq!(TopParams { limit: None }.top_limit(), 10);
}

#[test]
fn country_limit_defaults_to_twenty() {
    assert_eq!(TopParams { limit: None }.country_limit(), 20);
}

#[test]
fn limits_are_capped_at_one_hundred() {
    assert_eq!(TopParams { limit: Some(500) }.top_limit(), 100);
    assert_eq!(TopParams { limit: Some(101) }.country_limit(), 100);
    assert_eq!(TopParams { limit: Some(100) }.top_limit(), 100);
    assert_eq!(TopParams { limit: Some(5) }.top_limit(), 5);
    assert_eq!(TopParams { limit: Some(-3) }.country_limit(), -3);
}

#[test]
fn pages_start_at_one() {
    assert_eq!(PaginationParams { page: None, per_page: None }.page_number(), 1);
    assert_eq!(PaginationParams { page: Some(0), per_page: None }.page_number(), 1);
    assert_eq!(PaginationParams { page: Some(-7), per_page: None }.page_number(), 1);
    assert_eq!(PaginationParams { page: Some(4), per_page: None }.page_number(), 4);
}

#[test]
fn page_size_defaults_and_cap() {
    assert_eq!(PaginationParams { page: None, per_page: None }.page_size(), 20);
    assert_eq!(PaginationParams { page: None, per_page: Some(1000) }.page_size(), 100);
    assert_eq!(PaginationParams { page: None, per_page: Some(0) }.page_size(), 0);
}

#[test]
fn no_request_exceeds_the_cap() {
    for l in [i64::MIN, -1, 0, 1, 99, 100, 101, i64::MAX].iter() {
        assert!(TopParams { limit: Some(*l) }.top_limit() <= 100);
        assert!(PaginationParams { page: Some(*l), per_page: Some(*l) }.page_size() <= 100);
        assert!(PaginationParams { page: Some(*l), per_page: None }.page_number() >= 1);
    }
}

#[test]
fn health_answer() {
    let r = health_check();
    assert!(r.success);
    assert_eq!(r.data, "Proxy Pulse is running");
}

#[test]
fn answers_carry_success_flags() {
    let ok = ApiResponse::ok(3u32);
    assert!(ok.success);
    assert_eq!(ok.data, 3);
    let err = ErrorResponse::from_message("database is locked".to_string());
    assert!(!err.success);
    assert_eq!(err.error, "database is locked");
}
