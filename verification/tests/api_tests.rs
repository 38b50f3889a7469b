use sub_manager_lite::api::{
    check_token, parse_period, parse_status_filter, resolve_base_currency, status_change,
    upcoming_end, validate_create, validate_update, ApiError, Invalid, ListParams, Period,
    StatsParams, StatusAction, StatusWrite, UpcomingParams,
};
use sub_manager_lite::date::Date;
use sub_manager_lite::models::SubscriptionStatus;

const TOKEN: &str = "0123456789abcdef";

#[test]
fn token_gate() {
    assert_eq!(check_token("", Some(TOKEN)), Err(ApiError::UnconfiguredToken));
    assert_eq!(check_token(TOKEN, None), Err(ApiError::MissingToken));
    assert_eq!(check_token(TOKEN, Some("")), Err(ApiError::MissingToken));
    assert_eq!(check_token(TOKEN, Some("wrong-token")), Err(ApiError::InvalidToken));
    assert_eq!(check_token(TOKEN, Some(TOKEN)), Ok(()));
}

#[test]
fn refusal_messages_and_statuses() {
    assert_eq!(ApiError::MissingToken.status_code(), 401);
    assert_eq!(
        ApiError::MissingToken.detail(),
        "未提供认证 Token，请在请求头中添加 X-API-Token"
    );
    assert_eq!(ApiError::InvalidToken.status_code(), 401);
    assert_eq!(
        ApiError::InvalidToken.detail(),
        "Token 无效或已过期，请检查 X-API-Token 是否正确"
    );
    assert_eq!(ApiError::UnconfiguredToken.status_code(), 500);
    assert_eq!(ApiError::NotFound { id: 42 }.status_code(), 404);
    assert_eq!(ApiError::NotFound { id: 42 }.detail(), "订阅 ID 42 不存在");
    assert_eq!(ApiError::NotFound { id: -7 }.detail(), "订阅 ID -7 不存在");
    assert_eq!(ApiError::NotFound { id: 0 }.detail(), "订阅 ID 0 不存在");
    assert_eq!(
        ApiError::NotFound { id: i64::MIN }.detail(),
        format!("订阅 ID {} 不存在", i64::MIN)
    );
    assert_eq!(ApiError::AlreadyCanceled.status_code(), 400);
    assert_eq!(ApiError::AlreadyCanceled.detail(), "该订阅已处于取消状态");
    assert_eq!(ApiError::AlreadyActive.detail(), "该订阅已处于活跃状态");
    assert_eq!(ApiError::Invalid(Invalid::Days).status_code(), 422);
    assert_eq!(ApiError::Internal.status_code(), 500);
    assert_eq!(ApiError::Internal.detail(), "服务器内部错误");
    assert_eq!(ApiError::TooManyRequests.status_code(), 429);
    assert_eq!(ApiError::TooManyRequests.detail(), "请求过于频繁，请稍后再试");
    assert_eq!(ApiError::Invalid(Invalid::Body).detail(), "请求数据无效");
}

#[test]
fn query_parameters() {
    assert_eq!(parse_status_filter(None), Ok(None));
    assert_eq!(
        parse_status_filter(Some("Active")),
        Ok(Some(SubscriptionStatus::Active))
    );
    assert_eq!(
        parse_status_filter(Some("Canceled")),
        Ok(Some(SubscriptionStatus::Canceled))
    );
    assert_eq!(
        parse_status_filter(Some("ACTIVE")),
        Err(ApiError::Invalid(Invalid::StatusFilter))
    );
    assert_eq!(parse_period(None), Ok(Period::Monthly));
    assert_eq!(parse_period(Some("yearly")), Ok(Period::Yearly));
    assert_eq!(
        parse_period(Some("weekly")),
        Err(ApiError::Invalid(Invalid::Period))
    );
    assert_eq!(Period::Yearly.as_str(), "yearly");
    assert_eq!(resolve_base_currency(None, "CNY"), "CNY");
    assert_eq!(resolve_base_currency(Some(""), "CNY"), "CNY");
    assert_eq!(resolve_base_currency(Some("USD"), "CNY"), "USD");
    let lp = ListParams { name: None, status: Some("Paused".to_string()) };
    assert_eq!(lp.status_filter(), Err(ApiError::Invalid(Invalid::StatusFilter)));
    let sp = StatsParams { period: Some("monthly".to_string()), base_currency: Some("EUR".to_string()) };
    assert_eq!(sp.period(), Ok(Period::Monthly));
    assert_eq!(sp.base("CNY"), "EUR");
}

#[test]
fn upcoming_window() {
    let today = Date::new(2024, 12, 30).unwrap();
    assert_eq!(upcoming_end(today, None), Ok(Date::new(2025, 1, 6).unwrap()));
    assert_eq!(upcoming_end(today, Some(1)), Ok(Date::new(2024, 12, 31).unwrap()));
    assert_eq!(upcoming_end(today, Some(365)), Ok(Date::new(2025, 12, 30).unwrap()));
    assert_eq!(upcoming_end(today, Some(0)), Err(ApiError::Invalid(Invalid::Days)));
    assert_eq!(upcoming_end(today, Some(366)), Err(ApiError::Invalid(Invalid::Days)));
    assert_eq!(
        UpcomingParams { days: Some(400) }.end(today),
        Err(ApiError::Invalid(Invalid::Days))
    );
}

#[test]
fn submitted_fields_are_checked_in_order() {
    assert_eq!(validate_create(true, 1, "2099-01-01"), Ok(()));
    assert_eq!(
        validate_create(false, 0, "bad"),
        Err(ApiError::Invalid(Invalid::Price))
    );
    assert_eq!(
        validate_create(true, 0, "bad"),
        Err(ApiError::Invalid(Invalid::Interval))
    );
    assert_eq!(
        validate_create(true, 1, "2099-13-01"),
        Err(ApiError::Invalid(Invalid::EndingDate))
    );
    assert_eq!(
        validate_create(true, 1, "2024-1-05"),
        Err(ApiError::Invalid(Invalid::EndingDate))
    );
    assert_eq!(
        validate_create(true, 1, " 2024-01-05"),
        Err(ApiError::Invalid(Invalid::EndingDate))
    );
    assert_eq!(
        validate_create(true, 1, "01/02/2024"),
        Err(ApiError::Invalid(Invalid::EndingDate))
    );
    assert_eq!(validate_update(None, None, None), Ok(()));
    assert_eq!(validate_update(Some(true), Some(3), Some("2024-02-29")), Ok(()));
    assert_eq!(
        validate_update(Some(false), None, None),
        Err(ApiError::Invalid(Invalid::Price))
    );
    assert_eq!(
        validate_update(None, Some(0), Some("x")),
        Err(ApiError::Invalid(Invalid::Interval))
    );
    assert_eq!(
        validate_update(None, None, Some("2023-02-29")),
        Err(ApiError::Invalid(Invalid::EndingDate))
    );
}

#[test]
fn status_changes() {
    assert_eq!(
        status_change(SubscriptionStatus::Active, StatusAction::Cancel),
        Ok(StatusWrite { status: SubscriptionStatus::Canceled, clear_auto_renew: true })
    );
    assert_eq!(
        status_change(SubscriptionStatus::Canceled, StatusAction::Cancel),
        Err(ApiError::AlreadyCanceled)
    );
    assert_eq!(
        status_change(SubscriptionStatus::Canceled, StatusAction::Restore),
        Ok(StatusWrite { status: SubscriptionStatus::Active, clear_auto_renew: false })
    );
    assert_eq!(
        status_change(SubscriptionStatus::Active, StatusAction::Restore),
        Err(ApiError::AlreadyActive)
    );
}
