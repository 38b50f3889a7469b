//! The request-level rules of the subscription service: who may call it, how
//! query parameters and submitted fields are checked, which status changes
//! are allowed, and what each refusal answers.

use vstd::prelude::*;

use crate::auth::token_matches;
use crate::date::{canonical_date, is_canonical_ymd, is_canonical_ymd_text, last_day_number, Date};
use crate::models::SubscriptionStatus;
use crate::text::{decimal_text, i64_to_text, str_eq};

verus! {

/// Which submitted value or parameter was refused.
#[derive(Debug, Clone, Copy, PartialEq, Eq, Structural)]
pub enum Invalid {
    /// A price that is not positive.
    Price,
    /// A billing interval below one.
    Interval,
    /// An ending date not written as `YYYY-MM-DD`.
    EndingDate,
    /// A status filter other than `Active` or `Canceled`.
    StatusFilter,
    /// A statistics period other than `monthly` or `yearly`.
    Period,
    /// A look-ahead outside one to 365 days.
    Days,
    /// A request body that is not a valid subscription document.
    Body,
    /// Query parameters that do not parse.
    Query,
    /// A path parameter that does not parse.
    Path,
}

/// A refused or failed request.
#[derive(Debug, Clone, Copy, PartialEq, Eq, Structural)]
pub enum ApiError {
    /// No token was presented.
    MissingToken,
    /// The token presented is not the service token.
    InvalidToken,
    /// The service has no token configured.
    UnconfiguredToken,
    /// No subscription has the id.
    NotFound { id: i64 },
    /// The subscription is already canceled.
    AlreadyCanceled,
    /// The subscription is already active.
    AlreadyActive,
    /// A submitted value or parameter is invalid.
    Invalid(Invalid),
    /// Storage failed.
    Internal,
    /// The client made too many requests.
    TooManyRequests,
}

/// The HTTP status of each refusal.
pub open spec fn status_code_spec(e: ApiError) -> u16 {
    match e {
        ApiError::MissingToken => 401,
        ApiError::InvalidToken => 401,
        ApiError::UnconfiguredToken => 500,
        ApiError::NotFound { .. } => 404,
        ApiError::AlreadyCanceled => 400,
        ApiError::AlreadyActive => 400,
        ApiError::Invalid(_) => 422,
        ApiError::Internal => 500,
        ApiError::TooManyRequests => 429,
    }
}

/// The message of each invalid value.
pub open spec fn invalid_detail_spec(i: Invalid) -> Seq<char> {
    match i {
        Invalid::Price => "price 必须为正数"@,
        Invalid::Interval => "billing_interval 必须 >= 1"@,
        Invalid::EndingDate => "ending_date 格式应为 YYYY-MM-DD"@,
        Invalid::StatusFilter => "status 参数只能是 Active 或 Canceled"@,
        Invalid::Period => "period 参数只能是 monthly 或 yearly"@,
        Invalid::Days => "days 参数必须在 1 到 365 之间"@,
        Invalid::Body => "请求数据无效"@,
        Invalid::Query => "查询参数无效"@,
        Invalid::Path => "路径参数无效"@,
    }
}

/// The message answered for each refusal.
pub open spec fn detail_spec(e: ApiError) -> Seq<char> {
    match e {
        ApiError::MissingToken => "未提供认证 Token，请在请求头中添加 X-API-Token"@,
        ApiError::InvalidToken => "Token 无效或已过期，请检查 X-API-Token 是否正确"@,
        ApiError::UnconfiguredToken => "API_TOKEN 环境变量未配置，请联系管理员"@,
        ApiError::NotFound { id } => "订阅 ID "@ + decimal_text(id as int) + " 不存在"@,
        ApiError::AlreadyCanceled => "该订阅已处于取消状态"@,
        ApiError::AlreadyActive => "该订阅已处于活跃状态"@,
        ApiError::Invalid(i) => invalid_detail_spec(i),
        ApiError::Internal => "服务器内部错误"@,
        ApiError::TooManyRequests => "请求过于频繁，请稍后再试"@,
    }
}

impl Invalid {
    /// The message of the invalid value.
    pub fn detail(&self) -> (r: &'static str)
        ensures
            r@ == invalid_detail_spec(*self),
    {
        match self {
            Invalid::Price => "price 必须为正数",
            Invalid::Interval => "billing_interval 必须 >= 1",
            Invalid::EndingDate => "ending_date 格式应为 YYYY-MM-DD",
            Invalid::StatusFilter => "status 参数只能是 Active 或 Canceled",
            Invalid::Period => "period 参数只能是 monthly 或 yearly",
            Invalid::Days => "days 参数必须在 1 到 365 之间",
            Invalid::Body => "请求数据无效",
            Invalid::Query => "查询参数无效",
            Invalid::Path => "路径参数无效",
        }
    }
}

impl ApiError {
    /// The HTTP status answered.
    pub fn status_code(&self) -> (r: u16)
        ensures
            r == status_code_spec(*self),
    {
        match self {
            ApiError::MissingToken => 401,
            ApiError::InvalidToken => 401,
            ApiError::UnconfiguredToken => 500,
            ApiError::NotFound { .. } => 404,
            ApiError::AlreadyCanceled => 400,
            ApiError::AlreadyActive => 400,
            ApiError::Invalid(_) => 422,
            ApiError::Internal => 500,
            ApiError::TooManyRequests => 429,
        }
    }

    /// The message answered, under the key `detail`.
    pub fn detail(&self) -> (r: String)
        ensures
            r@ == detail_spec(*self),
    {
        match self {
            ApiError::MissingToken => String::from_str(
                "未提供认证 Token，请在请求头中添加 X-API-Token",
            ),
            ApiError::InvalidToken => String::from_str(
                "Token 无效或已过期，请检查 X-API-Token 是否正确",
            ),
            ApiError::UnconfiguredToken => String::from_str("API_TOKEN 环境变量未配置，请联系管理员"),
            ApiError::NotFound { id } => {
                let mut s = String::from_str("订阅 ID ");
                let digits = i64_to_text(*id);
                s.append(digits.as_str());
                s.append(" 不存在");
                s
            },
            ApiError::AlreadyCanceled => String::from_str("该订阅已处于取消状态"),
            ApiError::AlreadyActive => String::from_str("该订阅已处于活跃状态"),
            ApiError::Invalid(i) => String::from_str(i.detail()),
            ApiError::Internal => String::from_str("服务器内部错误"),
            ApiError::TooManyRequests => String::from_str("请求过于频繁，请稍后再试"),
        }
    }
}

/// Who may reach the subscription routes: nobody while the service has no
/// token, otherwise whoever presents a non-empty token equal to it.
pub open spec fn token_check_spec(api_token: Seq<char>, provided: Option<Seq<char>>) -> Result<
    (),
    ApiError,
> {
    if api_token.len() == 0 {
        Err(ApiError::UnconfiguredToken)
    } else {
        match provided {
            None => Err(ApiError::MissingToken),
            Some(t) => if t.len() == 0 {
                Err(ApiError::MissingToken)
            } else if t == api_token {
                Ok(())
            } else {
                Err(ApiError::InvalidToken)
            },
        }
    }
}

/// Decides whether a request that presents `provided` in `X-API-Token` may
/// reach the subscription routes.
pub fn check_token(api_token: &str, provided: Option<&str>) -> (r: Result<(), ApiError>)
    ensures
        r == token_check_spec(
            api_token@,
            match provided {
                Some(t) => Some(t@),
                None => None,
            },
        ),
{
    if api_token.unicode_len() == 0 {
        return Err(ApiError::UnconfiguredToken);
    }
    match provided {
        None => Err(ApiError::MissingToken),
        Some(t) => {
            if t.unicode_len() == 0 {
                Err(ApiError::MissingToken)
            } else if token_matches(t, api_token) {
                Ok(())
            } else {
                Err(ApiError::InvalidToken)
            }
        },
    }
}

/// Reads the status filter of a listing: absent, `Active` or `Canceled`.
pub fn parse_status_filter(status: Option<&str>) -> (r: Result<Option<SubscriptionStatus>, ApiError>)
    ensures
        r == (match provided_text(status) {
            None => Ok(None),
            Some(s) => if s == "Active"@ {
                Ok(Some(SubscriptionStatus::Active))
            } else if s == "Canceled"@ {
                Ok(Some(SubscriptionStatus::Canceled))
            } else {
                Err(ApiError::Invalid(Invalid::StatusFilter))
            },
        }),
{
    match status {
        None => Ok(None),
        Some(s) => {
            if str_eq(s, "Active") {
                Ok(Some(SubscriptionStatus::Active))
            } else if str_eq(s, "Canceled") {
                Ok(Some(SubscriptionStatus::Canceled))
            } else {
                Err(ApiError::Invalid(Invalid::StatusFilter))
            }
        },
    }
}

/// The text of an optional parameter.
pub open spec fn provided_text(p: Option<&str>) -> Option<Seq<char>> {
    match p {
        Some(s) => Some(s@),
        None => None,
    }
}

/// The period over which costs are summed.
#[derive(Debug, Clone, Copy, PartialEq, Eq, Structural)]
pub enum Period {
    Monthly,
    Yearly,
}

impl Period {
    /// The period's name as requested and answered.
    pub fn as_str(&self) -> (r: &'static str)
        ensures
            r@ == (match self {
                Period::Monthly => "monthly"@,
                Period::Yearly => "yearly"@,
            }),
    {
        match self {
            Period::Monthly => "monthly",
            Period::Yearly => "yearly",
        }
    }
}

/// Reads the statistics period: `monthly` when absent, else `monthly` or
/// `yearly`.
pub fn parse_period(period: Option<&str>) -> (r: Result<Period, ApiError>)
    ensures
        r == (match provided_text(period) {
            None => Ok(Period::Monthly),
            Some(s) => if s == "monthly"@ {
                Ok(Period::Monthly)
            } else if s == "yearly"@ {
                Ok(Period::Yearly)
            } else {
                Err(ApiError::Invalid(Invalid::Period))
            },
        }),
{
    match period {
        None => Ok(Period::Monthly),
        Some(s) => {
            if str_eq(s, "monthly") {
                Ok(Period::Monthly)
            } else if str_eq(s, "yearly") {
                Ok(Period::Yearly)
            } else {
                Err(ApiError::Invalid(Invalid::Period))
            }
        },
    }
}

/// The currency that statistics are converted to: the requested one, unless
/// it is absent or empty, in which case the configured default.
pub fn resolve_base_currency(requested: Option<&str>, default: &str) -> (r: String)
    ensures
        r@ == (match requested {
            Some(c) => if c@.len() > 0 { c@ } else { default@ },
            None => default@,
        }),
{
    match requested {
        Some(c) => {
            if c.unicode_len() > 0 {
                String::from_str(c)
            } else {
                String::from_str(default)
            }
        },
        None => String::from_str(default),
    }
}

/// The last day of the look-ahead of upcoming bills: `days` days after
/// `today`, seven when absent; the look-ahead must be one to 365 days.
pub fn upcoming_end(today: Date, days: Option<u32>) -> (r: Result<Date, ApiError>)
    requires
        today.valid(),
        ({
            let d: int = match days {
                Some(n) => n as int,
                None => 7,
            };
            1 <= d <= 365 ==> today.day_number() + d <= last_day_number()
        }),
    ensures
        ({
            let d: int = match days {
                Some(n) => n as int,
                None => 7,
            };
            if 1 <= d <= 365 {
                r matches Ok(end) && end.valid() && end.day_number() == today.day_number() + d
            } else {
                r == Err::<Date, ApiError>(ApiError::Invalid(Invalid::Days))
            }
        }),
{
    let d = match days {
        Some(n) => n,
        None => 7,
    };
    if d < 1 || d > 365 {
        return Err(ApiError::Invalid(Invalid::Days));
    }
    Ok(today.add_days(d as i64))
}

/// Whether `s` is an ending date as the service accepts it: written exactly
/// `YYYY-MM-DD` and naming a day of the calendar.
pub open spec fn ending_date_ok(s: Seq<char>) -> bool {
    is_canonical_ymd(s) && canonical_date(s) is Some
}

fn check_ending_date(s: &str) -> (r: bool)
    ensures
        r == ending_date_ok(s@),
{
    is_canonical_ymd_text(s) && Date::parse(s).is_some()
}

/// Checks the fields of a new subscription, in this order: the price must
/// be positive (`price_positive`), the billing interval at least one, and the
/// ending date a calendar date written exactly `YYYY-MM-DD`.
pub fn validate_create(price_positive: bool, billing_interval: i64, ending_date: &str) -> (r: Result<
    (),
    ApiError,
>)
    ensures
        r == (if !price_positive {
            Err(ApiError::Invalid(Invalid::Price))
        } else if billing_interval < 1 {
            Err(ApiError::Invalid(Invalid::Interval))
        } else if !ending_date_ok(ending_date@) {
            Err(ApiError::Invalid(Invalid::EndingDate))
        } else {
            Ok(())
        }),
{
    if !price_positive {
        return Err(ApiError::Invalid(Invalid::Price));
    }
    if billing_interval < 1 {
        return Err(ApiError::Invalid(Invalid::Interval));
    }
    if !check_ending_date(ending_date) {
        return Err(ApiError::Invalid(Invalid::EndingDate));
    }
    Ok(())
}

/// Checks the fields a partial update gives, in the order of
/// `validate_create`; fields not given are not checked.
pub fn validate_update(price_positive: Option<bool>, billing_interval: Option<i64>, ending_date: Option<
    &str,
>) -> (r: Result<(), ApiError>)
    ensures
        r == (if price_positive == Some(false) {
            Err(ApiError::Invalid(Invalid::Price))
        } else if billing_interval matches Some(i) && i < 1 {
            Err(ApiError::Invalid(Invalid::Interval))
        } else if ending_date matches Some(d) && !ending_date_ok(d@) {
            Err(ApiError::Invalid(Invalid::EndingDate))
        } else {
            Ok(())
        }),
{
    if let Some(p) = price_positive {
        if !p {
            return Err(ApiError::Invalid(Invalid::Price));
        }
    }
    if let Some(i) = billing_interval {
        if i < 1 {
            return Err(ApiError::Invalid(Invalid::Interval));
        }
    }
    if let Some(d) = ending_date {
        if !check_ending_date(d) {
            return Err(ApiError::Invalid(Invalid::EndingDate));
        }
    }
    Ok(())
}

/// A requested change of status.
#[derive(Debug, Clone, Copy, PartialEq, Eq, Structural)]
pub enum StatusAction {
    Cancel,
    Restore,
}

/// What a status change writes: the new status, and whether automatic
/// renewal is switched off with it.
#[derive(Debug, Clone, Copy, PartialEq, Eq, Structural)]
pub struct StatusWrite {
    pub status: SubscriptionStatus,
    pub clear_auto_renew: bool,
}

/// The outcome of a status change on a subscription in status `current`.
pub open spec fn status_change_spec(current: SubscriptionStatus, action: StatusAction) -> Result<
    StatusWrite,
    ApiError,
> {
    match action {
        StatusAction::Cancel => if current == SubscriptionStatus::Canceled {
            Err(ApiError::AlreadyCanceled)
        } else {
            Ok(StatusWrite { status: SubscriptionStatus::Canceled, clear_auto_renew: true })
        },
        StatusAction::Restore => if current == SubscriptionStatus::Active {
            Err(ApiError::AlreadyActive)
        } else {
            Ok(StatusWrite { status: SubscriptionStatus::Active, clear_auto_renew: false })
        },
    }
}

/// Decides a status change: canceling an active subscription cancels it and
/// switches off automatic renewal; restoring a canceled one makes it active;
/// a subscription already in the requested status is refused.
pub fn status_change(current: SubscriptionStatus, action: StatusAction) -> (r: Result<
    StatusWrite,
    ApiError,
>)
    ensures
        r == status_change_spec(current, action),
{
    match action {
        StatusAction::Cancel => {
            if current == SubscriptionStatus::Canceled {
                Err(ApiError::AlreadyCanceled)
            } else {
                Ok(StatusWrite { status: SubscriptionStatus::Canceled, clear_auto_renew: true })
            }
        },
        StatusAction::Restore => {
            if current == SubscriptionStatus::Active {
                Err(ApiError::AlreadyActive)
            } else {
                Ok(StatusWrite { status: SubscriptionStatus::Active, clear_auto_renew: false })
            }
        },
    }
}


/// Canceling an active subscription and then restoring it makes it active
/// again, with automatic renewal switched off by the cancellation.
pub proof fn lemma_cancel_then_restore()
    ensures
        status_change_spec(SubscriptionStatus::Active, StatusAction::Cancel) == Ok::<
            StatusWrite,
            ApiError,
        >(StatusWrite { status: SubscriptionStatus::Canceled, clear_auto_renew: true }),
        status_change_spec(SubscriptionStatus::Canceled, StatusAction::Restore) == Ok::<
            StatusWrite,
            ApiError,
        >(StatusWrite { status: SubscriptionStatus::Active, clear_auto_renew: false }),
{
}

/// A status change never leaves a subscription in the status it refused to
/// leave: a granted change always lands on the requested status.
pub proof fn lemma_status_change_lands(current: SubscriptionStatus, action: StatusAction)
    ensures
        status_change_spec(current, action) matches Ok(w) ==> w.status == (match action {
            StatusAction::Cancel => SubscriptionStatus::Canceled,
            StatusAction::Restore => SubscriptionStatus::Active,
        }) && w.status != current,
{
}

/// A request reaches the subscription routes exactly when the service has a
/// token and the request presents that same token.
pub proof fn lemma_admitted_iff_token(api_token: Seq<char>, provided: Option<Seq<char>>)
    ensures
        token_check_spec(api_token, provided) is Ok <==> (api_token.len() > 0 && provided
            == Some(api_token)),
{
}

/// A refused status change (the subscription is already in the requested
/// status) answers 400 Bad Request, in both directions.
pub proof fn lemma_status_refusal_is_bad_request(current: SubscriptionStatus, action: StatusAction)
    ensures
        status_change_spec(current, action) matches Err(e) ==> status_code_spec(e) == 400,
        status_change_spec(current, action) is Err <==> (match action {
            StatusAction::Cancel => current == SubscriptionStatus::Canceled,
            StatusAction::Restore => current == SubscriptionStatus::Active,
        }),
{
}

/// Only a missing subscription answers 404, and only a token refusal
/// answers 401.
pub proof fn lemma_not_found_and_unauthorized(e: ApiError)
    ensures
        status_code_spec(e) == 404 <==> e is NotFound,
        status_code_spec(e) == 401 <==> (e == ApiError::MissingToken || e == ApiError::InvalidToken),
{
}

/// Every refusal answers a client or server error status.
pub proof fn lemma_refusals_are_errors(e: ApiError)
    ensures
        400 <= status_code_spec(e) < 600,
{
}

/// The query parameters of a listing.
pub struct ListParams {
    /// A text the subscription's name must contain.
    pub name: Option<String>,
    /// `Active` or `Canceled`.
    pub status: Option<String>,
}

/// The optional text of an optional string.
pub open spec fn opt_text(p: Option<String>) -> Option<Seq<char>> {
    match p {
        Some(s) => Some(s@),
        None => None,
    }
}

fn as_opt_str(p: &Option<String>) -> (r: Option<&str>)
    ensures
        provided_text(r) == opt_text(*p),
{
    match p {
        Some(s) => Some(s.as_str()),
        None => None,
    }
}

impl ListParams {
    /// The status the listing is restricted to; see `parse_status_filter`.
    pub fn status_filter(&self) -> (r: Result<Option<SubscriptionStatus>, ApiError>)
        ensures
            r == (match opt_text(self.status) {
                None => Ok(None),
                Some(s) => if s == "Active"@ {
                    Ok(Some(SubscriptionStatus::Active))
                } else if s == "Canceled"@ {
                    Ok(Some(SubscriptionStatus::Canceled))
                } else {
                    Err(ApiError::Invalid(Invalid::StatusFilter))
                },
            }),
    {
        parse_status_filter(as_opt_str(&self.status))
    }
}

/// The query parameters of a statistics request.
pub struct StatsParams {
    /// `monthly` or `yearly`; `monthly` when absent.
    pub period: Option<String>,
    /// The currency to convert to; the configured one when absent or empty.
    pub base_currency: Option<String>,
}

impl StatsParams {
    /// The period requested; see `parse_period`.
    pub fn period(&self) -> (r: Result<Period, ApiError>)
        ensures
            r == (match opt_text(self.period) {
                None => Ok(Period::Monthly),
                Some(s) => if s == "monthly"@ {
                    Ok(Period::Monthly)
                } else if s == "yearly"@ {
                    Ok(Period::Yearly)
                } else {
                    Err(ApiError::Invalid(Invalid::Period))
                },
            }),
    {
        parse_period(as_opt_str(&self.period))
    }

    /// The currency to convert to; see `resolve_base_currency`.
    pub fn base(&self, default: &str) -> (r: String)
        ensures
            r@ == (match opt_text(self.base_currency) {
                Some(c) => if c.len() > 0 { c } else { default@ },
                None => default@,
            }),
    {
        resolve_base_currency(as_opt_str(&self.base_currency), default)
    }
}

/// The query parameters of an upcoming-bills request.
pub struct UpcomingParams {
    /// The look-ahead in days: one to 365, seven when absent.
    pub days: Option<u32>,
}

impl UpcomingParams {
    /// The last day of the look-ahead; see `upcoming_end`.
    pub fn end(&self, today: Date) -> (r: Result<Date, ApiError>)
        requires
            today.valid(),
            ({
                let d: int = match self.days {
                    Some(n) => n as int,
                    None => 7,
                };
                1 <= d <= 365 ==> today.day_number() + d <= last_day_number()
            }),
        ensures
            ({
                let d: int = match self.days {
                    Some(n) => n as int,
                    None => 7,
                };
                if 1 <= d <= 365 {
                    r matches Ok(end) && end.valid() && end.day_number() == today.day_number() + d
                } else {
                    r == Err::<Date, ApiError>(ApiError::Invalid(Invalid::Days))
                }
            }),
    {
        upcoming_end(today, self.days)
    }
}

} // verus!
