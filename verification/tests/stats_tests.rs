use sub_manager_lite::stats::{category_key, currency_key, plan_rate_fetch, RatePlan};

fn strings(v: &[&str]) -> Vec<String> {
    v.iter().map(|s| s.to_string()).collect()
}

#[test]
fn rate_plan_asks_only_for_foreign_currencies() {
    assert!(matches!(plan_rate_fetch(&strings(&[]), "CNY"), RatePlan::NoCurrencies));
    assert!(matches!(plan_rate_fetch(&strings(&["CNY"]), "CNY"), RatePlan::BaseOnly));
    match plan_rate_fetch(&strings(&["CNY", "EUR", "USD"]), "CNY") {
        RatePlan::Fetch { need, quotes } => {
            assert_eq!(need, strings(&["EUR", "USD"]));
            assert_eq!(quotes, "EUR,USD,CNY");
        }
        _ => panic!("expected a fetch"),
    }
    match plan_rate_fetch(&strings(&["USD"]), "EUR") {
        RatePlan::Fetch { need, quotes } => {
            assert_eq!(need, strings(&["USD"]));
            assert_eq!(quotes, "USD,EUR");
        }
        _ => panic!("expected a fetch"),
    }
}

#[test]
fn costs_without_currency_or_category_get_defaults() {
    assert_eq!(currency_key(""), "CNY");
    assert_eq!(currency_key("USD"), "USD");
    assert_eq!(category_key(""), "其他");
    assert_eq!(category_key("Video"), "Video");
}
