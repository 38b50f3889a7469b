use sub_manager_lite::models::{
    default_category, default_currency, default_interval, BillingCycle, SubscriptionStatus,
};

#[test]
fn stored_names_round_trip() {
    for c in [BillingCycle::Monthly, BillingCycle::Yearly, BillingCycle::Weekly] {
        assert_eq!(BillingCycle::from_db(c.db_value()), Some(c));
    }
    for s in [SubscriptionStatus::Active, SubscriptionStatus::Canceled] {
        assert_eq!(SubscriptionStatus::from_db(s.db_value()), Some(s));
    }
    assert_eq!(BillingCycle::Monthly.db_value(), "MONTHLY");
    assert_eq!(BillingCycle::Yearly.db_value(), "YEARLY");
    assert_eq!(BillingCycle::Weekly.db_value(), "WEEKLY");
    assert_eq!(SubscriptionStatus::Active.db_value(), "ACTIVE");
    assert_eq!(SubscriptionStatus::Canceled.db_value(), "CANCELED");
}

#[test]
fn unknown_stored_names_are_refused() {
    assert_eq!(BillingCycle::from_db("Monthly"), None);
    assert_eq!(BillingCycle::from_db("DAILY"), None);
    assert_eq!(BillingCycle::from_db(""), None);
    assert_eq!(SubscriptionStatus::from_db("Active"), None);
    assert_eq!(SubscriptionStatus::from_db("PAUSED"), None);
}

#[test]
fn defaults_of_a_new_subscription() {
    assert_eq!(default_currency(), "CNY");
    assert_eq!(default_category(), "其他");
    assert_eq!(default_interval(), 1);
    assert_eq!(BillingCycle::default(), BillingCycle::Monthly);
    assert_eq!(SubscriptionStatus::default(), SubscriptionStatus::Active);
}
