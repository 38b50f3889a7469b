//! The two enumerations that every subscription record carries, and their
//! names in the database.

use vstd::prelude::*;

use crate::text::str_eq;

verus! {

/// How often a subscription bills.
#[derive(Debug, Clone, Copy, PartialEq, Eq, Structural)]
pub enum BillingCycle {
    Monthly,
    Yearly,
    Weekly,
}

/// Whether a subscription is running or has been canceled.
#[derive(Debug, Clone, Copy, PartialEq, Eq, Structural)]
pub enum SubscriptionStatus {
    Active,
    Canceled,
}

/// The name under which a billing cycle is stored.
pub open spec fn cycle_db_name(c: BillingCycle) -> Seq<char> {
    match c {
        BillingCycle::Monthly => "MONTHLY"@,
        BillingCycle::Yearly => "YEARLY"@,
        BillingCycle::Weekly => "WEEKLY"@,
    }
}

/// The name under which a status is stored.
pub open spec fn status_db_name(s: SubscriptionStatus) -> Seq<char> {
    match s {
        SubscriptionStatus::Active => "ACTIVE"@,
        SubscriptionStatus::Canceled => "CANCELED"@,
    }
}

/// The cycle stored under a name, if any.
pub open spec fn cycle_from_name(s: Seq<char>) -> Option<BillingCycle> {
    if s == "MONTHLY"@ {
        Some(BillingCycle::Monthly)
    } else if s == "YEARLY"@ {
        Some(BillingCycle::Yearly)
    } else if s == "WEEKLY"@ {
        Some(BillingCycle::Weekly)
    } else {
        None
    }
}

/// The status stored under a name, if any.
pub open spec fn status_from_name(s: Seq<char>) -> Option<SubscriptionStatus> {
    if s == "ACTIVE"@ {
        Some(SubscriptionStatus::Active)
    } else if s == "CANCELED"@ {
        Some(SubscriptionStatus::Canceled)
    } else {
        None
    }
}

/// Reading a stored name back gives the value it was stored for.
pub proof fn lemma_db_names_round_trip(c: BillingCycle, s: SubscriptionStatus)
    ensures
        cycle_from_name(cycle_db_name(c)) == Some(c),
        status_from_name(status_db_name(s)) == Some(s),
{
    reveal_strlit("MONTHLY");
    reveal_strlit("YEARLY");
    reveal_strlit("WEEKLY");
    reveal_strlit("ACTIVE");
    reveal_strlit("CANCELED");
    assert("MONTHLY"@.len() == 7);
    assert("YEARLY"@.len() == 6);
    assert("WEEKLY"@ != "YEARLY"@) by {
        assert("WEEKLY"@[0] != "YEARLY"@[0]);
    }
    assert("ACTIVE"@.len() == 6);
    assert("CANCELED"@.len() == 8);
}

impl Default for BillingCycle {
    fn default() -> (r: Self)
        ensures
            r == BillingCycle::Monthly,
    {
        BillingCycle::Monthly
    }
}

impl Default for SubscriptionStatus {
    fn default() -> (r: Self)
        ensures
            r == SubscriptionStatus::Active,
    {
        SubscriptionStatus::Active
    }
}

impl BillingCycle {
    /// The stored name of the cycle: its variant name in capitals.
    pub fn db_value(self) -> (r: &'static str)
        ensures
            r@ == cycle_db_name(self),
    {
        match self {
            BillingCycle::Monthly => "MONTHLY",
            BillingCycle::Yearly => "YEARLY",
            BillingCycle::Weekly => "WEEKLY",
        }
    }

    /// The cycle stored under `s`, if `s` is one of the stored names.
    pub fn from_db(s: &str) -> (r: Option<Self>)
        ensures
            r == cycle_from_name(s@),
    {
        if str_eq(s, "MONTHLY") {
            Some(BillingCycle::Monthly)
        } else if str_eq(s, "YEARLY") {
            Some(BillingCycle::Yearly)
        } else if str_eq(s, "WEEKLY") {
            Some(BillingCycle::Weekly)
        } else {
            None
        }
    }
}

impl SubscriptionStatus {
    /// The stored name of the status: its variant name in capitals.
    pub fn db_value(self) -> (r: &'static str)
        ensures
            r@ == status_db_name(self),
    {
        match self {
            SubscriptionStatus::Active => "ACTIVE",
            SubscriptionStatus::Canceled => "CANCELED",
        }
    }

    /// The status stored under `s`, if `s` is one of the stored names.
    pub fn from_db(s: &str) -> (r: Option<Self>)
        ensures
            r == status_from_name(s@),
    {
        if str_eq(s, "ACTIVE") {
            Some(SubscriptionStatus::Active)
        } else if str_eq(s, "CANCELED") {
            Some(SubscriptionStatus::Canceled)
        } else {
            None
        }
    }
}


/// The currency of a new subscription that names none.
pub fn default_currency() -> (r: String)
    ensures
        r@ == "CNY"@,
{
    String::from_str("CNY")
}

/// The category of a new subscription that names none.
pub fn default_category() -> (r: String)
    ensures
        r@ == "其他"@,
{
    String::from_str("其他")
}

/// The billing interval of a new subscription that names none.
pub fn default_interval() -> (r: i64)
    ensures
        r == 1,
{
    1
}

} // verus!
