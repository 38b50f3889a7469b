use sub_manager_lite::db::{
    db_path_from_url, like_pattern, list_sql, update_sql, ColumnDefect, UpdateFields,
};

#[test]
fn database_urls_name_sqlite_paths() {
    assert_eq!(db_path_from_url("sqlite://"), ":memory:");
    assert_eq!(db_path_from_url("sqlite:///./sub_manager.db"), "./sub_manager.db");
    assert_eq!(db_path_from_url("sqlite:////data/sub.db"), "/data/sub.db");
    assert_eq!(db_path_from_url("sqlite://rel.db"), "rel.db");
    assert_eq!(db_path_from_url("plain.db"), "plain.db");
    assert_eq!(db_path_from_url("sqlite:/x.db"), "sqlite:/x.db");
    assert_eq!(db_path_from_url("sqlite:///数据.db"), "数据.db");
}

fn none_set() -> UpdateFields {
    UpdateFields {
        name: false,
        price: false,
        currency: false,
        billing_cycle: false,
        billing_interval: false,
        ending_date: false,
        category: false,
        status: false,
        auto_renew: false,
    }
}

#[test]
fn update_statement_lists_given_fields_in_table_order() {
    assert_eq!(update_sql(none_set()), None);
    let mut f = none_set();
    f.price = true;
    assert_eq!(
        update_sql(f).as_deref(),
        Some("UPDATE subscription SET price = ? WHERE id = ?")
    );
    f.name = true;
    f.auto_renew = true;
    assert_eq!(
        update_sql(f).as_deref(),
        Some("UPDATE subscription SET name = ?, price = ?, auto_renew = ? WHERE id = ?")
    );
}

#[test]
fn listing_query_has_the_requested_filters() {
    let cols = "id, name, price, currency, billing_cycle, billing_interval, ending_date, category, status, auto_renew";
    assert_eq!(
        list_sql(false, false),
        format!("SELECT {cols} FROM subscription ORDER BY ending_date ASC")
    );
    assert_eq!(
        list_sql(true, true),
        format!("SELECT {cols} FROM subscription WHERE name LIKE ? ESCAPE '\\' AND status = ? ORDER BY ending_date ASC")
    );
    assert_eq!(
        list_sql(false, true),
        format!("SELECT {cols} FROM subscription WHERE status = ? ORDER BY ending_date ASC")
    );
    assert_eq!(like_pattern("Net"), "%Net%");
}

#[test]
fn column_defects_name_their_column() {
    assert_eq!(ColumnDefect::BillingCycle.column(), 4);
    assert_eq!(ColumnDefect::Status.column(), 8);
}
