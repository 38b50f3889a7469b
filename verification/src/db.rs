//! The storage side of subscriptions that is not input or output: where the
//! database lives, how stored columns read back, and the text of the
//! statements whose shape depends on the request.

use vstd::prelude::*;

use crate::text::str_eq;

verus! {

/// Where the database of a `DATABASE_URL` lives. A `sqlite://` URL names a
/// file after the prefix, one leading `/` dropped; with nothing after the
/// prefix it names an in-memory database. Any other text is a path as it is.
pub open spec fn db_path_spec(url: Seq<char>) -> Seq<char> {
    if url.len() >= 9 && url.subrange(0, 9) == "sqlite://"@ {
        let rest = url.subrange(9, url.len() as int);
        if rest.len() == 0 {
            ":memory:"@
        } else if rest[0] == '/' {
            rest.drop_first()
        } else {
            rest
        }
    } else {
        url
    }
}

/// The SQLite path named by a `DATABASE_URL` in SQLAlchemy style
/// (`sqlite:///relative.db`, `sqlite:////absolute.db`, `sqlite://`).
pub fn db_path_from_url(url: &str) -> (r: String)
    ensures
        r@ == db_path_spec(url@),
{
    let n = url.unicode_len();
    if n >= 9 && str_eq(url.substring_char(0, 9), "sqlite://") {
        let rest = url.substring_char(9, n);
        let m = n - 9;
        if m == 0 {
            return String::from_str(":memory:");
        }
        if rest.get_char(0) == '/' {
            let tail = rest.substring_char(1, m);
            proof {
                assert(tail@ == rest@.drop_first());
            }
            return String::from_str(tail);
        }
        return String::from_str(rest);
    }
    String::from_str(url)
}

/// A stored column that does not read back as a value of its type.
#[derive(Debug, Clone, Copy, PartialEq, Eq, Structural)]
pub enum ColumnDefect {
    /// `billing_cycle` holds no cycle name.
    BillingCycle,
    /// `status` holds no status name.
    Status,
}

impl ColumnDefect {
    /// The position of the column in the selected row.
    pub fn column(&self) -> (r: usize)
        ensures
            r == (match self {
                ColumnDefect::BillingCycle => 4usize,
                ColumnDefect::Status => 8usize,
            }),
    {
        match self {
            ColumnDefect::BillingCycle => 4,
            ColumnDefect::Status => 8,
        }
    }
}

/// Which fields a partial update sets.
#[derive(Debug, Clone, Copy, PartialEq, Eq, Structural)]
pub struct UpdateFields {
    pub name: bool,
    pub price: bool,
    pub currency: bool,
    pub billing_cycle: bool,
    pub billing_interval: bool,
    pub ending_date: bool,
    pub category: bool,
    pub status: bool,
    pub auto_renew: bool,
}

/// The columns a partial update sets, in table order.
pub open spec fn update_columns(f: UpdateFields) -> Seq<Seq<char>> {
    let s0: Seq<Seq<char>> = Seq::empty();
    let s1 = if f.name { s0.push("name"@) } else { s0 };
    let s2 = if f.price { s1.push("price"@) } else { s1 };
    let s3 = if f.currency { s2.push("currency"@) } else { s2 };
    let s4 = if f.billing_cycle { s3.push("billing_cycle"@) } else { s3 };
    let s5 = if f.billing_interval { s4.push("billing_interval"@) } else { s4 };
    let s6 = if f.ending_date { s5.push("ending_date"@) } else { s5 };
    let s7 = if f.category { s6.push("category"@) } else { s6 };
    let s8 = if f.status { s7.push("status"@) } else { s7 };
    if f.auto_renew { s8.push("auto_renew"@) } else { s8 }
}

/// The columns of the subscription table that an update may set, in table
/// order: the order in which an update binds its values.
pub open spec fn table_columns() -> Seq<Seq<char>> {
    seq![
        "name"@,
        "price"@,
        "currency"@,
        "billing_cycle"@,
        "billing_interval"@,
        "ending_date"@,
        "category"@,
        "status"@,
        "auto_renew"@,
    ]
}

/// Which of the table's columns an update sets, in table order.
pub open spec fn field_flags(f: UpdateFields) -> Seq<bool> {
    seq![
        f.name,
        f.price,
        f.currency,
        f.billing_cycle,
        f.billing_interval,
        f.ending_date,
        f.category,
        f.status,
        f.auto_renew,
    ]
}

/// The items whose flag is set, in their order.
pub open spec fn selected<T>(items: Seq<T>, flags: Seq<bool>) -> Seq<T>
    decreases items.len(),
{
    if items.len() == 0 || flags.len() == 0 {
        Seq::empty()
    } else {
        let rest = selected(items.drop_last(), flags.drop_last());
        if flags.last() {
            rest.push(items.last())
        } else {
            rest
        }
    }
}

/// The columns an update sets are exactly the table's columns whose field is
/// given, kept in table order: the order in which the values are bound.
pub proof fn lemma_update_columns_in_table_order(f: UpdateFields)
    ensures
        update_columns(f) == selected(table_columns(), field_flags(f)),
{
    let c = table_columns();
    let g = field_flags(f);
    reveal_with_fuel(selected, 10);
    assert(c.drop_last() =~= seq!["name"@, "price"@, "currency"@, "billing_cycle"@, "billing_interval"@, "ending_date"@, "category"@, "status"@]);
    assert(c.drop_last().drop_last() =~= seq!["name"@, "price"@, "currency"@, "billing_cycle"@, "billing_interval"@, "ending_date"@, "category"@]);
    assert(c.drop_last().drop_last().drop_last() =~= seq!["name"@, "price"@, "currency"@, "billing_cycle"@, "billing_interval"@, "ending_date"@]);
    assert(c.drop_last().drop_last().drop_last().drop_last() =~= seq!["name"@, "price"@, "currency"@, "billing_cycle"@, "billing_interval"@]);
    assert(c.drop_last().drop_last().drop_last().drop_last().drop_last() =~= seq!["name"@, "price"@, "currency"@, "billing_cycle"@]);
    assert(c.drop_last().drop_last().drop_last().drop_last().drop_last().drop_last() =~= seq!["name"@, "price"@, "currency"@]);
    assert(c.drop_last().drop_last().drop_last().drop_last().drop_last().drop_last().drop_last() =~= seq!["name"@, "price"@]);
    assert(c.drop_last().drop_last().drop_last().drop_last().drop_last().drop_last().drop_last().drop_last() =~= seq!["name"@]);
    assert(g.drop_last() =~= seq![f.name, f.price, f.currency, f.billing_cycle, f.billing_interval, f.ending_date, f.category, f.status]);
    assert(g.drop_last().drop_last() =~= seq![f.name, f.price, f.currency, f.billing_cycle, f.billing_interval, f.ending_date, f.category]);
    assert(g.drop_last().drop_last().drop_last() =~= seq![f.name, f.price, f.currency, f.billing_cycle, f.billing_interval, f.ending_date]);
    assert(g.drop_last().drop_last().drop_last().drop_last() =~= seq![f.name, f.price, f.currency, f.billing_cycle, f.billing_interval]);
    assert(g.drop_last().drop_last().drop_last().drop_last().drop_last() =~= seq![f.name, f.price, f.currency, f.billing_cycle]);
    assert(g.drop_last().drop_last().drop_last().drop_last().drop_last().drop_last() =~= seq![f.name, f.price, f.currency]);
    assert(g.drop_last().drop_last().drop_last().drop_last().drop_last().drop_last().drop_last() =~= seq![f.name, f.price]);
    assert(g.drop_last().drop_last().drop_last().drop_last().drop_last().drop_last().drop_last().drop_last() =~= seq![f.name]);
    assert(update_columns(f) =~= selected(c, g));
}

/// `col = ?` for each column, separated by `, `.
pub open spec fn set_clause(cols: Seq<Seq<char>>) -> Seq<char>
    decreases cols.len(),
{
    if cols.len() == 0 {
        Seq::empty()
    } else if cols.len() == 1 {
        cols[0] + " = ?"@
    } else {
        set_clause(cols.drop_last()) + ", "@ + cols.last() + " = ?"@
    }
}

/// The update statement for the fields `f` sets, with one parameter per
/// field and the id last; none when no field is set.
pub open spec fn update_sql_spec(f: UpdateFields) -> Option<Seq<char>> {
    let cols = update_columns(f);
    if cols.len() == 0 {
        None
    } else {
        Some("UPDATE subscription SET "@ + set_clause(cols) + " WHERE id = ?"@)
    }
}

fn append_column(sql: &mut String, first: &mut bool, col: &str, cols: Ghost<Seq<Seq<char>>>)
    requires
        *old(first) == (cols@.len() == 0),
        old(sql)@ == set_clause(cols@),
    ensures
        *final(first) == false,
        final(sql)@ == set_clause(cols@.push(col@)),
{
    proof {
        assert(cols@.push(col@).drop_last() =~= cols@);
    }
    if !*first {
        sql.append(", ");
    }
    sql.append(col);
    sql.append(" = ?");
    *first = false;
}

/// Builds the update statement for a partial update: `name = ?` and so on
/// for each field set, in table order; `None` when no field is set.
pub fn update_sql(f: UpdateFields) -> (r: Option<String>)
    ensures
        match update_sql_spec(f) {
            None => r is None,
            Some(s) => r matches Some(t) && t@ == s,
        },
{
    let mut clause = String::new();
    let mut first = true;
    let ghost cols: Seq<Seq<char>> = Seq::empty();
    if f.name {
        append_column(&mut clause, &mut first, "name", Ghost(cols));
        proof { cols = cols.push("name"@); }
    }
    if f.price {
        append_column(&mut clause, &mut first, "price", Ghost(cols));
        proof { cols = cols.push("price"@); }
    }
    if f.currency {
        append_column(&mut clause, &mut first, "currency", Ghost(cols));
        proof { cols = cols.push("currency"@); }
    }
    if f.billing_cycle {
        append_column(&mut clause, &mut first, "billing_cycle", Ghost(cols));
        proof { cols = cols.push("billing_cycle"@); }
    }
    if f.billing_interval {
        append_column(&mut clause, &mut first, "billing_interval", Ghost(cols));
        proof { cols = cols.push("billing_interval"@); }
    }
    if f.ending_date {
        append_column(&mut clause, &mut first, "ending_date", Ghost(cols));
        proof { cols = cols.push("ending_date"@); }
    }
    if f.category {
        append_column(&mut clause, &mut first, "category", Ghost(cols));
        proof { cols = cols.push("category"@); }
    }
    if f.status {
        append_column(&mut clause, &mut first, "status", Ghost(cols));
        proof { cols = cols.push("status"@); }
    }
    if f.auto_renew {
        append_column(&mut clause, &mut first, "auto_renew", Ghost(cols));
        proof { cols = cols.push("auto_renew"@); }
    }
    proof {
        assert(cols == update_columns(f));
    }
    if first {
        return None;
    }
    let mut sql = String::from_str("UPDATE subscription SET ");
    sql.append(clause.as_str());
    sql.append(" WHERE id = ?");
    Some(sql)
}

/// The columns selected for a subscription row, in the order rows are read.
pub open spec fn select_columns() -> Seq<char> {
    "id, name, price, currency, billing_cycle, billing_interval, ending_date, category, status, auto_renew"@
}

/// The listing query: every subscription, or those whose name contains a
/// text and those with a status, by ending date.
pub open spec fn list_sql_spec(by_name: bool, by_status: bool) -> Seq<char> {
    let head = "SELECT "@ + select_columns() + " FROM subscription"@;
    let filter = if by_name && by_status {
        " WHERE name LIKE ? ESCAPE '\\' AND status = ?"@
    } else if by_name {
        " WHERE name LIKE ? ESCAPE '\\'"@
    } else if by_status {
        " WHERE status = ?"@
    } else {
        Seq::empty()
    };
    head + filter + " ORDER BY ending_date ASC"@
}

/// The filter on names: a `LIKE` match, with `\\` escaping, against the
/// pattern bound for it (`like_pattern`).
pub open spec fn name_filter_clause() -> Seq<char> {
    "name LIKE ? ESCAPE '\\'"@
}

/// The filter on status: equality with the stored name bound for it.
pub open spec fn status_filter_clause() -> Seq<char> {
    "status = ?"@
}

/// The filters of a listing query: the name filter exactly when a name is
/// given, the status filter exactly when a status is given, joined by `AND`;
/// the name filter is the same clause whether or not a status is given.
pub proof fn lemma_list_sql_filters(by_name: bool, by_status: bool)
    ensures
        list_sql_spec(by_name, by_status) == "SELECT "@ + select_columns() + " FROM subscription"@
            + (if by_name && by_status {
            " WHERE "@ + name_filter_clause() + " AND "@ + status_filter_clause()
        } else if by_name {
            " WHERE "@ + name_filter_clause()
        } else if by_status {
            " WHERE "@ + status_filter_clause()
        } else {
            Seq::empty()
        }) + " ORDER BY ending_date ASC"@,
{
    reveal_strlit(" WHERE name LIKE ? ESCAPE '\\' AND status = ?");
    reveal_strlit(" WHERE name LIKE ? ESCAPE '\\'");
    reveal_strlit(" WHERE status = ?");
    reveal_strlit(" WHERE ");
    reveal_strlit(" AND ");
    reveal_strlit("name LIKE ? ESCAPE '\\'");
    reveal_strlit("status = ?");
    assert(" WHERE name LIKE ? ESCAPE '\\' AND status = ?"@ =~= " WHERE "@ + name_filter_clause()
        + " AND "@ + status_filter_clause());
    assert(" WHERE name LIKE ? ESCAPE '\\'"@ =~= " WHERE "@ + name_filter_clause());
    assert(" WHERE status = ?"@ =~= " WHERE "@ + status_filter_clause());
}

/// Builds the listing query for the filters given: a name that must occur
/// in the subscription's name, and a status.
pub fn list_sql(by_name: bool, by_status: bool) -> (r: String)
    ensures
        r@ == list_sql_spec(by_name, by_status),
{
    let mut sql = String::from_str("SELECT ");
    sql.append("id, name, price, currency, billing_cycle, billing_interval, ending_date, category, status, auto_renew");
    sql.append(" FROM subscription");
    if by_name && by_status {
        sql.append(" WHERE name LIKE ? ESCAPE '\\' AND status = ?");
    } else if by_name {
        sql.append(" WHERE name LIKE ? ESCAPE '\\'");
    } else if by_status {
        sql.append(" WHERE status = ?");
    }
    sql.append(" ORDER BY ending_date ASC");
    proof {
        if !by_name && !by_status {
            assert(sql@ =~= list_sql_spec(by_name, by_status));
        }
    }
    sql
}

/// The `LIKE` pattern that matches names containing `name`.
pub fn like_pattern(name: &str) -> (r: String)
    ensures
        r@ == "%"@ + name@ + "%"@,
{
    let mut p = String::from_str("%");
    p.append(name);
    p.append("%");
    p
}

} // verus!
