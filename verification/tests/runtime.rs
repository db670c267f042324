use cherry::builder::{QueryBuilder, StatementKind};
use cherry::connection::{self, PoolConfig, Registry};
use cherry::error::DbError;
use cherry::model::{apply_patch, delete_outcome, follow_up_outcome, Value};
use cherry::statement::{Delete, Insert, InsertUpdate, Select, Update};

fn count_placeholders(sql: &str) -> usize {
    sql.chars().filter(|c| *c == '?').count()
}

#[test]
fn select_compiles_with_star_and_single_where() {
    let mut s = Select::new(1, String::from("books"));
    s.query.and_where_eq("title", Value::Text(String::from("x")));
    let sql = s.build_sql().unwrap();
    assert_eq!(sql.as_str(), "SELECT * FROM books WHERE title = ?;");
    assert_eq!(count_placeholders(sql.as_str()), s.query.arguments.len());
}

#[test]
fn select_parenthesizes_several_conditions() {
    let mut s = Select::new(1, String::from("books"));
    s.query.and_where_eq("title", Value::Text(String::from("x")));
    s.query.and_where_gt("price", Value::IntVal(100));
    let sql = s.build_sql().unwrap();
    assert_eq!(sql.as_str(), "SELECT * FROM books WHERE (title = ?) AND (price > ?);");
    assert_eq!(count_placeholders(sql.as_str()), 2);
    assert_eq!(s.query.arguments.len(), 2);
}

#[test]
fn or_where_attaches_to_the_last_condition() {
    let mut s = Select::new(1, String::from("books"));
    s.query.and_where_lt("price", Value::IntVal(10));
    s.query.or_where_gt("price", Value::IntVal(1000));
    let sql = s.build_sql().unwrap();
    assert_eq!(sql.as_str(), "SELECT * FROM books WHERE price < ? OR price > ?;");
}

#[test]
fn placeholders_match_arguments_across_predicates() {
    let mut s = Select::new(1, String::from("books"));
    s.query.and_where_ne("a", Value::IntVal(1));
    s.query.and_where_ge("b", Value::IntVal(2));
    s.query.and_where_le("c", Value::IntVal(3));
    s.query.and_where_between("d", Value::IntVal(4), Value::IntVal(5));
    s.query.and_where_in(
        "e",
        &vec![Value::IntVal(6), Value::IntVal(7), Value::IntVal(8)],
    );
    s.query.and_where_is_null("f");
    s.query.and_where_is_not_null("g");
    let sql = s.build_sql().unwrap();
    assert_eq!(count_placeholders(sql.as_str()), 8);
    assert_eq!(s.query.arguments.len(), 8);
}

#[test]
fn in_list_spells_out_its_placeholders() {
    let mut s = Select::new(1, String::from("books"));
    s.query.and_where_not_in("id", &vec![Value::IntVal(1), Value::IntVal(2)]);
    let sql = s.build_sql().unwrap();
    assert_eq!(sql.as_str(), "SELECT * FROM books WHERE id NOT IN (?, ?);");
}

#[test]
fn like_inlines_the_escaped_mask() {
    let mut s = Select::new(1, String::from("books"));
    s.query.and_where_like("author", "O'Brien");
    let sql = s.build_sql().unwrap();
    assert_eq!(sql.as_str(), "SELECT * FROM books WHERE author LIKE 'O''Brien';");
    assert_eq!(s.query.arguments.len(), 0);
    let mut s2 = Select::new(1, String::from("books"));
    s2.query.and_where_like_any("title", "Potter");
    assert_eq!(
        s2.build_sql().unwrap().as_str(),
        "SELECT * FROM books WHERE title LIKE '%Potter%';"
    );
    let mut s3 = Select::new(1, String::from("books"));
    s3.query.and_where_not_like("title", "draft");
    assert_eq!(
        s3.build_sql().unwrap().as_str(),
        "SELECT * FROM books WHERE title NOT LIKE 'draft';"
    );
}

#[test]
fn between_options_degrades_to_one_sided_bounds() {
    let mut s = Select::new(1, String::from("books"));
    s.query.and_where_between_options("price", Some(Value::IntVal(1)), None);
    assert_eq!(s.build_sql().unwrap().as_str(), "SELECT * FROM books WHERE price >= ?;");
    let mut s2 = Select::new(1, String::from("books"));
    s2.query.and_where_between_options("price", None, Some(Value::IntVal(9)));
    assert_eq!(s2.build_sql().unwrap().as_str(), "SELECT * FROM books WHERE price <= ?;");
    let mut s3 = Select::new(1, String::from("books"));
    s3.query.and_where_between_options("price", None::<Value>.map(|v| v), None::<Value>.map(|v| v));
    assert_eq!(s3.build_sql().unwrap().as_str(), "SELECT * FROM books;");
}

#[test]
fn select_orders_groups_and_pages() {
    let s = Select::new(1, String::from("books"))
        .field("category")
        .order_desc("price")
        .order_asc("title")
        .limit(10)
        .offset(20);
    let mut s = s;
    s.query.group_by("category");
    s.query.having("COUNT(id) > 1");
    let sql = s.build_sql().unwrap();
    assert_eq!(
        sql.as_str(),
        "SELECT category FROM books GROUP BY category HAVING COUNT(id) > 1 ORDER BY price DESC, title LIMIT 10 OFFSET 20;"
    );
}

#[test]
fn count_as_renders_an_aggregate_item() {
    let mut s = Select::new(1, String::from("books"));
    s.query.count_as("id", "cnt");
    assert_eq!(s.build_sql().unwrap().as_str(), "SELECT COUNT(id) AS cnt FROM books;");
}

#[test]
fn update_sets_fields_in_lock_step() {
    let mut u = Update::new(1, String::from("books")).set("price", Value::IntVal(42));
    u.set_ref("title", Value::Text(String::from("x")));
    u.query.and_where_eq("id", Value::IntVal(7));
    let sql = u.build_sql().unwrap();
    assert_eq!(sql.as_str(), "UPDATE books SET price = ?, title = ? WHERE id = ?;");
    assert_eq!(count_placeholders(sql.as_str()), u.query.arguments.len());
}

#[test]
fn update_without_set_fields_fails_fast() {
    let u = Update::new(1, String::from("books"));
    assert_eq!(u.build_sql().unwrap_err(), DbError::NoSetFields);
}

#[test]
fn empty_table_name_is_refused() {
    let s = Select::new(1, String::new());
    assert_eq!(s.build_sql().unwrap_err(), DbError::NoTableName);
}

#[test]
fn delete_compiles_with_conditions() {
    let mut d = Delete::new(1, String::from("books"));
    d.query.and_where_eq("id", Value::IntVal(9));
    assert_eq!(d.build_sql().unwrap().as_str(), "DELETE FROM books WHERE id = ?;");
}

#[test]
fn insert_binds_one_row_per_values_group() {
    let ins = Insert::insert(
        1,
        String::from("books"),
        vec![String::from("title"), String::from("price")],
        &vec![Value::Text(String::from("x")), Value::IntVal(5)],
    );
    let sql = ins.build_sql().unwrap();
    assert_eq!(sql.as_str(), "INSERT INTO books (title, price) VALUES (?, ?);");
    assert_eq!(count_placeholders(sql.as_str()), ins.query.arguments.len());
}

#[test]
fn insert_bulk_repeats_the_row_shape() {
    let rows = vec![
        vec![Value::IntVal(1), Value::IntVal(2)],
        vec![Value::IntVal(3), Value::IntVal(4)],
    ];
    let ins = Insert::insert_bulk(
        1,
        String::from("points"),
        vec![String::from("x"), String::from("y")],
        &rows,
    );
    let sql = ins.build_sql().unwrap();
    assert_eq!(sql.as_str(), "INSERT INTO points (x, y) VALUES (?, ?), (?, ?);");
    assert_eq!(count_placeholders(sql.as_str()), 4);
    assert_eq!(ins.query.arguments.len(), 4);
}

#[test]
fn insert_ignore_and_replace_change_the_verb() {
    let rows = vec![vec![Value::IntVal(1)]];
    let ig = Insert::insert_ignore(1, String::from("t"), vec![String::from("a")], &rows);
    assert_eq!(ig.build_sql().unwrap().as_str(), "INSERT IGNORE INTO t (a) VALUES (?);");
    let rp = Insert::insert_replace(1, String::from("t"), vec![String::from("a")], &rows);
    assert_eq!(rp.build_sql().unwrap().as_str(), "REPLACE INTO t (a) VALUES (?);");
}

#[test]
fn empty_insert_is_refused() {
    let ins = Insert::new(1, String::from("books"), vec![String::from("title")]);
    assert_eq!(ins.build_sql().unwrap_err(), DbError::NoValues);
}

#[test]
fn insert_update_names_the_conflict_fields() {
    let iu = InsertUpdate::insert_update(
        1,
        String::from("books"),
        vec![String::from("title"), String::from("price")],
        &vec![Value::Text(String::from("x")), Value::IntVal(5)],
    )
    .field("price")
    .fields(&vec![String::from("title")]);
    let sql = iu.build_sql().unwrap();
    assert_eq!(
        sql.as_str(),
        "INSERT INTO books (title, price) VALUES (?, ?) AS new ON DUPLICATE KEY UPDATE price = new.price, title = new.title;"
    );
}

#[test]
fn insert_update_bulk_binds_every_row() {
    let rows = vec![
        vec![Value::Text(String::from("a")), Value::IntVal(1)],
        vec![Value::Text(String::from("b")), Value::IntVal(2)],
    ];
    let iu = InsertUpdate::insert_update_bulk(
        1,
        String::from("books"),
        vec![String::from("title"), String::from("price")],
        &rows,
    )
    .field("price");
    let sql = iu.build_sql().unwrap();
    assert_eq!(
        sql.as_str(),
        "INSERT INTO books (title, price) VALUES (?, ?), (?, ?) AS new ON DUPLICATE KEY UPDATE price = new.price;"
    );
    assert_eq!(iu.insert.query.arguments.len(), 4);
}

#[test]
fn insert_update_with_no_fields_fails_fast() {
    let iu = InsertUpdate::insert_update(
        1,
        String::from("books"),
        vec![String::from("title")],
        &vec![Value::Text(String::from("x"))],
    );
    let e = iu.build_sql().unwrap_err();
    assert_eq!(e, DbError::EmptyUpdateFields);
    assert_eq!(e.message().as_str(), "Empty update fields.");
}

#[test]
fn builder_state_survives_mixed_use() {
    let mut q = QueryBuilder::new(StatementKind::SelectFrom, 3, String::from("users"));
    assert_eq!(q.datasource, 3);
    q.add_arguments(Value::BoolVal(true));
    assert_eq!(q.arguments.len(), 1);
}

#[test]
fn registry_initializes_exactly_once() {
    let mut r = Registry::new();
    let e = connection::get(&r, 1).unwrap_err();
    assert_eq!(e, DbError::NotInitialized);
    assert_eq!(e.message().as_str(), "Pools is empty.");

    let cfg = PoolConfig {
        url: String::from("mysql://localhost/test"),
        test_before_acquire: Some(true),
        max_connections: Some(8),
        min_connections: None,
        connect_timeout: Some(30),
        max_lifetime: None,
        idle_timeout: Some(600),
        log_statements_level: None,
        log_slow_queries_level: None,
        log_slow_queries_duration: None,
    };
    connection::setup_pools(&mut r, vec![(1, cfg)], false).unwrap();

    let pool = connection::get(&r, 1).unwrap();
    assert_eq!(pool.url.as_str(), "mysql://localhost/test");
    assert!(!pool.closed);
    assert_eq!(connection::get(&r, 2).unwrap_err(), DbError::NoPoolFound);

    let again = connection::setup_pools(&mut r, Vec::new(), false).unwrap_err();
    assert_eq!(again, DbError::AlreadyInitialized);
    assert_eq!(again.message().as_str(), "Failed to set pools.");

    connection::setup_pools(&mut r, Vec::new(), true).unwrap();
    assert!(connection::get(&r, 1).is_ok());
}

#[test]
fn closing_a_pool_keeps_it_present() {
    let mut r = Registry::new();
    let cfg = PoolConfig {
        url: String::from("postgres://localhost/test"),
        test_before_acquire: None,
        max_connections: None,
        min_connections: None,
        connect_timeout: None,
        max_lifetime: None,
        idle_timeout: None,
        log_statements_level: None,
        log_slow_queries_level: None,
        log_slow_queries_duration: None,
    };
    connection::setup_pools(&mut r, vec![(7, cfg)], false).unwrap();
    assert!(connection::close(&mut r, 7).unwrap());
    let pool = connection::get(&r, 7).unwrap();
    assert!(pool.closed);
    assert_eq!(connection::close(&mut r, 8).unwrap_err(), DbError::NoPoolFound);
}

#[test]
fn pool_options_carry_each_set_knob() {
    let cfg = PoolConfig {
        url: String::from("u"),
        test_before_acquire: Some(false),
        max_connections: Some(3),
        min_connections: Some(1),
        connect_timeout: None,
        max_lifetime: Some(3600),
        idle_timeout: None,
        log_statements_level: Some(String::from("debug")),
        log_slow_queries_level: None,
        log_slow_queries_duration: Some(2),
    };
    let o = cfg.pool_options();
    assert_eq!(o.test_before_acquire, Some(false));
    assert_eq!(o.max_connections, Some(3));
    assert_eq!(o.min_connections, Some(1));
    assert_eq!(o.connect_timeout, None);
    assert_eq!(o.max_lifetime, Some(3600));
    assert_eq!(o.idle_timeout, None);
}

#[test]
fn delete_outcome_never_hides_a_missing_row() {
    let e = delete_outcome(0).unwrap_err();
    assert_eq!(e, DbError::RowNotFound);
    assert_eq!(e.message().as_str(), "row not found");
    assert!(delete_outcome(1).is_ok());
    assert!(delete_outcome(3).is_ok());
}

#[test]
fn setter_application_is_idempotent_in_memory() {
    let mut entity = vec![Value::IntVal(1), Value::Text(String::from("old"))];
    apply_patch(&mut entity, &vec![1], &vec![Value::Text(String::from("new"))]);
    let once = vec![Value::IntVal(1), Value::Text(String::from("new"))];
    assert_eq!(entity, once);
    apply_patch(&mut entity, &vec![1], &vec![Value::Text(String::from("new"))]);
    assert_eq!(entity, once);
}

#[test]
fn apply_patch_copies_each_held_field() {
    let mut entity = vec![Value::IntVal(1), Value::Text(String::from("a")), Value::IntVal(2)];
    apply_patch(
        &mut entity,
        &vec![1, 2],
        &vec![Value::Text(String::from("b")), Value::IntVal(9)],
    );
    assert_eq!(
        entity,
        vec![Value::IntVal(1), Value::Text(String::from("b")), Value::IntVal(9)]
    );
}

#[test]
fn failed_follow_up_is_distinguishable() {
    let got = follow_up_outcome(Some(vec![Value::IntVal(1)])).unwrap();
    assert_eq!(got, vec![Value::IntVal(1)]);
    let e = follow_up_outcome(None).unwrap_err();
    assert_eq!(e, DbError::InsertedButNotReturned);
    assert_eq!(
        e.message().as_str(),
        "insert succeeded, but fetching generated values failed"
    );
}
