use cherry::attrs::{FieldAttr, Getter, TableAttr};
use cherry::backend::Backend;
use cherry::insert::InsertPlan;
use cherry::model::Value;
use cherry::patch::{Patch, PatchField};
use cherry::schema::Schema;
use cherry::synth::{stream_all_paginated_binds, GetterKind};
use cherry::table::{FieldDecl, Table, TableDecl};

fn plain_field(name: &str, ty: &str) -> FieldDecl {
    FieldDecl {
        name: String::from(name),
        ty: String::from(ty),
        is_option: false,
        attrs: Vec::new(),
    }
}

fn field_with(name: &str, ty: &str, attrs: Vec<FieldAttr>) -> FieldDecl {
    FieldDecl { name: String::from(name), ty: String::from(ty), is_option: false, attrs }
}

/// The scenario entity: `id` primary key with a database default, a plain
/// `email`, and a database-defaulted `created_at`, on table `users`, with
/// an insertable companion.
fn users(b: &Backend) -> Table {
    let decl = TableDecl {
        ident: String::from("User"),
        attrs: vec![
            TableAttr::Table(String::from("users")),
            TableAttr::Id(String::from("id")),
            TableAttr::Insertable(None),
        ],
        fields: vec![
            field_with("id", "i64", vec![FieldAttr::DefaultValue]),
            plain_field("email", "String"),
            field_with("created_at", "i64", vec![FieldAttr::DefaultValue]),
        ],
    };
    Table::try_from_decl(&decl, b).unwrap()
}

#[test]
fn select_column_list_covers_mapped_fields() {
    let t = users(&Backend::MySql);
    let items = t.select_items(&Backend::MySql);
    assert_eq!(items.len(), 3);
    assert_eq!(t.select_column_list(&Backend::MySql).as_str(), "id, email, created_at");
}

#[test]
fn select_aliases_only_renamed_or_custom_fields() {
    let decl = TableDecl {
        ident: String::from("Item"),
        attrs: vec![TableAttr::Table(String::from("items"))],
        fields: vec![
            plain_field("id", "i64"),
            field_with("position", "i64", vec![FieldAttr::Column(String::from("pos"))]),
            field_with("kind", "Kind", vec![FieldAttr::CustomType]),
            field_with("sort", "i64", vec![FieldAttr::Column(String::from("order"))]),
        ],
    };
    let t = Table::try_from_decl(&decl, &Backend::MySql).unwrap();
    let items = t.select_items(&Backend::MySql);
    assert_eq!(items[0].as_str(), "id");
    assert_eq!(items[1].as_str(), "pos AS position");
    assert_eq!(items[2].as_str(), "kind AS `kind: _`");
    assert_eq!(items[3].as_str(), "`order` AS sort");
}

#[test]
fn get_sql_selects_by_id() {
    let t = users(&Backend::MySql);
    assert_eq!(
        t.get_sql(&Backend::MySql).as_str(),
        "SELECT id, email, created_at FROM users WHERE id = ?"
    );
    let tp = users(&Backend::Postgres);
    assert_eq!(
        tp.get_sql(&Backend::Postgres).as_str(),
        "SELECT id, email, created_at FROM users WHERE id = $1"
    );
}

#[test]
fn update_sql_binds_id_last() {
    let t = users(&Backend::MySql);
    assert_eq!(
        t.update_sql(&Backend::MySql).as_str(),
        "UPDATE users SET email = ?, created_at = ? WHERE id = ?"
    );
    assert_eq!(t.update_args(), vec![1, 2, 0]);
    let tp = users(&Backend::Postgres);
    assert_eq!(
        tp.update_sql(&Backend::Postgres).as_str(),
        "UPDATE users SET email = $1, created_at = $2 WHERE id = $3"
    );
}

#[test]
fn delete_sql_targets_one_row() {
    let t = users(&Backend::MySql);
    assert_eq!(t.delete_sql(&Backend::MySql).as_str(), "DELETE FROM users WHERE id = ?");
}

#[test]
fn paginated_scan_binds_limit_before_offset() {
    let t = users(&Backend::MySql);
    assert_eq!(
        t.stream_all_sql(&Backend::MySql).as_str(),
        "SELECT id, email, created_at FROM users"
    );
    assert_eq!(
        t.stream_all_paginated_sql(&Backend::MySql).as_str(),
        "SELECT id, email, created_at FROM users LIMIT ? OFFSET ?"
    );
    assert_eq!(stream_all_paginated_binds(20, 10), vec![10, 20]);
}

#[test]
fn insert_plan_mysql_runs_follow_up_queries() {
    let t = users(&Backend::MySql);
    let plan = t.impl_insert(&Backend::MySql).unwrap().unwrap();
    match plan {
        InsertPlan::FollowUp { insert_sql, id_query, default_query } => {
            assert_eq!(insert_sql.as_str(), "INSERT INTO users (email) VALUES (?)");
            assert_eq!(id_query.as_deref(), Some("SELECT LAST_INSERT_ID() AS id"));
            assert_eq!(
                default_query.as_deref(),
                Some("SELECT created_at FROM users WHERE id = ?")
            );
        }
        _ => panic!("expected the follow-up strategy for MySQL"),
    }
}

#[test]
fn insert_plan_postgres_returns_in_one_round_trip() {
    let t = users(&Backend::Postgres);
    let plan = t.impl_insert(&Backend::Postgres).unwrap().unwrap();
    match plan {
        InsertPlan::Returning { insert_sql, fetch_row } => {
            assert_eq!(
                insert_sql.as_str(),
                "INSERT INTO users (email) VALUES ($1) RETURNING id, created_at"
            );
            assert!(fetch_row);
        }
        _ => panic!("expected the returning strategy for Postgres"),
    }
}

#[test]
fn insert_plan_postgres_without_defaults_plainly_executes() {
    let decl = TableDecl {
        ident: String::from("Tag"),
        attrs: vec![
            TableAttr::Table(String::from("tags")),
            TableAttr::Id(String::from("id")),
            TableAttr::Insertable(None),
        ],
        fields: vec![plain_field("id", "i64"), plain_field("label", "String")],
    };
    let t = Table::try_from_decl(&decl, &Backend::Postgres).unwrap();
    let plan = t.impl_insert(&Backend::Postgres).unwrap().unwrap();
    match plan {
        InsertPlan::Returning { insert_sql, fetch_row } => {
            assert_eq!(insert_sql.as_str(), "INSERT INTO tags (id, label) VALUES ($1, $2)");
            assert!(!fetch_row);
        }
        _ => panic!("expected the returning strategy for Postgres"),
    }
}

#[test]
fn insert_plan_refuses_sqlite() {
    let t = users(&Backend::Sqlite);
    assert!(t.impl_insert(&Backend::Sqlite).is_err());
}

#[test]
fn insert_plan_without_companion_emits_nothing() {
    let decl = TableDecl {
        ident: String::from("Tag"),
        attrs: vec![TableAttr::Table(String::from("tags")), TableAttr::Id(String::from("id"))],
        fields: vec![plain_field("id", "i64")],
    };
    let t = Table::try_from_decl(&decl, &Backend::MySql).unwrap();
    assert!(t.impl_insert(&Backend::MySql).unwrap().is_none());
}

#[test]
fn getters_fall_back_to_field_names() {
    let decl = TableDecl {
        ident: String::from("User"),
        attrs: vec![TableAttr::Table(String::from("users")), TableAttr::Id(String::from("id"))],
        fields: vec![
            plain_field("id", "i64"),
            field_with(
                "email",
                "String",
                vec![
                    FieldAttr::GetOptional(Getter { func: None, arg_ty: None }),
                    FieldAttr::GetMany(Getter {
                        func: Some(String::from("all_by_email")),
                        arg_ty: Some(String::from("&str")),
                    }),
                ],
            ),
        ],
    };
    let t = Table::try_from_decl(&decl, &Backend::MySql).unwrap();
    let plans = t.getters(&Backend::MySql);
    assert_eq!(plans.len(), 2);
    assert_eq!(plans[0].func.as_str(), "by_email");
    assert_eq!(plans[0].arg_ty.as_str(), "&String");
    assert!(plans[0].kind == GetterKind::Optional);
    assert_eq!(plans[0].sql.as_str(), "SELECT id, email FROM users WHERE email = ?");
    assert_eq!(plans[1].func.as_str(), "all_by_email");
    assert_eq!(plans[1].arg_ty.as_str(), "&str");
    assert!(plans[1].kind == GetterKind::Many);
}

#[test]
fn setters_update_one_column_by_id() {
    let decl = TableDecl {
        ident: String::from("User"),
        attrs: vec![TableAttr::Table(String::from("users")), TableAttr::Id(String::from("id"))],
        fields: vec![
            plain_field("id", "i64"),
            field_with("email", "String", vec![FieldAttr::Setter(None)]),
        ],
    };
    let t = Table::try_from_decl(&decl, &Backend::MySql).unwrap();
    let plans = t.setters(&Backend::MySql);
    assert_eq!(plans.len(), 1);
    assert_eq!(plans[0].func.as_str(), "set_email");
    assert_eq!(plans[0].sql.as_str(), "UPDATE users SET email = ? WHERE id = ?");
}

#[test]
fn patch_sets_exactly_the_held_fields() {
    let p = Patch {
        ident: String::from("UpdateName"),
        table_name: String::from("users"),
        id_column: String::from("id"),
        fields: vec![
            PatchField {
                ident: String::from("first_name"),
                column: String::from("first_name"),
                custom: false,
                ty: String::from("String"),
            },
            PatchField {
                ident: String::from("last_name"),
                column: String::from("last_name"),
                custom: false,
                ty: String::from("String"),
            },
        ],
    };
    assert_eq!(
        p.patch_sql(&Backend::MySql).as_str(),
        "UPDATE users SET first_name = ?, last_name = ? WHERE id = ?"
    );
    assert_eq!(
        p.patch_sql(&Backend::Postgres).as_str(),
        "UPDATE users SET first_name = $1, last_name = $2 WHERE id = $3"
    );
}

#[test]
fn primary_key_names_are_title_cased() {
    let t = users(&Backend::MySql);
    assert_eq!(t.table_trait().as_str(), "PkUsers");
    assert_eq!(t.primary_key_trait().as_str(), "PkUsers");
    assert_eq!(t.fields[1].fmt_for_pk().as_str(), "PkEmail");
    assert_eq!(t.fields[1].fmt_for_pk_decl().as_str(), "type PkEmail;");
    assert_eq!(t.fields[1].fmt_for_pk_binding().as_str(), "type PkEmail = String;");
}

#[test]
fn construct_row_reassembles_the_entity() {
    let t = users(&Backend::MySql);
    let row = t.construct_row(
        Value::IntVal(7),
        &vec![Value::Text(String::from("a@b.com"))],
        &vec![Value::IntVal(1700000000)],
    );
    assert_eq!(
        row,
        vec![
            Value::IntVal(7),
            Value::Text(String::from("a@b.com")),
            Value::IntVal(1700000000),
        ]
    );
}

#[test]
fn schema_columns_skip_unmapped_fields() {
    let decl = TableDecl {
        ident: String::from("User"),
        attrs: vec![
            TableAttr::Table(String::from("users")),
            TableAttr::Datasource(String::from("Primary")),
        ],
        fields: vec![
            plain_field("id", "i64"),
            field_with("sort", "i64", vec![FieldAttr::Column(String::from("order"))]),
            FieldDecl {
                name: String::from("cache"),
                ty: String::from("Option<String>"),
                is_option: true,
                attrs: vec![FieldAttr::Unmapped],
            },
        ],
    };
    let s = Schema::try_from_decl(&decl, &Backend::MySql).unwrap();
    let cols = s.columns(&Backend::MySql);
    assert_eq!(cols.len(), 2);
    assert_eq!(cols[0].as_str(), "id");
    assert_eq!(cols[1].as_str(), "`order`");
    let plan = s.from_row_plan(&Backend::MySql);
    assert_eq!(plan[0].as_deref(), Some("id"));
    assert_eq!(plan[1].as_deref(), Some("`order`"));
    assert_eq!(plan[2], None);
}

#[test]
fn insert_struct_holds_only_caller_supplied_fields() {
    let t = users(&Backend::MySql);
    assert_eq!(
        t.insert_struct().unwrap().as_str(),
        "pub struct InsertUser { pub email: String, }"
    );
    assert_eq!(
        t.impl_from_for_insert_struct().unwrap().as_str(),
        "impl From<User> for InsertUser { fn from(v: User) -> Self { Self { email: v.email, } } }"
    );
}

#[test]
fn insert_struct_absent_without_companion() {
    let decl = TableDecl {
        ident: String::from("Tag"),
        attrs: vec![TableAttr::Table(String::from("tags"))],
        fields: vec![plain_field("id", "i64")],
    };
    let t = Table::try_from_decl(&decl, &Backend::MySql).unwrap();
    assert!(t.insert_struct().is_none());
    assert!(t.impl_from_for_insert_struct().is_none());
}

#[test]
fn impl_table_bundles_every_statement() {
    let t = users(&Backend::MySql);
    let plan = t.impl_table(&Backend::MySql);
    assert_eq!(plan.get_sql.as_str(), "SELECT id, email, created_at FROM users WHERE id = ?");
    assert_eq!(
        plan.update_sql.as_str(),
        "UPDATE users SET email = ?, created_at = ? WHERE id = ?"
    );
    assert_eq!(plan.update_args, vec![1, 2, 0]);
    assert_eq!(plan.delete_sql.as_str(), "DELETE FROM users WHERE id = ?");
    assert_eq!(plan.getters.len(), 0);
    assert_eq!(plan.setters.len(), 0);
}

#[test]
fn impl_schema_bundles_the_mapping() {
    let decl = TableDecl {
        ident: String::from("User"),
        attrs: vec![
            TableAttr::Table(String::from("users")),
            TableAttr::Datasource(String::from("Primary")),
        ],
        fields: vec![plain_field("id", "i64"), plain_field("email", "String")],
    };
    let s = Schema::try_from_decl(&decl, &Backend::MySql).unwrap();
    let plan = s.impl_schema(&Backend::MySql);
    assert_eq!(plan.table.as_str(), "users");
    assert_eq!(plan.columns.len(), 2);
    assert_eq!(plan.from_row.len(), 2);
}

#[test]
fn construct_row_returning_reassembles_the_entity() {
    let t = users(&Backend::Postgres);
    let row = t.construct_row_returning(
        &vec![Value::Text(String::from("a@b.com"))],
        &vec![Value::IntVal(7), Value::IntVal(1700000000)],
        &Value::Null,
    );
    assert_eq!(
        row,
        vec![
            Value::IntVal(7),
            Value::Text(String::from("a@b.com")),
            Value::IntVal(1700000000),
        ]
    );
}

#[test]
fn construct_row_returning_fills_unmapped_fields() {
    let decl = TableDecl {
        ident: String::from("User"),
        attrs: vec![
            TableAttr::Table(String::from("users")),
            TableAttr::Id(String::from("id")),
            TableAttr::Insertable(None),
        ],
        fields: vec![
            field_with("id", "i64", vec![FieldAttr::DefaultValue]),
            plain_field("email", "String"),
            FieldDecl {
                name: String::from("cache"),
                ty: String::from("Option<String>"),
                is_option: true,
                attrs: vec![FieldAttr::Unmapped],
            },
        ],
    };
    let t = Table::try_from_decl(&decl, &Backend::Postgres).unwrap();
    let row = t.construct_row_returning(
        &vec![
            Value::Text(String::from("a@b.com")),
            Value::Text(String::from("ignored")),
        ],
        &vec![Value::IntVal(7)],
        &Value::Null,
    );
    assert_eq!(
        row,
        vec![Value::IntVal(7), Value::Text(String::from("a@b.com")), Value::Null]
    );
}

#[test]
fn id_operations_follow_the_id_annotation() {
    let t = users(&Backend::MySql);
    assert!(t.id_operations_enabled());
    let decl = TableDecl {
        ident: String::from("LogLine"),
        attrs: vec![TableAttr::Table(String::from("log"))],
        fields: vec![plain_field("message", "String")],
    };
    let t2 = Table::try_from_decl(&decl, &Backend::MySql).unwrap();
    assert!(!t2.id_operations_enabled());
}
