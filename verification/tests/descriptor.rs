use cherry::attrs::{FieldAttr, GenError, Getter, TableAttr};
use cherry::backend::Backend;
use cherry::schema::Schema;
use cherry::table::{FieldDecl, Table, TableDecl};

fn plain_field(name: &str, ty: &str) -> FieldDecl {
    FieldDecl {
        name: String::from(name),
        ty: String::from(ty),
        is_option: false,
        attrs: Vec::new(),
    }
}

fn field_with(name: &str, ty: &str, attrs: Vec<FieldAttr>) -> FieldDecl {
    FieldDecl { name: String::from(name), ty: String::from(ty), is_option: false, attrs }
}

fn users_decl() -> TableDecl {
    TableDecl {
        ident: String::from("User"),
        attrs: vec![
            TableAttr::Table(String::from("users")),
            TableAttr::Id(String::from("id")),
            TableAttr::Insertable(None),
        ],
        fields: vec![
            field_with("id", "i64", vec![FieldAttr::DefaultValue]),
            plain_field("email", "String"),
            field_with("created_at", "i64", vec![FieldAttr::DefaultValue]),
        ],
    }
}

#[test]
fn resolves_simple_declaration() {
    let t = Table::try_from_decl(&users_decl(), &Backend::MySql).unwrap();
    assert_eq!(t.table.as_str(), "users");
    assert_eq!(t.id, Some(0));
    assert_eq!(t.fields.len(), 3);
    assert!(t.fields[0].pk);
    assert!(!t.fields[1].pk);
    assert!(t.fields[0].has_default);
    assert!(!t.fields[1].has_default);
    assert_eq!(t.insertable.as_deref(), Some("InsertUser"));
    assert_eq!(t.fields[1].column_name.as_str(), "email");
}

#[test]
fn id_is_optional_and_disables_id_operations() {
    let decl = TableDecl {
        ident: String::from("LogLine"),
        attrs: vec![TableAttr::Table(String::from("log"))],
        fields: vec![plain_field("message", "String")],
    };
    let t = Table::try_from_decl(&decl, &Backend::MySql).unwrap();
    assert_eq!(t.id, None);
}

#[test]
fn column_override_and_reserved_word() {
    let decl = TableDecl {
        ident: String::from("Item"),
        attrs: vec![TableAttr::Table(String::from("items"))],
        fields: vec![field_with(
            "position",
            "i64",
            vec![FieldAttr::Column(String::from("order"))],
        )],
    };
    let t = Table::try_from_decl(&decl, &Backend::MySql).unwrap();
    assert_eq!(t.fields[0].column_name.as_str(), "order");
    assert!(t.fields[0].reserved_ident);
    let t2 = Table::try_from_decl(
        &TableDecl {
            ident: String::from("Item"),
            attrs: vec![TableAttr::Table(String::from("items"))],
            fields: vec![plain_field("position", "i64")],
        },
        &Backend::MySql,
    )
    .unwrap();
    assert!(!t2.fields[0].reserved_ident);
}

#[test]
fn reserved_word_check_is_case_insensitive() {
    assert!(Backend::MySql.is_reserved("order"));
    assert!(Backend::MySql.is_reserved("Order"));
    assert!(Backend::MySql.is_reserved("ORDER"));
    assert!(Backend::MySql.is_reserved("key"));
    assert!(!Backend::Postgres.is_reserved("key"));
    assert!(Backend::Postgres.is_reserved("user"));
    assert!(Backend::Postgres.is_reserved("offset"));
    assert!(!Backend::MySql.is_reserved("email"));
    assert!(Backend::Sqlite.is_reserved("default"));
    assert!(Backend::Sqlite.is_reserved("values"));
    assert!(Backend::MySql.is_reserved("primary"));
    assert!(!Backend::Sqlite.is_reserved("user"));
}

#[test]
fn setter_directive_defaults_to_set_name() {
    let decl = TableDecl {
        ident: String::from("User"),
        attrs: vec![TableAttr::Table(String::from("users")), TableAttr::Id(String::from("id"))],
        fields: vec![
            plain_field("id", "i64"),
            field_with("email", "String", vec![FieldAttr::Setter(None)]),
            field_with(
                "name",
                "String",
                vec![FieldAttr::Setter(Some(String::from("rename")))],
            ),
        ],
    };
    let t = Table::try_from_decl(&decl, &Backend::MySql).unwrap();
    assert_eq!(t.fields[1].setter.as_deref(), Some("set_email"));
    assert_eq!(t.fields[2].setter.as_deref(), Some("rename"));
    assert_eq!(t.fields[0].setter, None);
}

#[test]
fn duplicate_attribute_fails_with_key_name() {
    let decl = TableDecl {
        ident: String::from("User"),
        attrs: vec![TableAttr::Table(String::from("users"))],
        fields: vec![field_with(
            "id",
            "i64",
            vec![
                FieldAttr::Column(String::from("a")),
                FieldAttr::Column(String::from("b")),
            ],
        )],
    };
    let e = Table::try_from_decl(&decl, &Backend::MySql).unwrap_err();
    assert_eq!(e, GenError::DuplicateAttribute(String::from("column")));
    assert_eq!(e.message().as_str(), "duplicate attribute: column");
}

#[test]
fn duplicate_table_attribute_fails() {
    let decl = TableDecl {
        ident: String::from("User"),
        attrs: vec![
            TableAttr::Table(String::from("users")),
            TableAttr::Table(String::from("people")),
        ],
        fields: vec![plain_field("id", "i64")],
    };
    let e = Table::try_from_decl(&decl, &Backend::MySql).unwrap_err();
    assert_eq!(e, GenError::DuplicateAttribute(String::from("table")));
}

#[test]
fn missing_table_fails() {
    let decl = TableDecl {
        ident: String::from("User"),
        attrs: vec![],
        fields: vec![plain_field("id", "i64")],
    };
    let e = Table::try_from_decl(&decl, &Backend::MySql).unwrap_err();
    assert_eq!(e, GenError::MissingAttribute(String::from("table")));
    assert_eq!(e.message().as_str(), "missing attribute: table");
}

#[test]
fn id_must_name_a_field() {
    let decl = TableDecl {
        ident: String::from("User"),
        attrs: vec![
            TableAttr::Table(String::from("users")),
            TableAttr::Id(String::from("uuid")),
        ],
        fields: vec![plain_field("id", "i64")],
    };
    let e = Table::try_from_decl(&decl, &Backend::MySql).unwrap_err();
    assert_eq!(e, GenError::IdNotFound);
    assert_eq!(e.message().as_str(), "id does not refer to a field of the struct");
}

#[test]
fn unmapped_requires_optional_type() {
    let decl = TableDecl {
        ident: String::from("User"),
        attrs: vec![TableAttr::Table(String::from("users"))],
        fields: vec![field_with("cache", "String", vec![FieldAttr::Unmapped])],
    };
    let e = Table::try_from_decl(&decl, &Backend::MySql).unwrap_err();
    assert_eq!(e, GenError::UnmappedNotOption);

    let ok = TableDecl {
        ident: String::from("User"),
        attrs: vec![TableAttr::Table(String::from("users"))],
        fields: vec![FieldDecl {
            name: String::from("cache"),
            ty: String::from("Option<String>"),
            is_option: true,
            attrs: vec![FieldAttr::Unmapped],
        }],
    };
    let t = Table::try_from_decl(&ok, &Backend::MySql).unwrap();
    assert!(t.fields[0].unmapped);
}

#[test]
fn default_without_insertable_fails() {
    let decl = TableDecl {
        ident: String::from("User"),
        attrs: vec![TableAttr::Table(String::from("users")), TableAttr::Id(String::from("id"))],
        fields: vec![field_with("id", "i64", vec![FieldAttr::DefaultValue])],
    };
    let e = Table::try_from_decl(&decl, &Backend::MySql).unwrap_err();
    assert_eq!(e, GenError::DefaultWithoutInsertable);
}

#[test]
fn getter_directives_carry_over() {
    let decl = TableDecl {
        ident: String::from("User"),
        attrs: vec![TableAttr::Table(String::from("users")), TableAttr::Id(String::from("id"))],
        fields: vec![
            plain_field("id", "i64"),
            field_with(
                "email",
                "String",
                vec![FieldAttr::GetOptional(Getter { func: None, arg_ty: None })],
            ),
        ],
    };
    let t = Table::try_from_decl(&decl, &Backend::MySql).unwrap();
    assert!(t.fields[1].get_optional.is_some());
    assert!(t.fields[1].get_one.is_none());
}

#[test]
fn schema_requires_datasource() {
    let decl = TableDecl {
        ident: String::from("User"),
        attrs: vec![TableAttr::Table(String::from("users"))],
        fields: vec![plain_field("id", "i64")],
    };
    let e = Schema::try_from_decl(&decl, &Backend::MySql).unwrap_err();
    assert_eq!(e, GenError::MissingAttribute(String::from("datasource")));
}

#[test]
fn schema_partitions_mapped_and_unmapped() {
    let decl = TableDecl {
        ident: String::from("User"),
        attrs: vec![
            TableAttr::Table(String::from("users")),
            TableAttr::Datasource(String::from("Primary")),
            TableAttr::Queryable(None),
        ],
        fields: vec![
            plain_field("id", "i64"),
            FieldDecl {
                name: String::from("cache"),
                ty: String::from("Option<String>"),
                is_option: true,
                attrs: vec![FieldAttr::Unmapped],
            },
            plain_field("email", "String"),
        ],
    };
    let s = Schema::try_from_decl(&decl, &Backend::MySql).unwrap();
    assert_eq!(s.datasource.as_str(), "Primary");
    assert_eq!(s.queryable.as_deref(), Some("QueryUser"));
    assert_eq!(s.mapped_fields(), vec![0, 2]);
    assert_eq!(s.unmapped_fields(), vec![1]);
}

#[test]
fn table_partitions_follow_declaration_order() {
    let t = Table::try_from_decl(&users_decl(), &Backend::MySql).unwrap();
    assert_eq!(t.fields_except_id(), vec![1, 2]);
    assert_eq!(t.insertable_fields(), vec![1]);
    assert_eq!(t.default_fields(), vec![0, 2]);
    assert_eq!(t.primary_key_fields(), vec![0]);
}
