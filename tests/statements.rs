use schema_editor::ddl::{alter_table_queries, create_table_query, delete_table_query, is_valid_identifier, table_data_rows_query, ValidationError};
use schema_editor::dml::{get_filter_condition, get_insert_value, get_updates, join_strings, update_table_data_queries};
use schema_editor::schema::{
    with_default_primary_key, Column, ColumnForeignKey, ColumnValue, Condition, Constraint, DataType, RowColumnValue,
    RowInsertData, TableChangeEvents, TableDataChangeEvents, TableIn,
};
use schema_editor::table_info::TableInfo;

fn s(x: &str) -> String {
    String::from(x)
}

fn strings(xs: &[&str]) -> Vec<String> {
    xs.iter().map(|x| s(x)).collect()
}

#[test]
fn compiles_scenario_in_fixed_order() {
    let events = vec![
        TableChangeEvents::AddColumn(s("email"), DataType::TEXT),
        TableChangeEvents::ChangeColumnName(s("name"), s("username")),
        TableChangeEvents::ChangeColumnDataType(s("username"), DataType::INTEGER),
        TableChangeEvents::ChangeTableName(s("customers")),
    ];
    let qs = alter_table_queries(&s("users"), &events, &strings(&["id"]), &Some(s("users_pkey"))).unwrap();
    assert_eq!(qs, strings(&[
        "ALTER TABLE \"users\" RENAME TO \"customers\"",
        "ALTER TABLE \"customers\" ALTER COLUMN \"name\" TYPE INTEGER USING \"name\"::INTEGER",
        "ALTER TABLE \"customers\" RENAME COLUMN \"name\" TO \"username\"",
        "ALTER TABLE \"customers\" ADD COLUMN \"email\" TEXT",
    ]));
}

#[test]
fn compiles_column_removal_and_foreign_keys() {
    let events = vec![
        TableChangeEvents::RemoveForeignKey(s("old_ref")),
        TableChangeEvents::AddForeignKey(ColumnForeignKey {
            column_name: s("registration_id"),
            referenced_table: s("registrations"),
            referenced_column: s("id"),
        }),
        TableChangeEvents::RemoveColumn(s("age")),
    ];
    let qs = alter_table_queries(&s("users"), &events, &strings(&["id"]), &None).unwrap();
    assert_eq!(qs, strings(&[
        "ALTER TABLE \"users\" DROP COLUMN \"age\"",
        "ALTER TABLE \"users\" ADD CONSTRAINT \"fk_users_registration_id\" FOREIGN KEY (\"registration_id\") REFERENCES \"registrations\" (\"id\")",
        "ALTER TABLE \"users\" DROP CONSTRAINT IF EXISTS \"fk_users_old_ref\"",
    ]));
}

#[test]
fn compiles_primary_key_change() {
    let events = vec![TableChangeEvents::AddPrimaryKey(s("email"))];
    let qs = alter_table_queries(&s("users"), &events, &strings(&["id"]), &Some(s("users_pkey"))).unwrap();
    assert_eq!(qs, strings(&[
        "ALTER TABLE \"users\" DROP CONSTRAINT \"users_pkey\"",
        "ALTER TABLE \"users\" ADD CONSTRAINT \"pk_users\" PRIMARY KEY (\"id\", \"email\")",
    ]));
}

#[test]
fn dropping_key_column_needs_no_constraint_drop() {
    let events = vec![TableChangeEvents::RemoveColumn(s("id"))];
    let qs = alter_table_queries(&s("users"), &events, &strings(&["id"]), &Some(s("users_pkey"))).unwrap();
    assert_eq!(qs, strings(&["ALTER TABLE \"users\" DROP COLUMN \"id\""]));
}

#[test]
fn unchanged_primary_key_compiles_nothing() {
    let qs = alter_table_queries(&s("users"), &vec![], &strings(&["id"]), &Some(s("users_pkey"))).unwrap();
    assert!(qs.is_empty());
}

#[test]
fn rejects_quote_in_identifier() {
    let events = vec![TableChangeEvents::AddColumn(s("bad\"name"), DataType::TEXT)];
    assert_eq!(alter_table_queries(&s("users"), &events, &vec![], &None), Err(ValidationError::InvalidIdentifier));
    assert_eq!(alter_table_queries(&s(""), &vec![], &vec![], &None), Err(ValidationError::InvalidIdentifier));
    assert!(!is_valid_identifier(&s("a\"b")));
    assert!(is_valid_identifier(&s("ab")));
}

#[test]
fn session_compiles_its_pending_set() {
    let mut t = TableInfo::new(s("users"));
    t.set_table_info(vec![
        Column { name: s("id"), datatype: DataType::INTEGER, constraints: vec![Constraint::PrimaryKey] },
        Column { name: s("name"), datatype: DataType::TEXT, constraints: vec![] },
    ]);
    t.add_table_change_event(TableChangeEvents::RemovePrimaryKey(s("id")));
    let qs = t.alter_table_queries(&Some(s("users_pkey"))).unwrap();
    assert_eq!(qs, strings(&["ALTER TABLE \"users\" DROP CONSTRAINT \"users_pkey\""]));
}

#[test]
fn filter_and_updates() {
    let conds = vec![
        Condition { column_name: s("id"), data_type: DataType::INTEGER, value: s("1") },
        Condition { column_name: s("name"), data_type: DataType::TEXT, value: s("x") },
    ];
    assert_eq!(get_filter_condition(&conds), s("\"id\" = 1 AND \"name\" = 'x'"));
    let vals = vec![
        ColumnValue { column_name: s("name"), data_type: DataType::TEXT, value: s("bob") },
        ColumnValue { column_name: s("active"), data_type: DataType::BOOLEAN, value: s("true") },
    ];
    assert_eq!(get_updates(&vals), s("\"name\" = 'bob', \"active\" = true"));
    assert_eq!(join_strings(&strings(&["a", "b", "c"]), "-"), s("a-b-c"));
    assert_eq!(join_strings(&vec![], "-"), s(""));
}

#[test]
fn insert_generates_next_integer_key() {
    let pks = strings(&["id"]);
    assert_eq!(
        get_insert_value(&s("users"), &s("id"), &s(""), DataType::INTEGER, &pks),
        s("(SELECT COALESCE(MAX(\"id\"), 0) + 1 FROM \"users\")")
    );
    assert_eq!(get_insert_value(&s("users"), &s("id"), &s(""), DataType::TEXT, &pks), s("gen_random_uuid()::TEXT"));
    assert_eq!(get_insert_value(&s("users"), &s("id"), &s(""), DataType::BOOLEAN, &pks), s("NULL"));
    assert_eq!(get_insert_value(&s("users"), &s("name"), &s(""), DataType::TEXT, &pks), s("NULL"));
    assert_eq!(get_insert_value(&s("users"), &s("id"), &s("7"), DataType::INTEGER, &pks), s("7"));
}

#[test]
fn row_statements() {
    let events = vec![
        TableDataChangeEvents::ModifyRowColumnValue(RowColumnValue {
            conditions: vec![Condition { column_name: s("id"), data_type: DataType::INTEGER, value: s("1") }],
            column_values: vec![ColumnValue { column_name: s("name"), data_type: DataType::TEXT, value: s("bob") }],
        }),
        TableDataChangeEvents::DeleteRow(vec![Condition { column_name: s("id"), data_type: DataType::INTEGER, value: s("2") }]),
        TableDataChangeEvents::InsertRow(RowInsertData {
            column_names: strings(&["id", "name"]),
            values: strings(&["", "alice"]),
            data_types: vec![DataType::INTEGER, DataType::TEXT],
        }),
    ];
    let qs = update_table_data_queries(&s("users"), &events, &strings(&["id"])).unwrap();
    assert_eq!(qs, strings(&[
        "UPDATE \"users\" SET \"name\" = 'bob' WHERE \"id\" = 1",
        "DELETE FROM \"users\" WHERE \"id\" = 2",
        "INSERT INTO \"users\" (\"id\", \"name\") VALUES ((SELECT COALESCE(MAX(\"id\"), 0) + 1 FROM \"users\"), 'alice')",
    ]));
    let bad = vec![TableDataChangeEvents::DeleteRow(vec![Condition { column_name: s("i\"d"), data_type: DataType::INTEGER, value: s("2") }])];
    assert_eq!(update_table_data_queries(&s("users"), &bad, &vec![]), Err(ValidationError::InvalidIdentifier));
}

#[test]
fn test_add_table() {
    let new_table_in = TableIn {
        table_name: s("products"),
        columns: vec![Column { name: s("product_name"), datatype: DataType::TEXT, constraints: vec![] }],
    };
    let created = with_default_primary_key(new_table_in.clone());
    let mut new_table = new_table_in;
    new_table.columns.push(Column { name: s("id"), datatype: DataType::INTEGER, constraints: vec![Constraint::PrimaryKey] });
    assert_eq!(created, new_table);
    assert_eq!(
        create_table_query(&created).unwrap(),
        s("CREATE TABLE \"products\" (\"product_name\" TEXT, \"id\" INTEGER, PRIMARY KEY (\"id\"))")
    );
    assert_eq!(with_default_primary_key(created.clone()), created);
}

#[test]
fn create_table_with_foreign_key() {
    let t = TableIn {
        table_name: s("orders"),
        columns: vec![
            Column { name: s("no"), datatype: DataType::INTEGER, constraints: vec![Constraint::PrimaryKey] },
            Column {
                name: s("user_id"),
                datatype: DataType::INTEGER,
                constraints: vec![Constraint::ForeignKey(s("users"), s("id"))],
            },
        ],
    };
    assert_eq!(
        create_table_query(&t).unwrap(),
        s("CREATE TABLE \"orders\" (\"no\" INTEGER, \"user_id\" INTEGER REFERENCES \"users\"(\"id\"), PRIMARY KEY (\"no\"))")
    );
    let bad = TableIn { table_name: s("t\""), columns: vec![] };
    assert_eq!(create_table_query(&bad), Err(ValidationError::InvalidIdentifier));
}

#[test]
fn drop_and_select_statements() {
    assert_eq!(delete_table_query(&s("users")).unwrap(), s("DROP TABLE \"users\""));
    assert_eq!(delete_table_query(&s("")), Err(ValidationError::InvalidIdentifier));
    assert_eq!(
        table_data_rows_query(&s("users"), &strings(&["id", "name"]), &strings(&["id"])).unwrap(),
        s("SELECT COALESCE(\"id\"::TEXT, '') AS \"id\", COALESCE(\"name\"::TEXT, '') AS \"name\" FROM \"users\" ORDER BY \"id\"")
    );
}

#[test]
fn foreign_key_switch_drops_then_adds() {
    let events = vec![
        TableChangeEvents::RemoveForeignKey(s("user_id")),
        TableChangeEvents::AddForeignKey(ColumnForeignKey {
            column_name: s("user_id"),
            referenced_table: s("clients"),
            referenced_column: s("id"),
        }),
    ];
    let qs = alter_table_queries(&s("orders"), &events, &vec![], &None).unwrap();
    assert_eq!(qs, strings(&[
        "ALTER TABLE \"orders\" DROP CONSTRAINT IF EXISTS \"fk_orders_user_id\", ADD CONSTRAINT \"fk_orders_user_id\" FOREIGN KEY (\"user_id\") REFERENCES \"clients\" (\"id\")",
    ]));
}

#[test]
fn update_naming_column_twice_is_refused() {
    let events = vec![TableDataChangeEvents::ModifyRowColumnValue(RowColumnValue {
        conditions: vec![Condition { column_name: s("id"), data_type: DataType::INTEGER, value: s("1") }],
        column_values: vec![
            ColumnValue { column_name: s("name"), data_type: DataType::TEXT, value: s("a") },
            ColumnValue { column_name: s("name"), data_type: DataType::TEXT, value: s("b") },
        ],
    })];
    assert_eq!(update_table_data_queries(&s("users"), &events, &vec![]), Err(ValidationError::DuplicateColumn));
}
