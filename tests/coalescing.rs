use schema_editor::ddl::renamed_table_name;
use schema_editor::schema::{Column, ColumnForeignKey, Constraint, DataType, TableChangeEvents};
use schema_editor::table_info::TableInfo;

fn s(x: &str) -> String {
    String::from(x)
}

fn users_columns() -> Vec<Column> {
    vec![
        Column { name: s("id"), datatype: DataType::INTEGER, constraints: vec![Constraint::PrimaryKey] },
        Column { name: s("name"), datatype: DataType::TEXT, constraints: vec![] },
    ]
}

fn users_session() -> TableInfo {
    let mut t = TableInfo::new(s("users"));
    t.set_table_info(users_columns());
    t
}

fn apply(t: &mut TableInfo, events: Vec<TableChangeEvents>) {
    for e in events {
        t.add_table_change_event(e);
    }
}

fn fk(c: &str, rt: &str, rc: &str) -> ColumnForeignKey {
    ColumnForeignKey { column_name: s(c), referenced_table: s(rt), referenced_column: s(rc) }
}

#[test]
fn test_alter_table() {
    let mut table_info = users_session();
    let table_change_events = vec![
        TableChangeEvents::AddColumn(s("email"), DataType::TEXT),
        TableChangeEvents::ChangeColumnName(s("name"), s("username")),
        TableChangeEvents::ChangeColumnDataType(s("username"), DataType::INTEGER),
        TableChangeEvents::AddColumn(s("age"), DataType::INTEGER),
        TableChangeEvents::RemoveColumn(s("age")),
        TableChangeEvents::ChangeTableName(s("customers")),
        TableChangeEvents::AddColumn(s("created_at"), DataType::TIMESTAMP),
        TableChangeEvents::ChangeColumnName(s("created_at"), s("registration_date")),
        TableChangeEvents::RemoveColumn(s("registration_date")),
        TableChangeEvents::AddColumn(s("is_active"), DataType::BOOLEAN),
        TableChangeEvents::ChangeColumnName(s("is_active"), s("active_status")),
        TableChangeEvents::AddColumn(s("last_login"), DataType::TIMESTAMP),
        TableChangeEvents::ChangeColumnDataType(s("last_login"), DataType::TIMESTAMP),
        TableChangeEvents::AddColumn(s("country"), DataType::TEXT),
        TableChangeEvents::AddPrimaryKey(s("country")),
        TableChangeEvents::ChangeColumnName(s("country"), s("region")),
        TableChangeEvents::ChangeTableName(s("clients")),
        TableChangeEvents::AddColumn(s("phone_number"), DataType::TEXT),
        TableChangeEvents::AddPrimaryKey(s("phone_number")),
        TableChangeEvents::RemoveColumn(s("phone_number")),
        TableChangeEvents::ChangeColumnName(s("username"), s("name")),
        TableChangeEvents::AddColumn(s("registration_id"), DataType::INTEGER),
        TableChangeEvents::AddForeignKey(fk("registration_id", "registrations", "id")),
        TableChangeEvents::RemoveForeignKey(s("registration_id")),
        TableChangeEvents::AddForeignKey(fk("registration_id", "registrations", "id")),
    ];
    apply(&mut table_info, table_change_events);
    let expected_events = vec![
        TableChangeEvents::AddColumn(s("email"), DataType::TEXT),
        TableChangeEvents::AddColumn(s("active_status"), DataType::BOOLEAN),
        TableChangeEvents::AddColumn(s("last_login"), DataType::TIMESTAMP),
        TableChangeEvents::AddColumn(s("region"), DataType::TEXT),
        TableChangeEvents::AddPrimaryKey(s("region")),
        TableChangeEvents::ChangeTableName(s("clients")),
        TableChangeEvents::ChangeColumnDataType(s("name"), DataType::INTEGER),
        TableChangeEvents::AddColumn(s("registration_id"), DataType::INTEGER),
        TableChangeEvents::AddForeignKey(fk("registration_id", "registrations", "id")),
    ];
    assert_eq!(table_info.get_table_change_events(), expected_events);

    table_info.finish_alter_table(users_columns());
    assert!(table_info.get_table_change_events().is_empty());
    assert_eq!(table_info.table_name(), &s("clients"));
}

#[test]
fn scenario_users_table() {
    let mut t = users_session();
    apply(&mut t, vec![
        TableChangeEvents::AddColumn(s("email"), DataType::TEXT),
        TableChangeEvents::ChangeColumnName(s("name"), s("username")),
        TableChangeEvents::ChangeColumnDataType(s("username"), DataType::INTEGER),
        TableChangeEvents::AddColumn(s("age"), DataType::INTEGER),
        TableChangeEvents::RemoveColumn(s("age")),
        TableChangeEvents::ChangeTableName(s("customers")),
    ]);
    assert_eq!(t.get_table_change_events(), vec![
        TableChangeEvents::AddColumn(s("email"), DataType::TEXT),
        TableChangeEvents::ChangeColumnName(s("name"), s("username")),
        TableChangeEvents::ChangeColumnDataType(s("username"), DataType::INTEGER),
        TableChangeEvents::ChangeTableName(s("customers")),
    ]);
}

#[test]
fn rename_column_to_itself_adds_nothing() {
    let mut t = users_session();
    apply(&mut t, vec![TableChangeEvents::ChangeColumnName(s("name"), s("name"))]);
    assert!(t.get_table_change_events().is_empty());
}

#[test]
fn rename_table_to_itself_adds_nothing() {
    let mut t = users_session();
    apply(&mut t, vec![TableChangeEvents::ChangeTableName(s("users"))]);
    assert!(t.get_table_change_events().is_empty());
    apply(&mut t, vec![
        TableChangeEvents::AddColumn(s("email"), DataType::TEXT),
        TableChangeEvents::ChangeTableName(s("people")),
    ]);
    let before = t.get_table_change_events();
    apply(&mut t, vec![TableChangeEvents::ChangeTableName(s("people"))]);
    assert_eq!(t.get_table_change_events(), before);
}

#[test]
fn renaming_table_back_drops_the_rename() {
    let mut t = users_session();
    apply(&mut t, vec![
        TableChangeEvents::ChangeTableName(s("people")),
        TableChangeEvents::ChangeTableName(s("users")),
    ]);
    assert!(t.get_table_change_events().is_empty());
}

#[test]
fn add_then_remove_column_is_empty() {
    let mut t = users_session();
    apply(&mut t, vec![
        TableChangeEvents::AddColumn(s("age"), DataType::INTEGER),
        TableChangeEvents::RemoveColumn(s("age")),
    ]);
    assert!(t.get_table_change_events().is_empty());
}

#[test]
fn chained_renames_collapse() {
    let mut t = users_session();
    apply(&mut t, vec![
        TableChangeEvents::ChangeColumnName(s("a"), s("b")),
        TableChangeEvents::ChangeColumnName(s("b"), s("c")),
    ]);
    assert_eq!(t.get_table_change_events(), vec![TableChangeEvents::ChangeColumnName(s("a"), s("c"))]);
}

#[test]
fn chained_renames_back_to_start_vanish() {
    let mut t = users_session();
    apply(&mut t, vec![
        TableChangeEvents::ChangeColumnName(s("a"), s("b")),
        TableChangeEvents::ChangeColumnName(s("b"), s("a")),
    ]);
    assert!(t.get_table_change_events().is_empty());
}

#[test]
fn primary_key_add_remove_cancels() {
    let mut t = users_session();
    apply(&mut t, vec![
        TableChangeEvents::AddPrimaryKey(s("name")),
        TableChangeEvents::RemovePrimaryKey(s("name")),
    ]);
    assert!(t.get_table_change_events().is_empty());
}

#[test]
fn primary_key_remove_add_cancels() {
    let mut t = users_session();
    apply(&mut t, vec![
        TableChangeEvents::RemovePrimaryKey(s("id")),
        TableChangeEvents::AddPrimaryKey(s("id")),
    ]);
    assert!(t.get_table_change_events().is_empty());
}

#[test]
fn remove_then_add_same_type_cancels() {
    let mut t = users_session();
    apply(&mut t, vec![
        TableChangeEvents::RemoveColumn(s("name")),
        TableChangeEvents::AddColumn(s("name"), DataType::TEXT),
    ]);
    assert!(t.get_table_change_events().is_empty());
}

#[test]
fn remove_then_add_other_type_changes_type() {
    let mut t = users_session();
    apply(&mut t, vec![
        TableChangeEvents::RemoveColumn(s("name")),
        TableChangeEvents::AddColumn(s("name"), DataType::BOOLEAN),
    ]);
    assert_eq!(t.get_table_change_events(), vec![TableChangeEvents::ChangeColumnDataType(s("name"), DataType::BOOLEAN)]);
}

#[test]
fn type_change_back_to_catalog_type_drops() {
    let mut t = users_session();
    apply(&mut t, vec![
        TableChangeEvents::ChangeColumnDataType(s("name"), DataType::INTEGER),
        TableChangeEvents::ChangeColumnDataType(s("name"), DataType::TEXT),
    ]);
    assert!(t.get_table_change_events().is_empty());
}

#[test]
fn type_change_of_added_column_changes_the_addition() {
    let mut t = users_session();
    apply(&mut t, vec![
        TableChangeEvents::AddColumn(s("age"), DataType::TEXT),
        TableChangeEvents::ChangeColumnDataType(s("age"), DataType::INTEGER),
    ]);
    assert_eq!(t.get_table_change_events(), vec![TableChangeEvents::AddColumn(s("age"), DataType::INTEGER)]);
}

#[test]
fn removing_renamed_column_removes_original() {
    let mut t = users_session();
    apply(&mut t, vec![
        TableChangeEvents::ChangeColumnName(s("name"), s("full_name")),
        TableChangeEvents::RemoveColumn(s("full_name")),
    ]);
    assert_eq!(t.get_table_change_events(), vec![TableChangeEvents::RemoveColumn(s("name"))]);
}

#[test]
fn removing_column_with_type_change() {
    let mut t = users_session();
    apply(&mut t, vec![
        TableChangeEvents::ChangeColumnDataType(s("name"), DataType::INTEGER),
        TableChangeEvents::RemoveColumn(s("name")),
    ]);
    assert_eq!(t.get_table_change_events(), vec![TableChangeEvents::RemoveColumn(s("name"))]);
}

#[test]
fn foreign_key_replaced_and_removed() {
    let mut t = users_session();
    apply(&mut t, vec![
        TableChangeEvents::AddForeignKey(fk("name", "a", "x")),
        TableChangeEvents::AddForeignKey(fk("name", "b", "y")),
    ]);
    assert_eq!(t.get_table_change_events(), vec![TableChangeEvents::AddForeignKey(fk("name", "b", "y"))]);
    apply(&mut t, vec![TableChangeEvents::RemoveForeignKey(s("name"))]);
    assert!(t.get_table_change_events().is_empty());
}

#[test]
fn foreign_key_readded_as_in_catalog_cancels_removal() {
    let mut t = TableInfo::new(s("orders"));
    t.set_table_info(vec![Column {
        name: s("user_id"),
        datatype: DataType::INTEGER,
        constraints: vec![Constraint::ForeignKey(s("users"), s("id"))],
    }]);
    apply(&mut t, vec![
        TableChangeEvents::RemoveForeignKey(s("user_id")),
        TableChangeEvents::AddForeignKey(fk("user_id", "users", "id")),
    ]);
    assert!(t.get_table_change_events().is_empty());
}

#[test]
fn foreign_key_to_another_target_keeps_removal() {
    let mut t = TableInfo::new(s("orders"));
    t.set_table_info(vec![Column {
        name: s("user_id"),
        datatype: DataType::INTEGER,
        constraints: vec![Constraint::ForeignKey(s("users"), s("id"))],
    }]);
    apply(&mut t, vec![
        TableChangeEvents::RemoveForeignKey(s("user_id")),
        TableChangeEvents::AddForeignKey(fk("user_id", "clients", "id")),
    ]);
    assert_eq!(t.get_table_change_events(), vec![
        TableChangeEvents::RemoveForeignKey(s("user_id")),
        TableChangeEvents::AddForeignKey(fk("user_id", "clients", "id")),
    ]);
}

#[test]
fn rename_moves_pending_primary_key_and_type_change() {
    let mut t = users_session();
    apply(&mut t, vec![
        TableChangeEvents::ChangeColumnDataType(s("name"), DataType::INTEGER),
        TableChangeEvents::AddPrimaryKey(s("name")),
        TableChangeEvents::ChangeColumnName(s("name"), s("code")),
    ]);
    assert_eq!(t.get_table_change_events(), vec![
        TableChangeEvents::ChangeColumnDataType(s("code"), DataType::INTEGER),
        TableChangeEvents::ChangeColumnName(s("name"), s("code")),
        TableChangeEvents::AddPrimaryKey(s("code")),
    ]);
}

#[test]
fn replay_keeps_table_name() {
    let history = vec![
        TableChangeEvents::ChangeTableName(s("a")),
        TableChangeEvents::AddColumn(s("x"), DataType::TEXT),
        TableChangeEvents::ChangeTableName(s("b")),
        TableChangeEvents::RemoveColumn(s("x")),
    ];
    let mut t = users_session();
    apply(&mut t, history.clone());
    let pending = t.get_table_change_events();
    assert_eq!(renamed_table_name(&s("users"), &pending), renamed_table_name(&s("users"), &history));
    assert_eq!(renamed_table_name(&s("users"), &pending), s("b"));
}

#[test]
fn primary_key_column_names_of_snapshot() {
    let t = users_session();
    assert_eq!(t.primary_key_column_names(), vec![s("id")]);
}

#[test]
fn catalog_rows_become_columns() {
    assert_eq!(DataType::from_catalog(&s("integer")), Some(DataType::INTEGER));
    assert_eq!(DataType::from_catalog(&s("timestamp without time zone")), Some(DataType::TIMESTAMP));
    assert_eq!(DataType::from_catalog(&s("jsonb")), None);
    let c = Column::from_catalog(
        s("user_id"),
        DataType::INTEGER,
        &vec![Some(s("PRIMARY KEY")), Some(s("FOREIGN KEY")), None],
        &vec![None, Some(s("users")), None],
        &vec![None, Some(s("id")), None],
    );
    assert_eq!(c.constraints, vec![Constraint::PrimaryKey, Constraint::ForeignKey(s("users"), s("id"))]);
}

#[test]
fn removing_renamed_column_folds_with_addition_of_old_name() {
    let mut t = TableInfo::new(s("users"));
    t.set_table_info(vec![Column { name: s("a"), datatype: DataType::INTEGER, constraints: vec![] }]);
    apply(&mut t, vec![
        TableChangeEvents::ChangeColumnName(s("a"), s("b")),
        TableChangeEvents::AddColumn(s("a"), DataType::TEXT),
        TableChangeEvents::RemoveColumn(s("b")),
    ]);
    assert_eq!(t.get_table_change_events(), vec![TableChangeEvents::ChangeColumnDataType(s("a"), DataType::TEXT)]);
}

#[test]
fn removing_renamed_column_readded_with_same_type_vanishes() {
    let mut t = TableInfo::new(s("users"));
    t.set_table_info(vec![Column { name: s("a"), datatype: DataType::INTEGER, constraints: vec![] }]);
    apply(&mut t, vec![
        TableChangeEvents::ChangeColumnName(s("a"), s("b")),
        TableChangeEvents::AddColumn(s("a"), DataType::INTEGER),
        TableChangeEvents::RemoveColumn(s("b")),
    ]);
    assert!(t.get_table_change_events().is_empty());
}

#[test]
fn removing_renamed_and_retyped_column() {
    let mut t = users_session();
    apply(&mut t, vec![
        TableChangeEvents::ChangeColumnName(s("name"), s("full_name")),
        TableChangeEvents::ChangeColumnDataType(s("full_name"), DataType::INTEGER),
        TableChangeEvents::RemoveColumn(s("full_name")),
    ]);
    assert_eq!(t.get_table_change_events(), vec![TableChangeEvents::RemoveColumn(s("name"))]);
}

#[test]
fn removing_twice_keeps_one_removal() {
    let mut t = users_session();
    apply(&mut t, vec![
        TableChangeEvents::RemoveColumn(s("name")),
        TableChangeEvents::RemoveColumn(s("name")),
    ]);
    assert_eq!(t.get_table_change_events(), vec![TableChangeEvents::RemoveColumn(s("name"))]);
}

#[test]
fn adding_after_removal_of_unknown_name_keeps_only_addition() {
    let mut t = users_session();
    apply(&mut t, vec![
        TableChangeEvents::RemoveColumn(s("ghost")),
        TableChangeEvents::AddColumn(s("ghost"), DataType::TEXT),
    ]);
    assert_eq!(t.get_table_change_events(), vec![TableChangeEvents::AddColumn(s("ghost"), DataType::TEXT)]);
}

#[test]
fn rename_table_to_catalog_name_drops_rename() {
    let mut t = users_session();
    apply(&mut t, vec![
        TableChangeEvents::AddColumn(s("email"), DataType::TEXT),
        TableChangeEvents::ChangeTableName(s("people")),
        TableChangeEvents::ChangeTableName(s("users")),
    ]);
    assert_eq!(t.get_table_change_events(), vec![TableChangeEvents::AddColumn(s("email"), DataType::TEXT)]);
    assert_eq!(t.columns_info().len(), 2);
}
