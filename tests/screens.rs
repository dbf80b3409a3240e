use schema_editor::form::{CreateTableFormMessage, CreateTableFormUI};
use schema_editor::schema::{Column, Constraint, DataType, TableGeneralInfo};
use schema_editor::ui::{ComponentsMessage, CurrentComponent, Home, HomeUI, UIComponents};

fn s(x: &str) -> String {
    String::from(x)
}

#[test]
fn form_edits_columns() {
    let mut f = CreateTableFormUI::new(None);
    assert!(f.table_in().columns.is_empty());
    f.update(CreateTableFormMessage::ShowOrRemoveCreateTableForm);
    assert_eq!(f.table_in().columns, vec![Column { name: s("id"), datatype: DataType::INTEGER, constraints: vec![Constraint::PrimaryKey] }]);
    f.update(CreateTableFormMessage::ShowOrRemoveCreateTableForm);
    assert_eq!(f.table_in().columns.len(), 1);
    f.update(CreateTableFormMessage::AddColumn);
    f.update(CreateTableFormMessage::UpdateColumnName(1, s("owner")));
    f.update(CreateTableFormMessage::UpdateColumnType(1, DataType::INTEGER));
    f.update(CreateTableFormMessage::AddForeignKey(1, s("users"), s("id")));
    f.update(CreateTableFormMessage::AddForeignKey(1, s("people"), s("id")));
    f.update(CreateTableFormMessage::SetOrRemovePrimaryKey(1));
    f.update(CreateTableFormMessage::UpdateTableName(s("pets")));
    assert_eq!(f.table_in().table_name, s("pets"));
    assert_eq!(f.table_in().columns[1], Column {
        name: s("owner"),
        datatype: DataType::INTEGER,
        constraints: vec![Constraint::ForeignKey(s("people"), s("id")), Constraint::PrimaryKey],
    });
    f.update(CreateTableFormMessage::SetOrRemovePrimaryKey(1));
    f.update(CreateTableFormMessage::RemoveForeignKey(1));
    assert!(f.table_in().columns[1].constraints.is_empty());
    f.update(CreateTableFormMessage::UpdateColumnName(9, s("ignored")));
    f.update(CreateTableFormMessage::RemoveColumn(9));
    assert_eq!(f.table_in().columns.len(), 2);
    f.update(CreateTableFormMessage::RemoveColumn(0));
    assert_eq!(f.table_in().columns[0].name, s("owner"));
    f.update(CreateTableFormMessage::ToggleForeignKeyDropdown(0));
    f.update(CreateTableFormMessage::ToggleForeignKeyTable(0, s("users")));
    f.update(CreateTableFormMessage::TableCreated(s("pets")));
    assert!(f.table_in().columns.is_empty());
    assert_eq!(f.table_in().table_name, s(""));
}

#[test]
fn form_keeps_tables_info() {
    let info = vec![TableGeneralInfo { table_name: s("users"), column_names: vec![s("id")], data_types: vec![s("integer")] }];
    let f = CreateTableFormUI::new(Some(info.clone()));
    assert_eq!(f.tables_general_info, Some(info));
}

#[test]
fn console_toggles() {
    let home = HomeUI::new(Home { title: Some(s("Tables")), tables: None });
    assert_eq!(home.home.title, Some(s("Tables")));
    let mut ui = UIComponents::new(home);
    assert!(!ui.show_console);
    assert_eq!(ui.current_component, CurrentComponent::Home);
    ui.update(ComponentsMessage::ShowOrRemoveConsole);
    assert!(ui.show_console);
    let again = ui.clone();
    ui.update(ComponentsMessage::InitializeComponents(again));
    assert!(ui.show_console);
    ui.update(ComponentsMessage::ShowOrRemoveConsole);
    assert!(!ui.show_console);
}
