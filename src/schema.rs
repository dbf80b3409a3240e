use vstd::prelude::*;

verus! {

/// Column data types understood by the editor.
#[derive(Debug, Clone, Copy, PartialEq, Eq, Structural)]
pub enum DataType {
    TEXT,
    INTEGER,
    BOOLEAN,
    TIMESTAMP,
}

impl DataType {
    /// The SQL spelling of the type.
    pub open spec fn sql_spec(self) -> Seq<char> {
        match self {
            DataType::TEXT => "TEXT"@,
            DataType::INTEGER => "INTEGER"@,
            DataType::BOOLEAN => "BOOLEAN"@,
            DataType::TIMESTAMP => "TIMESTAMP"@,
        }
    }

    /// The type the catalog spells `s` in its `data_type` column.
    pub open spec fn catalog_spec(s: Seq<char>) -> Option<DataType> {
        if s == "text"@ {
            Some(DataType::TEXT)
        } else if s == "integer"@ {
            Some(DataType::INTEGER)
        } else if s == "boolean"@ {
            Some(DataType::BOOLEAN)
        } else if s == "timestamp without time zone"@ {
            Some(DataType::TIMESTAMP)
        } else {
            None
        }
    }

    pub fn from_catalog(s: &String) -> (r: Option<DataType>)
        ensures
            r == DataType::catalog_spec(s@),
    {
        if *s == String::from_str("text") {
            Some(DataType::TEXT)
        } else if *s == String::from_str("integer") {
            Some(DataType::INTEGER)
        } else if *s == String::from_str("boolean") {
            Some(DataType::BOOLEAN)
        } else if *s == String::from_str("timestamp without time zone") {
            Some(DataType::TIMESTAMP)
        } else {
            None
        }
    }

    pub fn to_sql(&self) -> (r: &'static str)
        ensures
            r@ == self.sql_spec(),
    {
        match self {
            DataType::TEXT => "TEXT",
            DataType::INTEGER => "INTEGER",
            DataType::BOOLEAN => "BOOLEAN",
            DataType::TIMESTAMP => "TIMESTAMP",
        }
    }
}

/// A constraint carried by a column.
#[derive(Debug, Clone, PartialEq, Eq)]
pub enum Constraint {
    PrimaryKey,
    /// Referenced table and referenced column.
    ForeignKey(String, String),
}

/// A column of a table as the catalog describes it.
#[derive(Debug, Clone, PartialEq, Eq)]
pub struct Column {
    pub name: String,
    pub datatype: DataType,
    pub constraints: Vec<Constraint>,
}

/// A foreign key to be placed on `column_name`.
#[derive(Debug, Clone, PartialEq, Eq)]
pub struct ColumnForeignKey {
    pub column_name: String,
    pub referenced_table: String,
    pub referenced_column: String,
}

/// One schema edit issued by the user.
#[derive(Debug, Clone, PartialEq, Eq)]
pub enum TableChangeEvents {
    ChangeTableName(String),
    ChangeColumnDataType(String, DataType),
    /// Old name, new name.
    ChangeColumnName(String, String),
    RemoveColumn(String),
    AddColumn(String, DataType),
    AddForeignKey(ColumnForeignKey),
    RemoveForeignKey(String),
    AddPrimaryKey(String),
    RemovePrimaryKey(String),
}

/// The description of a table to be created.
#[derive(Debug, Clone, PartialEq, Eq)]
pub struct TableIn {
    pub table_name: String,
    pub columns: Vec<Column>,
}

/// An equality filter on one column of a row.
#[derive(Debug, Clone, PartialEq, Eq)]
pub struct Condition {
    pub column_name: String,
    pub data_type: DataType,
    pub value: String,
}

/// A new value for one column of a row.
#[derive(Debug, Clone, PartialEq, Eq)]
pub struct ColumnValue {
    pub column_name: String,
    pub data_type: DataType,
    pub value: String,
}

/// New values for the columns of the rows that the conditions select; each
/// column is named once.
#[derive(Debug, Clone, PartialEq, Eq)]
pub struct RowColumnValue {
    pub conditions: Vec<Condition>,
    pub column_values: Vec<ColumnValue>,
}

/// A row to insert: the i-th value, of the i-th type, goes to the i-th column.
#[derive(Debug, Clone, PartialEq, Eq)]
pub struct RowInsertData {
    pub column_names: Vec<String>,
    pub values: Vec<String>,
    pub data_types: Vec<DataType>,
}

/// One row-level edit.
#[derive(Debug, Clone, PartialEq, Eq)]
pub enum TableDataChangeEvents {
    ModifyRowColumnValue(RowColumnValue),
    DeleteRow(Vec<Condition>),
    InsertRow(RowInsertData),
}

/// The constraints of a column from the catalog's aggregated rows: the i-th
/// constraint kind, with the i-th referenced table and column for a foreign key.
pub open spec fn catalog_constraints(kinds: Seq<Option<String>>, tables: Seq<Option<String>>, columns: Seq<Option<String>>) -> Seq<Constraint>
    decreases kinds.len(),
{
    if kinds.len() == 0 {
        seq![]
    } else {
        let prior = catalog_constraints(kinds.drop_last(), tables, columns);
        let i = kinds.len() - 1;
        match kinds.last() {
            Some(k) => if k@ == "PRIMARY KEY"@ {
                prior.push(Constraint::PrimaryKey)
            } else if k@ == "FOREIGN KEY"@ && i < tables.len() && i < columns.len() && tables[i] is Some && columns[i] is Some {
                prior.push(Constraint::ForeignKey(tables[i]->0, columns[i]->0))
            } else {
                prior
            },
            None => prior,
        }
    }
}

impl Column {
    /// The column described by one aggregated catalog row.
    pub fn from_catalog(
        name: String,
        datatype: DataType,
        constraint_types: &Vec<Option<String>>,
        referenced_tables: &Vec<Option<String>>,
        referenced_columns: &Vec<Option<String>>,
    ) -> (r: Column)
        ensures
            r.name == name,
            r.datatype == datatype,
            r.constraints@ == catalog_constraints(constraint_types@, referenced_tables@, referenced_columns@),
    {
        let mut constraints: Vec<Constraint> = Vec::new();
        let primary = String::from_str("PRIMARY KEY");
        let foreign = String::from_str("FOREIGN KEY");
        let mut i: usize = 0;
        while i < constraint_types.len()
            invariant
                i <= constraint_types@.len(),
                primary@ == "PRIMARY KEY"@,
                foreign@ == "FOREIGN KEY"@,
                constraints@ == catalog_constraints(constraint_types@.subrange(0, i as int), referenced_tables@, referenced_columns@),
            decreases constraint_types@.len() - i,
        {
            proof {
                assert(constraint_types@.subrange(0, i + 1).drop_last() =~= constraint_types@.subrange(0, i as int));
            }
            if let Some(k) = &constraint_types[i] {
                if *k == primary {
                    constraints.push(Constraint::PrimaryKey);
                } else if *k == foreign && i < referenced_tables.len() && i < referenced_columns.len() {
                    if let (Some(t), Some(c)) = (&referenced_tables[i], &referenced_columns[i]) {
                        constraints.push(Constraint::ForeignKey(t.clone(), c.clone()));
                    }
                }
            }
            i = i + 1;
        }
        assert(constraint_types@.subrange(0, constraint_types@.len() as int) =~= constraint_types@);
        Column { name, datatype, constraints }
    }

    pub open spec fn is_primary_key(&self) -> bool {
        exists|i: int| 0 <= i < self.constraints@.len() && self.constraints@[i] is PrimaryKey
    }

    /// Whether the column carries a primary-key marker.
    pub fn has_primary_key(&self) -> (r: bool)
        ensures
            r == self.is_primary_key(),
    {
        let mut i: usize = 0;
        while i < self.constraints.len()
            invariant
                i <= self.constraints@.len(),
                forall|j: int| 0 <= j < i ==> !(self.constraints@[j] is PrimaryKey),
            decreases self.constraints@.len() - i,
        {
            if let Constraint::PrimaryKey = &self.constraints[i] {
                return true;
            }
            i = i + 1;
        }
        false
    }
}

/// A table of the catalog, for choosing the target of a foreign key.
#[derive(Debug, Clone, PartialEq, Eq)]
pub struct TableGeneralInfo {
    pub table_name: String,
    pub column_names: Vec<String>,
    pub data_types: Vec<String>,
}

/// The column `id INTEGER PRIMARY KEY` that a table without a key receives.
pub open spec fn is_default_key_column(c: Column) -> bool {
    &&& c.name@ == "id"@
    &&& c.datatype == DataType::INTEGER
    &&& c.constraints@ == seq![Constraint::PrimaryKey]
}

pub fn default_key_column() -> (r: Column)
    ensures
        is_default_key_column(r),
{
    let mut constraints: Vec<Constraint> = Vec::new();
    constraints.push(Constraint::PrimaryKey);
    assert(constraints@ =~= seq![Constraint::PrimaryKey]);
    Column { name: String::from_str("id"), datatype: DataType::INTEGER, constraints }
}

/// Whether some column of `cols` carries a primary-key marker.
pub open spec fn has_key_column(cols: Seq<Column>) -> bool {
    exists|i: int| 0 <= i < cols.len() && (#[trigger] cols[i]).is_primary_key()
}

/// The table as it is created: one without a primary-key column gets the
/// column `id INTEGER PRIMARY KEY` appended.
pub fn with_default_primary_key(table_in: TableIn) -> (r: TableIn)
    ensures
        r.table_name == table_in.table_name,
        has_key_column(table_in.columns@) ==> r.columns@ == table_in.columns@,
        !has_key_column(table_in.columns@) ==> {
            &&& r.columns@.len() == table_in.columns@.len() + 1
            &&& r.columns@.drop_last() == table_in.columns@
            &&& is_default_key_column(r.columns@.last())
        },
{
    let ghost cols = table_in.columns@;
    let mut i: usize = 0;
    while i < table_in.columns.len()
        invariant
            i <= table_in.columns@.len(),
            forall|j: int| 0 <= j < i ==> !(#[trigger] table_in.columns@[j]).is_primary_key(),
        decreases table_in.columns@.len() - i,
    {
        if table_in.columns[i].has_primary_key() {
            return table_in;
        }
        i = i + 1;
    }
    let mut r = table_in;
    r.columns.push(default_key_column());
    assert(r.columns@.drop_last() =~= cols);
    r
}

impl TableIn {
    pub fn default() -> (r: TableIn)
        ensures
            r.table_name@ == Seq::<char>::empty(),
            r.columns@.len() == 0,
    {
        TableIn { table_name: String::new(), columns: Vec::new() }
    }
}

} // verus!
