use vstd::prelude::*;
use crate::schema::{default_key_column, Column, Constraint, DataType, TableGeneralInfo, TableIn};

verus! {

/// What a column of the form shows: its name, type and constraints.
pub type ColumnView = (Seq<char>, DataType, Seq<Constraint>);

pub open spec fn column_view(c: Column) -> ColumnView {
    (c.name@, c.datatype, c.constraints@)
}

/// The edits of the create-table form.
pub enum CreateTableFormMessage {
    AddColumn,
    RemoveColumn(usize),
    UpdateColumnName(usize, String),
    UpdateColumnType(usize, DataType),
    SetOrRemovePrimaryKey(usize),
    /// Column index, referenced table, referenced column.
    AddForeignKey(usize, String, String),
    RemoveForeignKey(usize),
    UpdateTableName(String),
    /// The table of the given name was created.
    TableCreated(String),
    SubmitCreateTable(TableIn),
    ShowOrRemoveCreateTableForm,
    ToggleForeignKeyDropdown(usize),
    /// Column index and table name.
    ToggleForeignKeyTable(usize, String),
}

/// Index of the first primary-key marker (`pk`) or foreign key (`!pk`) of
/// `cs`, or -1.
pub open spec fn first_constraint(cs: Seq<Constraint>, pk: bool) -> int
    decreases cs.len(),
{
    if cs.len() == 0 {
        -1
    } else {
        let f = first_constraint(cs.drop_last(), pk);
        if f >= 0 {
            f
        } else if (cs.last() is PrimaryKey) == pk {
            cs.len() - 1
        } else {
            -1
        }
    }
}

proof fn lemma_first_constraint(cs: Seq<Constraint>, pk: bool)
    ensures
        first_constraint(cs, pk) == -1 ==> forall|j: int| 0 <= j < cs.len() ==> ((#[trigger] cs[j]) is PrimaryKey) != pk,
        first_constraint(cs, pk) != -1 ==> {
            &&& 0 <= first_constraint(cs, pk) < cs.len()
            &&& (cs[first_constraint(cs, pk)] is PrimaryKey) == pk
            &&& forall|j: int| 0 <= j < first_constraint(cs, pk) ==> ((#[trigger] cs[j]) is PrimaryKey) != pk
        },
    decreases cs.len(),
{
    if cs.len() > 0 {
        let d = cs.drop_last();
        lemma_first_constraint(d, pk);
        assert forall|j: int| 0 <= j < cs.len() - 1 implies #[trigger] cs[j] == d[j] by {}
    }
}

fn find_constraint(cs: &Vec<Constraint>, pk: bool) -> (r: Option<usize>)
    ensures
        first_constraint(cs@, pk) == match r {
            Some(i) => i as int,
            None => -1,
        },
        r matches Some(i) ==> i < cs@.len(),
{
    let mut i: usize = 0;
    while i < cs.len()
        invariant
            i <= cs@.len(),
            forall|j: int| 0 <= j < i ==> ((#[trigger] cs@[j]) is PrimaryKey) != pk,
        decreases cs@.len() - i,
    {
        let is_pk = match &cs[i] {
            Constraint::PrimaryKey => true,
            Constraint::ForeignKey(_, _) => false,
        };
        if is_pk == pk {
            proof {
                lemma_first_constraint(cs@, pk);
                let f = first_constraint(cs@, pk);
                if f != -1 && f < i {
                    assert(((cs@[f]) is PrimaryKey) != pk);
                }
            }
            return Some(i);
        }
        i = i + 1;
    }
    proof {
        lemma_first_constraint(cs@, pk);
    }
    None
}

/// The constraints after toggling the primary-key marker.
pub open spec fn toggle_primary_key(cs: Seq<Constraint>) -> Seq<Constraint> {
    let p = first_constraint(cs, true);
    if p >= 0 { cs.remove(p) } else { cs.push(Constraint::PrimaryKey) }
}

/// The constraints after setting the one foreign key to `rt(rc)`.
pub open spec fn set_foreign_key(cs: Seq<Constraint>, rt: String, rc: String) -> Seq<Constraint> {
    let p = first_constraint(cs, false);
    let base = if p >= 0 { cs.remove(p) } else { cs };
    base.push(Constraint::ForeignKey(rt, rc))
}

/// The constraints without their foreign key.
pub open spec fn drop_foreign_key(cs: Seq<Constraint>) -> Seq<Constraint> {
    let p = first_constraint(cs, false);
    if p >= 0 { cs.remove(p) } else { cs }
}

/// The state of the form, as the user sees it: table name, columns, the column
/// whose foreign-key dropdown is open and the table unfolded in it.
pub type FormView = (Seq<char>, Seq<ColumnView>, Option<usize>, Option<Seq<char>>);

/// `cols` with the `i`-th column changed by `f`, where there is one.
pub open spec fn update_column(cols: Seq<ColumnView>, i: usize, f: spec_fn(ColumnView) -> ColumnView) -> Seq<ColumnView> {
    if i < cols.len() { cols.update(i as int, f(cols[i as int])) } else { cols }
}

/// The form after message `m`.
pub open spec fn form_step(v: FormView, m: CreateTableFormMessage) -> FormView {
    let (t, cols, fk_column, fk_table) = v;
    match m {
        CreateTableFormMessage::AddColumn => (t, cols.push((seq![], DataType::TEXT, seq![])), fk_column, fk_table),
        CreateTableFormMessage::RemoveColumn(i) => (t, if i < cols.len() { cols.remove(i as int) } else { cols }, fk_column, fk_table),
        CreateTableFormMessage::UpdateColumnName(i, n) => (t, update_column(cols, i, |c: ColumnView| (n@, c.1, c.2)), fk_column, fk_table),
        CreateTableFormMessage::UpdateColumnType(i, d) => (t, update_column(cols, i, |c: ColumnView| (c.0, d, c.2)), fk_column, fk_table),
        CreateTableFormMessage::SetOrRemovePrimaryKey(i) => (t, update_column(cols, i, |c: ColumnView| (c.0, c.1, toggle_primary_key(c.2))), fk_column, fk_table),
        CreateTableFormMessage::AddForeignKey(i, rt, rc) => (t, update_column(cols, i, |c: ColumnView| (c.0, c.1, set_foreign_key(c.2, rt, rc))), None, None),
        CreateTableFormMessage::RemoveForeignKey(i) => (t, update_column(cols, i, |c: ColumnView| (c.0, c.1, drop_foreign_key(c.2))), None, None),
        CreateTableFormMessage::UpdateTableName(n) => (n@, cols, fk_column, fk_table),
        CreateTableFormMessage::TableCreated(_) => (seq![], seq![], fk_column, fk_table),
        CreateTableFormMessage::SubmitCreateTable(_) => v,
        CreateTableFormMessage::ShowOrRemoveCreateTableForm => (t, if cols.len() == 0 {
            seq![("id"@, DataType::INTEGER, seq![Constraint::PrimaryKey])]
        } else {
            cols
        }, fk_column, fk_table),
        CreateTableFormMessage::ToggleForeignKeyDropdown(i) => (t, cols, if fk_column == Some(i) { None } else { Some(i) }, fk_table),
        CreateTableFormMessage::ToggleForeignKeyTable(_, n) => (t, cols, fk_column, if fk_table == Some(n@) { None } else { Some(n@) }),
    }
}

/// The form that describes a table to create.
pub struct CreateTableFormUI {
    create_table_input: TableIn,
    pub tables_general_info: Option<Vec<TableGeneralInfo>>,
    active_foreign_key_table_within_dropdown: Option<String>,
    active_foreign_key_dropdown_column: Option<usize>,
}

impl CreateTableFormUI {
    pub closed spec fn view(&self) -> FormView {
        (
            self.create_table_input.table_name@,
            self.create_table_input.columns@.map_values(|c: Column| column_view(c)),
            self.active_foreign_key_dropdown_column,
            match self.active_foreign_key_table_within_dropdown {
                Some(n) => Some(n@),
                None => None,
            },
        )
    }

    /// The catalog's tables offered as foreign-key targets.
    pub closed spec fn general_info(&self) -> Option<Vec<TableGeneralInfo>> {
        self.tables_general_info
    }

    pub fn new(tables_general_info: Option<Vec<TableGeneralInfo>>) -> (r: CreateTableFormUI)
        ensures
            r.view() == (Seq::<char>::empty(), Seq::<ColumnView>::empty(), Option::<usize>::None, Option::<Seq<char>>::None),
            r.general_info() == tables_general_info,
    {
        let r = CreateTableFormUI {
            create_table_input: TableIn::default(),
            tables_general_info,
            active_foreign_key_dropdown_column: None,
            active_foreign_key_table_within_dropdown: None,
        };
        assert(r.view().1 =~= Seq::<ColumnView>::empty());
        r
    }

    /// The table the form describes.
    pub fn table_in(&self) -> (r: &TableIn)
        ensures
            r.table_name@ == self.view().0,
            r.columns@.map_values(|c: Column| column_view(c)) == self.view().1,
    {
        &self.create_table_input
    }

    fn take_column(&mut self, i: usize) -> (c: Column)
        requires
            i < old(self).create_table_input.columns@.len(),
        ensures
            c == old(self).create_table_input.columns@[i as int],
            final(self).create_table_input.columns@ == old(self).create_table_input.columns@.remove(i as int),
            final(self).create_table_input.table_name == old(self).create_table_input.table_name,
            final(self).tables_general_info == old(self).tables_general_info,
            final(self).active_foreign_key_table_within_dropdown == old(self).active_foreign_key_table_within_dropdown,
            final(self).active_foreign_key_dropdown_column == old(self).active_foreign_key_dropdown_column,
    {
        self.create_table_input.columns.remove(i)
    }

    fn put_column(&mut self, i: usize, c: Column)
        requires
            i <= old(self).create_table_input.columns@.len(),
        ensures
            final(self).create_table_input.columns@ == old(self).create_table_input.columns@.insert(i as int, c),
            final(self).create_table_input.table_name == old(self).create_table_input.table_name,
            final(self).tables_general_info == old(self).tables_general_info,
            final(self).active_foreign_key_table_within_dropdown == old(self).active_foreign_key_table_within_dropdown,
            final(self).active_foreign_key_dropdown_column == old(self).active_foreign_key_dropdown_column,
    {
        self.create_table_input.columns.insert(i, c);
    }

    proof fn lemma_replace(cols: Seq<Column>, i: int, c: Column)
        requires
            0 <= i < cols.len(),
        ensures
            cols.remove(i).insert(i, c).map_values(|c: Column| column_view(c))
                == cols.map_values(|c: Column| column_view(c)).update(i, column_view(c)),
    {
        assert(cols.remove(i).insert(i, c).map_values(|c: Column| column_view(c))
            =~= cols.map_values(|c: Column| column_view(c)).update(i, column_view(c)));
    }

    /// Applies one edit of the form.
    pub fn update(&mut self, message: CreateTableFormMessage)
        ensures
            final(self).view() == form_step(old(self).view(), message),
            final(self).general_info() == old(self).general_info(),
    {
        let ghost cols = self.create_table_input.columns@;
        match message {
            CreateTableFormMessage::AddColumn => {
                let c = Column { name: String::new(), datatype: DataType::TEXT, constraints: Vec::new() };
                assert(column_view(c) == (Seq::<char>::empty(), DataType::TEXT, Seq::<Constraint>::empty()));
                self.create_table_input.columns.push(c);
                assert(self.view().1 =~= form_step(old(self).view(), message).1);
            },
            CreateTableFormMessage::RemoveColumn(index) => {
                if index < self.create_table_input.columns.len() {
                    self.create_table_input.columns.remove(index);
                }
                assert(self.view().1 =~= form_step(old(self).view(), message).1);
            },
            CreateTableFormMessage::UpdateColumnName(index, input) => {
                if index < self.create_table_input.columns.len() {
                    let mut c = self.take_column(index);
                    c.name = input;
                    self.put_column(index, c);
                    proof { Self::lemma_replace(cols, index as int, c); }
                }
            },
            CreateTableFormMessage::UpdateColumnType(index, input) => {
                if index < self.create_table_input.columns.len() {
                    let mut c = self.take_column(index);
                    c.datatype = input;
                    self.put_column(index, c);
                    proof { Self::lemma_replace(cols, index as int, c); }
                }
            },
            CreateTableFormMessage::SetOrRemovePrimaryKey(index) => {
                if index < self.create_table_input.columns.len() {
                    let mut c = self.take_column(index);
                    match find_constraint(&c.constraints, true) {
                        Some(p) => {
                            c.constraints.remove(p);
                        },
                        None => {
                            c.constraints.push(Constraint::PrimaryKey);
                        },
                    }
                    self.put_column(index, c);
                    proof { Self::lemma_replace(cols, index as int, c); }
                }
            },
            CreateTableFormMessage::AddForeignKey(index, referenced_table_name, referenced_column_name) => {
                if index < self.create_table_input.columns.len() {
                    let mut c = self.take_column(index);
                    if let Some(p) = find_constraint(&c.constraints, false) {
                        c.constraints.remove(p);
                    }
                    c.constraints.push(Constraint::ForeignKey(referenced_table_name, referenced_column_name));
                    self.put_column(index, c);
                    proof { Self::lemma_replace(cols, index as int, c); }
                }
                self.active_foreign_key_dropdown_column = None;
                self.active_foreign_key_table_within_dropdown = None;
            },
            CreateTableFormMessage::RemoveForeignKey(index) => {
                if index < self.create_table_input.columns.len() {
                    let mut c = self.take_column(index);
                    if let Some(p) = find_constraint(&c.constraints, false) {
                        c.constraints.remove(p);
                    }
                    self.put_column(index, c);
                    proof { Self::lemma_replace(cols, index as int, c); }
                }
                self.active_foreign_key_dropdown_column = None;
                self.active_foreign_key_table_within_dropdown = None;
            },
            CreateTableFormMessage::UpdateTableName(input) => {
                self.create_table_input.table_name = input;
            },
            CreateTableFormMessage::TableCreated(_) => {
                self.create_table_input = TableIn::default();
                assert(self.view().1 =~= Seq::<ColumnView>::empty());
            },
            CreateTableFormMessage::SubmitCreateTable(_) => {},
            CreateTableFormMessage::ShowOrRemoveCreateTableForm => {
                if self.create_table_input.columns.len() == 0 {
                    let c = default_key_column();
                    self.create_table_input.columns.push(c);
                    assert(self.view().1 =~= seq![column_view(c)]);
                }
            },
            CreateTableFormMessage::ToggleForeignKeyDropdown(index) => {
                if self.active_foreign_key_dropdown_column == Some(index) {
                    self.active_foreign_key_dropdown_column = None;
                } else {
                    self.active_foreign_key_dropdown_column = Some(index);
                }
            },
            CreateTableFormMessage::ToggleForeignKeyTable(_, table_name) => {
                let open = match &self.active_foreign_key_table_within_dropdown {
                    Some(current) => *current == table_name,
                    None => false,
                };
                if open {
                    self.active_foreign_key_table_within_dropdown = None;
                } else {
                    self.active_foreign_key_table_within_dropdown = Some(table_name);
                }
            },
        }
    }
}

} // verus!
