use vstd::prelude::*;
use crate::ddl::{alter_table_queries, alter_table_statements, renamed_table, renamed_table_name, views, alter_inputs_valid, ValidationError};
use crate::schema::{Column, ColumnForeignKey, Constraint, DataType, TableChangeEvents};

verus! {

/// The kinds of pending entry that the engine looks up by column name.
#[derive(Debug, Clone, Copy, PartialEq, Eq, Structural)]
pub enum EventKind {
    ChangeTableName,
    ChangeColumnDataType,
    /// A column rename, looked up by its new name.
    RenameTarget,
    RemoveColumn,
    AddColumn,
    AddForeignKey,
    RemoveForeignKey,
    AddPrimaryKey,
    RemovePrimaryKey,
}

/// Whether pending entry `e` is of kind `k` and concerns column `c`
/// (a table rename matches whatever `c` is).
pub open spec fn entry_matches(e: TableChangeEvents, k: EventKind, c: Seq<char>) -> bool {
    match e {
        TableChangeEvents::ChangeTableName(_) => k is ChangeTableName,
        TableChangeEvents::ChangeColumnDataType(n, _) => k is ChangeColumnDataType && n@ == c,
        TableChangeEvents::ChangeColumnName(_, n) => k is RenameTarget && n@ == c,
        TableChangeEvents::RemoveColumn(n) => k is RemoveColumn && n@ == c,
        TableChangeEvents::AddColumn(n, _) => k is AddColumn && n@ == c,
        TableChangeEvents::AddForeignKey(fk) => k is AddForeignKey && fk.column_name@ == c,
        TableChangeEvents::RemoveForeignKey(n) => k is RemoveForeignKey && n@ == c,
        TableChangeEvents::AddPrimaryKey(n) => k is AddPrimaryKey && n@ == c,
        TableChangeEvents::RemovePrimaryKey(n) => k is RemovePrimaryKey && n@ == c,
    }
}

/// Index of the first entry of `s` that matches `k` and `c`, or -1.
pub open spec fn find_entry(s: Seq<TableChangeEvents>, k: EventKind, c: Seq<char>) -> int
    decreases s.len(),
{
    if s.len() == 0 {
        -1
    } else {
        let f = find_entry(s.drop_last(), k, c);
        if f >= 0 {
            f
        } else if entry_matches(s.last(), k, c) {
            s.len() - 1
        } else {
            -1
        }
    }
}

pub proof fn lemma_find_entry(s: Seq<TableChangeEvents>, k: EventKind, c: Seq<char>)
    ensures
        find_entry(s, k, c) == -1 ==> forall|j: int|
            0 <= j < s.len() ==> !entry_matches(#[trigger] s[j], k, c),
        find_entry(s, k, c) != -1 ==> {
            &&& 0 <= find_entry(s, k, c) < s.len()
            &&& entry_matches(s[find_entry(s, k, c)], k, c)
            &&& forall|j: int| 0 <= j < find_entry(s, k, c) ==> !entry_matches(#[trigger] s[j], k, c)
        },
    decreases s.len(),
{
    if s.len() > 0 {
        let d = s.drop_last();
        lemma_find_entry(d, k, c);
        assert forall|j: int| 0 <= j < s.len() - 1 implies #[trigger] s[j] == d[j] by {}
        let f = find_entry(d, k, c);
        if f >= 0 {
            assert(find_entry(s, k, c) == f);
            assert(s[f] == d[f]);
        } else {
            assert forall|j: int| 0 <= j < s.len() - 1 implies !entry_matches(#[trigger] s[j], k, c) by {
                assert(s[j] == d[j]);
            }
        }
    }
}

/// Index of the first column of `cols` named `c`, or -1.
pub open spec fn find_column(cols: Seq<Column>, c: Seq<char>) -> int
    decreases cols.len(),
{
    if cols.len() == 0 {
        -1
    } else {
        let f = find_column(cols.drop_last(), c);
        if f >= 0 {
            f
        } else if cols.last().name@ == c {
            cols.len() - 1
        } else {
            -1
        }
    }
}

pub proof fn lemma_find_column(cols: Seq<Column>, c: Seq<char>)
    ensures
        find_column(cols, c) == -1 ==> forall|j: int|
            0 <= j < cols.len() ==> (#[trigger] cols[j]).name@ != c,
        find_column(cols, c) != -1 ==> {
            &&& 0 <= find_column(cols, c) < cols.len()
            &&& cols[find_column(cols, c)].name@ == c
            &&& forall|j: int| 0 <= j < find_column(cols, c) ==> (#[trigger] cols[j]).name@ != c
        },
    decreases cols.len(),
{
    if cols.len() > 0 {
        let d = cols.drop_last();
        lemma_find_column(d, c);
        let f = find_column(d, c);
        assert forall|j: int| 0 <= j < cols.len() - 1 implies #[trigger] cols[j] == d[j] by {}
        if f >= 0 {
            assert(cols[f] == d[f]);
        } else {
            assert forall|j: int| 0 <= j < cols.len() - 1 implies (#[trigger] cols[j]).name@ != c by {
                assert(cols[j] == d[j]);
            }
        }
    }
}

/// The catalog type of column `c`, if the catalog has such a column.
pub open spec fn catalog_type(cols: Seq<Column>, c: Seq<char>) -> Option<DataType> {
    let j = find_column(cols, c);
    if j >= 0 { Some(cols[j].datatype) } else { None }
}

/// Whether the catalog column `c` already references `rt(rc)`.
pub open spec fn catalog_has_foreign_key(cols: Seq<Column>, c: Seq<char>, rt: Seq<char>, rc: Seq<char>) -> bool {
    let j = find_column(cols, c);
    j >= 0 && exists|i: int| 0 <= i < cols[j].constraints@.len() && match #[trigger] cols[j].constraints@[i] {
        Constraint::ForeignKey(a, b) => a@ == rt && b@ == rc,
        Constraint::PrimaryKey => false,
    }
}

/// `s` without its first entry of kind `k` on `c`, if there is one.
pub open spec fn drop_entry(s: Seq<TableChangeEvents>, k: EventKind, c: Seq<char>) -> Seq<TableChangeEvents> {
    let i = find_entry(s, k, c);
    if i >= 0 { s.remove(i) } else { s }
}

/// Pending set after `AddColumn(c, t)`; a pending removal of `c` folds with
/// it (a name the catalog lacks just gets the addition).
pub open spec fn after_add_column(s: Seq<TableChangeEvents>, cols: Seq<Column>, c: String, t: DataType) -> Seq<TableChangeEvents> {
    let i = find_entry(s, EventKind::RemoveColumn, c@);
    if i >= 0 && catalog_type(cols, c@) == Some(t) {
        s.remove(i)
    } else if i >= 0 && catalog_type(cols, c@) is Some {
        s.remove(i).push(TableChangeEvents::ChangeColumnDataType(c, t))
    } else if i >= 0 {
        s.remove(i).push(TableChangeEvents::AddColumn(c, t))
    } else {
        s.push(TableChangeEvents::AddColumn(c, t))
    }
}

/// Pending set after `ChangeTableName(n)`, for a table whose catalog name is `t`:
/// a rename to the name the table already has changes nothing, one back to `t`
/// drops the pending rename, any other replaces it.
pub open spec fn after_change_table_name(s: Seq<TableChangeEvents>, t: String, n: String) -> Seq<TableChangeEvents> {
    let i = find_entry(s, EventKind::ChangeTableName, t@);
    if i >= 0 {
        match s[i] {
            TableChangeEvents::ChangeTableName(cur) => if cur@ == n@ {
                s
            } else if n@ == t@ {
                s.remove(i)
            } else {
                s.remove(i).push(TableChangeEvents::ChangeTableName(n))
            },
            _ => s,
        }
    } else if n@ == t@ {
        s
    } else {
        s.push(TableChangeEvents::ChangeTableName(n))
    }
}

/// Pending set after `ChangeColumnDataType(c, t)`.
pub open spec fn after_change_column_datatype(s: Seq<TableChangeEvents>, cols: Seq<Column>, c: String, t: DataType) -> Seq<TableChangeEvents> {
    let i = find_entry(s, EventKind::ChangeColumnDataType, c@);
    let k = find_entry(s, EventKind::AddColumn, c@);
    if i >= 0 {
        if catalog_type(cols, c@) == Some(t) {
            s.remove(i)
        } else {
            s.remove(i).push(TableChangeEvents::ChangeColumnDataType(c, t))
        }
    } else if k >= 0 {
        match s[k] {
            TableChangeEvents::AddColumn(_, t0) => if t0 != t {
                s.remove(k).push(TableChangeEvents::AddColumn(c, t))
            } else {
                s
            },
            _ => s,
        }
    } else {
        s.push(TableChangeEvents::ChangeColumnDataType(c, t))
    }
}

/// A pending type change of `c` re-keyed to `n`.
pub open spec fn rekey_type_change(s: Seq<TableChangeEvents>, c: Seq<char>, n: String) -> Seq<TableChangeEvents> {
    let i = find_entry(s, EventKind::ChangeColumnDataType, c);
    if i >= 0 {
        match s[i] {
            TableChangeEvents::ChangeColumnDataType(_, t) => s.remove(i).push(TableChangeEvents::ChangeColumnDataType(n, t)),
            _ => s,
        }
    } else {
        s
    }
}

/// The rename itself, merged with a pending rename or addition of `c`.
pub open spec fn merge_rename(s: Seq<TableChangeEvents>, cols: Seq<Column>, c: String, n: String) -> Seq<TableChangeEvents> {
    let i = find_entry(s, EventKind::RenameTarget, c@);
    let k = find_entry(s, EventKind::AddColumn, c@);
    if i >= 0 {
        match s[i] {
            TableChangeEvents::ChangeColumnName(orig, _) => if orig@ != n@ {
                s.push(TableChangeEvents::ChangeColumnName(orig, n)).remove(i)
            } else {
                s.remove(i)
            },
            _ => s,
        }
    } else if k >= 0 {
        match s[k] {
            TableChangeEvents::AddColumn(_, t) => after_add_column(s.remove(k), cols, n, t),
            _ => s,
        }
    } else {
        s.push(TableChangeEvents::ChangeColumnName(c, n))
    }
}

/// A pending primary-key addition on `c` re-keyed to `n`.
pub open spec fn rekey_primary_key(s: Seq<TableChangeEvents>, c: Seq<char>, n: String) -> Seq<TableChangeEvents> {
    let i = find_entry(s, EventKind::AddPrimaryKey, c);
    if i >= 0 { s.remove(i).push(TableChangeEvents::AddPrimaryKey(n)) } else { s }
}

/// Pending set after `ChangeColumnName(c, n)`.
pub open spec fn after_change_column_name(s: Seq<TableChangeEvents>, cols: Seq<Column>, c: String, n: String) -> Seq<TableChangeEvents> {
    if c@ == n@ {
        s
    } else {
        rekey_primary_key(merge_rename(rekey_type_change(s, c@, n), cols, c, n), c@, n)
    }
}

/// `s` with a removal of `c`, unless one is pending already.
pub open spec fn push_remove(s: Seq<TableChangeEvents>, c: String) -> Seq<TableChangeEvents> {
    if find_entry(s, EventKind::RemoveColumn, c@) >= 0 {
        s
    } else {
        s.push(TableChangeEvents::RemoveColumn(c))
    }
}

/// Removal of the catalog column `orig` (renamed, then removed). A pending
/// addition of a new column under the name `orig` folds with it, as an
/// addition after a removal does.
pub open spec fn remove_original(s: Seq<TableChangeEvents>, cols: Seq<Column>, orig: String) -> Seq<TableChangeEvents> {
    let a = find_entry(s, EventKind::AddColumn, orig@);
    if a >= 0 {
        match s[a] {
            TableChangeEvents::AddColumn(_, ta) => match catalog_type(cols, orig@) {
                Some(t0) => if t0 == ta {
                    s.remove(a)
                } else {
                    s.remove(a).push(TableChangeEvents::ChangeColumnDataType(orig, ta))
                },
                None => s,
            },
            _ => s,
        }
    } else {
        push_remove(s, orig)
    }
}

/// Pending set after `RemoveColumn(c)`.
pub open spec fn after_remove_column(s: Seq<TableChangeEvents>, cols: Seq<Column>, c: String) -> Seq<TableChangeEvents> {
    let s2 = drop_entry(drop_entry(s, EventKind::AddPrimaryKey, c@), EventKind::AddForeignKey, c@);
    let k = find_entry(s2, EventKind::AddColumn, c@);
    let s3 = drop_entry(s2, EventKind::ChangeColumnDataType, c@);
    let r = find_entry(s3, EventKind::RenameTarget, c@);
    if k >= 0 {
        s2.remove(k)
    } else if r >= 0 {
        match s3[r] {
            TableChangeEvents::ChangeColumnName(orig, _) => remove_original(s3.remove(r), cols, orig),
            _ => s3,
        }
    } else {
        push_remove(s3, c)
    }
}

/// Pending set after `AddPrimaryKey(c)`.
pub open spec fn after_add_primary_key(s: Seq<TableChangeEvents>, c: String) -> Seq<TableChangeEvents> {
    let i = find_entry(s, EventKind::RemovePrimaryKey, c@);
    if i >= 0 { s.remove(i) } else { s.push(TableChangeEvents::AddPrimaryKey(c)) }
}

/// Pending set after `RemovePrimaryKey(c)`.
pub open spec fn after_remove_primary_key(s: Seq<TableChangeEvents>, c: String) -> Seq<TableChangeEvents> {
    let i = find_entry(s, EventKind::AddPrimaryKey, c@);
    if i >= 0 { s.remove(i) } else { s.push(TableChangeEvents::RemovePrimaryKey(c)) }
}

/// Pending set after `AddForeignKey(fk)`.
pub open spec fn after_add_foreign_key(s: Seq<TableChangeEvents>, cols: Seq<Column>, fk: ColumnForeignKey) -> Seq<TableChangeEvents> {
    let c = fk.column_name@;
    let i = find_entry(s, EventKind::AddForeignKey, c);
    let r = find_entry(s, EventKind::RemoveForeignKey, c);
    if i >= 0 {
        s.remove(i).push(TableChangeEvents::AddForeignKey(fk))
    } else if r >= 0 && catalog_has_foreign_key(cols, c, fk.referenced_table@, fk.referenced_column@) {
        s.remove(r)
    } else {
        s.push(TableChangeEvents::AddForeignKey(fk))
    }
}

/// Pending set after `RemoveForeignKey(c)`.
pub open spec fn after_remove_foreign_key(s: Seq<TableChangeEvents>, c: String) -> Seq<TableChangeEvents> {
    let i = find_entry(s, EventKind::AddForeignKey, c@);
    if i >= 0 { s.remove(i) } else { s.push(TableChangeEvents::RemoveForeignKey(c)) }
}

/// The pending set after folding edit `e` into `s`, for a table whose catalog
/// name is `t` and whose catalog columns are `cols`.
pub open spec fn coalesce(s: Seq<TableChangeEvents>, cols: Seq<Column>, t: String, e: TableChangeEvents) -> Seq<TableChangeEvents> {
    match e {
        TableChangeEvents::ChangeTableName(n) => after_change_table_name(s, t, n),
        TableChangeEvents::ChangeColumnDataType(c, d) => after_change_column_datatype(s, cols, c, d),
        TableChangeEvents::ChangeColumnName(c, n) => after_change_column_name(s, cols, c, n),
        TableChangeEvents::RemoveColumn(c) => after_remove_column(s, cols, c),
        TableChangeEvents::AddColumn(c, d) => after_add_column(s, cols, c, d),
        TableChangeEvents::AddForeignKey(fk) => after_add_foreign_key(s, cols, fk),
        TableChangeEvents::RemoveForeignKey(c) => after_remove_foreign_key(s, c),
        TableChangeEvents::AddPrimaryKey(c) => after_add_primary_key(s, c),
        TableChangeEvents::RemovePrimaryKey(c) => after_remove_primary_key(s, c),
    }
}

/// The pending set after folding every edit of `h`, in order, into `s`.
pub open spec fn coalesce_all(s: Seq<TableChangeEvents>, cols: Seq<Column>, t: String, h: Seq<TableChangeEvents>) -> Seq<TableChangeEvents>
    decreases h.len(),
{
    if h.len() == 0 {
        s
    } else {
        coalesce(coalesce_all(s, cols, t, h.drop_last()), cols, t, h.last())
    }
}

fn entry_matches_exec(e: &TableChangeEvents, k: EventKind, c: &String) -> (r: bool)
    ensures
        r == entry_matches(*e, k, c@),
{
    match e {
        TableChangeEvents::ChangeTableName(_) => k == EventKind::ChangeTableName,
        TableChangeEvents::ChangeColumnDataType(n, _) => k == EventKind::ChangeColumnDataType && *n == *c,
        TableChangeEvents::ChangeColumnName(_, n) => k == EventKind::RenameTarget && *n == *c,
        TableChangeEvents::RemoveColumn(n) => k == EventKind::RemoveColumn && *n == *c,
        TableChangeEvents::AddColumn(n, _) => k == EventKind::AddColumn && *n == *c,
        TableChangeEvents::AddForeignKey(fk) => k == EventKind::AddForeignKey && fk.column_name == *c,
        TableChangeEvents::RemoveForeignKey(n) => k == EventKind::RemoveForeignKey && *n == *c,
        TableChangeEvents::AddPrimaryKey(n) => k == EventKind::AddPrimaryKey && *n == *c,
        TableChangeEvents::RemovePrimaryKey(n) => k == EventKind::RemovePrimaryKey && *n == *c,
    }
}

/// The position of the first entry of kind `k` on column `c`.
pub fn find_existing_event(events: &Vec<TableChangeEvents>, k: EventKind, c: &String) -> (r: Option<usize>)
    ensures
        find_entry(events@, k, c@) == match r {
            Some(i) => i as int,
            None => -1,
        },
        r matches Some(i) ==> i < events@.len() && entry_matches(events@[i as int], k, c@),
{
    proof {
        lemma_find_entry(events@, k, c@);
    }
    let mut i: usize = 0;
    while i < events.len()
        invariant
            i <= events@.len(),
            forall|j: int| 0 <= j < i ==> !entry_matches(#[trigger] events@[j], k, c@),
        decreases events@.len() - i,
    {
        if entry_matches_exec(&events[i], k, c) {
            assert(entry_matches(events@[i as int], k, c@));
            proof {
                lemma_find_entry(events@, k, c@);
                let f = find_entry(events@, k, c@);
                if f != i as int && f != -1 {
                    if f < i as int {
                        assert(!entry_matches(events@[f], k, c@));
                    }
                }
            }
            return Some(i);
        }
        i = i + 1;
    }
    None
}

/// The position of the catalog column named `c`.
pub fn find_existing_column(cols: &Vec<Column>, c: &String) -> (r: Option<usize>)
    ensures
        find_column(cols@, c@) == match r {
            Some(i) => i as int,
            None => -1,
        },
        r matches Some(i) ==> i < cols@.len() && cols@[i as int].name@ == c@,
{
    proof {
        lemma_find_column(cols@, c@);
    }
    let mut i: usize = 0;
    while i < cols.len()
        invariant
            i <= cols@.len(),
            forall|j: int| 0 <= j < i ==> (#[trigger] cols@[j]).name@ != c@,
        decreases cols@.len() - i,
    {
        if cols[i].name == *c {
            assert(cols@[i as int].name@ == c@);
            proof {
                lemma_find_column(cols@, c@);
                let f = find_column(cols@, c@);
                if f != i as int && f != -1 {
                    if f < i as int {
                        assert(cols@[f].name@ != c@);
                    }
                }
            }
            return Some(i);
        }
        i = i + 1;
    }
    None
}

/// A copy of `e`.
pub fn clone_event(e: &TableChangeEvents) -> (r: TableChangeEvents)
    ensures
        r == *e,
{
    match e {
        TableChangeEvents::ChangeTableName(n) => TableChangeEvents::ChangeTableName(n.clone()),
        TableChangeEvents::ChangeColumnDataType(n, t) => TableChangeEvents::ChangeColumnDataType(n.clone(), *t),
        TableChangeEvents::ChangeColumnName(a, b) => TableChangeEvents::ChangeColumnName(a.clone(), b.clone()),
        TableChangeEvents::RemoveColumn(n) => TableChangeEvents::RemoveColumn(n.clone()),
        TableChangeEvents::AddColumn(n, t) => TableChangeEvents::AddColumn(n.clone(), *t),
        TableChangeEvents::AddForeignKey(fk) => TableChangeEvents::AddForeignKey(
            ColumnForeignKey {
                column_name: fk.column_name.clone(),
                referenced_table: fk.referenced_table.clone(),
                referenced_column: fk.referenced_column.clone(),
            },
        ),
        TableChangeEvents::RemoveForeignKey(n) => TableChangeEvents::RemoveForeignKey(n.clone()),
        TableChangeEvents::AddPrimaryKey(n) => TableChangeEvents::AddPrimaryKey(n.clone()),
        TableChangeEvents::RemovePrimaryKey(n) => TableChangeEvents::RemovePrimaryKey(n.clone()),
    }
}

/// The names of the primary-key columns of `cols`, in column order.
pub open spec fn primary_key_names(cols: Seq<Column>) -> Seq<Seq<char>>
    decreases cols.len(),
{
    if cols.len() == 0 {
        seq![]
    } else {
        let p = primary_key_names(cols.drop_last());
        if cols.last().is_primary_key() {
            p.push(cols.last().name@)
        } else {
            p
        }
    }
}

/// The names of the primary-key columns of `cols`, in column order.
pub fn primary_key_columns(cols: &Vec<Column>) -> (r: Vec<String>)
    ensures
        views(r@) == primary_key_names(cols@),
{
    let mut r: Vec<String> = Vec::new();
    let mut i: usize = 0;
    while i < cols.len()
        invariant
            i <= cols@.len(),
            views(r@) == primary_key_names(cols@.subrange(0, i as int)),
        decreases cols@.len() - i,
    {
        proof {
            assert(cols@.subrange(0, i + 1).drop_last() =~= cols@.subrange(0, i as int));
        }
        if cols[i].has_primary_key() {
            let ghost before = r@;
            r.push(cols[i].name.clone());
            assert(views(r@) =~= views(before).push(cols@[i as int].name@));
        }
        i = i + 1;
    }
    assert(cols@.subrange(0, cols@.len() as int) =~= cols@);
    r
}

/// One table-editing session: the catalog snapshot of a table and the
/// pending change-set built from the user's edits.
#[derive(Debug)]
pub struct TableInfo {
    table_name: String,
    columns_info: Vec<Column>,
    table_change_events: Vec<TableChangeEvents>,
}

impl TableInfo {
    /// The pending change-set.
    pub closed spec fn pending(&self) -> Seq<TableChangeEvents> {
        self.table_change_events@
    }

    /// The pending set keeps the invariants of `pending_wf`.
    pub open spec fn wf(&self) -> bool {
        pending_wf(self.pending(), self.name()@)
    }

    /// The catalog name of the table.
    pub closed spec fn name(&self) -> String {
        self.table_name
    }

    /// The catalog snapshot of the columns.
    pub closed spec fn columns(&self) -> Seq<Column> {
        self.columns_info@
    }

    /// The catalog snapshot is left as it was.
    pub open spec fn same_snapshot(&self, other: &TableInfo) -> bool {
        &&& self.name() == other.name()
        &&& self.columns() == other.columns()
    }

    pub fn new(table_name: String) -> (r: TableInfo)
        ensures
            r.name() == table_name,
            r.columns().len() == 0,
            r.pending().len() == 0,
            r.wf(),
    {
        TableInfo { table_name, columns_info: Vec::new(), table_change_events: Vec::new() }
    }

    /// The catalog name of the table.
    pub fn table_name(&self) -> (r: &String)
        ensures
            *r == self.name(),
    {
        &self.table_name
    }

    /// The catalog snapshot of the columns.
    pub fn columns_info(&self) -> (r: &Vec<Column>)
        ensures
            r@ == self.columns(),
    {
        &self.columns_info
    }

    /// Installs a freshly fetched catalog snapshot of the columns.
    pub fn set_table_info(&mut self, columns_info: Vec<Column>)
        ensures
            final(self).columns() == columns_info@,
            final(self).name() == old(self).name(),
            final(self).pending() == old(self).pending(),
    {
        self.columns_info = columns_info;
    }

    pub fn get_table_change_events(&self) -> (r: Vec<TableChangeEvents>)
        ensures
            r@ == self.pending(),
    {
        let mut r: Vec<TableChangeEvents> = Vec::new();
        let mut i: usize = 0;
        while i < self.table_change_events.len()
            invariant
                i <= self.table_change_events@.len(),
                r@ == self.table_change_events@.subrange(0, i as int),
            decreases self.table_change_events@.len() - i,
        {
            r.push(clone_event(&self.table_change_events[i]));
            i = i + 1;
            assert(r@ =~= self.table_change_events@.subrange(0, i as int));
        }
        assert(r@ =~= self.table_change_events@);
        r
    }

    /// Folds one edit into the pending change-set.
    pub fn add_table_change_event(&mut self, table_change_event: TableChangeEvents)
        ensures
            final(self).pending() == coalesce(old(self).pending(), old(self).columns(), old(self).name(), table_change_event),
            final(self).same_snapshot(old(self)),
            old(self).wf() ==> final(self).wf(),
    {
        proof {
            if old(self).wf() {
                lemma_step(self.table_name, self.table_change_events@, self.columns_info@, table_change_event);
            }
        }
        match table_change_event {
            TableChangeEvents::ChangeTableName(n) => self.handle_change_table_name(n),
            TableChangeEvents::ChangeColumnDataType(c, t) => self.handle_change_column_datatype(c, t),
            TableChangeEvents::ChangeColumnName(c, n) => self.handle_change_column_name(c, n),
            TableChangeEvents::RemoveColumn(c) => self.handle_remove_column(c),
            TableChangeEvents::AddColumn(c, t) => self.handle_add_column(c, t),
            TableChangeEvents::AddForeignKey(fk) => self.handle_add_foreign_key(fk),
            TableChangeEvents::RemoveForeignKey(c) => self.handle_remove_foreign_key(c),
            TableChangeEvents::AddPrimaryKey(c) => self.handle_add_primary_key(c),
            TableChangeEvents::RemovePrimaryKey(c) => self.handle_remove_primary_key(c),
        }
    }

    /// The catalog's primary-key columns, in column order.
    pub fn primary_key_column_names(&self) -> (r: Vec<String>)
        ensures
            views(r@) == primary_key_names(self.columns()),
    {
        primary_key_columns(&self.columns_info)
    }

    /// The DDL batch for the pending set, against the primary key of the
    /// snapshot and the catalog's primary-key constraint name.
    pub fn alter_table_queries(&self, primary_key_constraint: &Option<String>) -> (r: Result<Vec<String>, ValidationError>)
        ensures
            alter_inputs_valid(self.name()@, self.pending(), primary_key_names(self.columns()),
                match primary_key_constraint { Some(c) => Some(c@), None => None }) <==> r is Ok,
            r matches Ok(qs) ==> views(qs@) == alter_table_statements(self.name()@, self.pending(),
                primary_key_names(self.columns()), match primary_key_constraint { Some(c) => Some(c@), None => None }),
    {
        let pks = self.primary_key_column_names();
        alter_table_queries(&self.table_name, &self.table_change_events, &pks, primary_key_constraint)
    }

    /// After a successful commit: the table takes its new name, the pending set
    /// is drained and the refetched columns become the snapshot.
    pub fn finish_alter_table(&mut self, columns_info: Vec<Column>)
        ensures
            final(self).name()@ == renamed_table(old(self).name()@, old(self).pending()),
            final(self).pending().len() == 0,
            final(self).columns() == columns_info@,
            final(self).wf(),
    {
        self.table_name = renamed_table_name(&self.table_name, &self.table_change_events);
        self.table_change_events = Vec::new();
        self.columns_info = columns_info;
    }

    fn drop_existing_event(&mut self, k: EventKind, c: &String)
        ensures
            final(self).pending() == drop_entry(old(self).pending(), k, c@),
            final(self).same_snapshot(old(self)),
    {
        if let Some(i) = find_existing_event(&self.table_change_events, k, c) {
            self.table_change_events.remove(i);
        }
    }

    fn handle_add_column(&mut self, column_name: String, data_type: DataType)
        ensures
            final(self).pending() == after_add_column(old(self).pending(), old(self).columns(), column_name, data_type),
            final(self).same_snapshot(old(self)),
    {
        if let Some(i) = find_existing_event(&self.table_change_events, EventKind::RemoveColumn, &column_name) {
            if let Some(j) = find_existing_column(&self.columns_info, &column_name) {
                if self.columns_info[j].datatype == data_type {
                    self.table_change_events.remove(i);
                } else {
                    self.table_change_events.remove(i);
                    self.table_change_events.push(TableChangeEvents::ChangeColumnDataType(column_name, data_type));
                }
                return;
            }
            self.table_change_events.remove(i);
        }
        self.table_change_events.push(TableChangeEvents::AddColumn(column_name, data_type));
    }

    fn handle_change_table_name(&mut self, table_name: String)
        ensures
            final(self).pending() == after_change_table_name(old(self).pending(), old(self).name(), table_name),
            final(self).same_snapshot(old(self)),
    {
        if let Some(i) = find_existing_event(&self.table_change_events, EventKind::ChangeTableName, &self.table_name) {
            let unchanged = match &self.table_change_events[i] {
                TableChangeEvents::ChangeTableName(current) => *current == table_name,
                _ => true,
            };
            if unchanged {
            } else if table_name == self.table_name {
                self.table_change_events.remove(i);
            } else {
                self.table_change_events.remove(i);
                self.table_change_events.push(TableChangeEvents::ChangeTableName(table_name));
            }
        } else if table_name != self.table_name {
            self.table_change_events.push(TableChangeEvents::ChangeTableName(table_name));
        }
    }

    fn handle_change_column_datatype(&mut self, column_name: String, data_type: DataType)
        ensures
            final(self).pending() == after_change_column_datatype(old(self).pending(), old(self).columns(), column_name, data_type),
            final(self).same_snapshot(old(self)),
    {
        if let Some(i) = find_existing_event(&self.table_change_events, EventKind::ChangeColumnDataType, &column_name) {
            let same_as_catalog = match find_existing_column(&self.columns_info, &column_name) {
                Some(j) => self.columns_info[j].datatype == data_type,
                None => false,
            };
            self.table_change_events.remove(i);
            if !same_as_catalog {
                self.table_change_events.push(TableChangeEvents::ChangeColumnDataType(column_name, data_type));
            }
        } else if let Some(k) = find_existing_event(&self.table_change_events, EventKind::AddColumn, &column_name) {
            let differs = match &self.table_change_events[k] {
                TableChangeEvents::AddColumn(_, added) => *added != data_type,
                _ => false,
            };
            if differs {
                self.table_change_events.remove(k);
                self.table_change_events.push(TableChangeEvents::AddColumn(column_name, data_type));
            }
        } else {
            self.table_change_events.push(TableChangeEvents::ChangeColumnDataType(column_name, data_type));
        }
    }

    fn rename_existing_datatype_change_event(&mut self, column_name: &String, new_column_name: &String)
        ensures
            final(self).pending() == rekey_type_change(old(self).pending(), column_name@, *new_column_name),
            final(self).same_snapshot(old(self)),
    {
        if let Some(i) = find_existing_event(&self.table_change_events, EventKind::ChangeColumnDataType, column_name) {
            if let TableChangeEvents::ChangeColumnDataType(_, t) = self.table_change_events.remove(i) {
                self.table_change_events.push(TableChangeEvents::ChangeColumnDataType(new_column_name.clone(), t));
            }
        }
    }

    fn merge_rename(&mut self, column_name: &String, new_column_name: &String)
        ensures
            final(self).pending() == merge_rename(old(self).pending(), old(self).columns(), *column_name, *new_column_name),
            final(self).same_snapshot(old(self)),
    {
        if let Some(i) = find_existing_event(&self.table_change_events, EventKind::RenameTarget, column_name) {
            let original = match &self.table_change_events[i] {
                TableChangeEvents::ChangeColumnName(o, _) => Some(o.clone()),
                _ => None,
            };
            if let Some(original) = original {
                if original != *new_column_name {
                    self.table_change_events.push(TableChangeEvents::ChangeColumnName(original, new_column_name.clone()));
                }
                self.table_change_events.remove(i);
            }
        } else if let Some(k) = find_existing_event(&self.table_change_events, EventKind::AddColumn, column_name) {
            if let TableChangeEvents::AddColumn(_, t) = self.table_change_events.remove(k) {
                self.handle_add_column(new_column_name.clone(), t);
            }
        } else {
            self.table_change_events.push(TableChangeEvents::ChangeColumnName(column_name.clone(), new_column_name.clone()));
        }
    }

    fn handle_change_column_name(&mut self, column_name: String, new_column_name: String)
        ensures
            final(self).pending() == after_change_column_name(old(self).pending(), old(self).columns(), column_name, new_column_name),
            final(self).same_snapshot(old(self)),
    {
        if column_name == new_column_name {
            return;
        }
        self.rename_existing_datatype_change_event(&column_name, &new_column_name);
        self.merge_rename(&column_name, &new_column_name);
        if let Some(i) = find_existing_event(&self.table_change_events, EventKind::AddPrimaryKey, &column_name) {
            self.table_change_events.remove(i);
            self.table_change_events.push(TableChangeEvents::AddPrimaryKey(new_column_name));
        }
    }

    fn push_remove(&mut self, column_name: String)
        ensures
            final(self).pending() == push_remove(old(self).pending(), column_name),
            final(self).same_snapshot(old(self)),
    {
        if find_existing_event(&self.table_change_events, EventKind::RemoveColumn, &column_name).is_none() {
            self.table_change_events.push(TableChangeEvents::RemoveColumn(column_name));
        }
    }

    fn remove_original(&mut self, original: String)
        ensures
            final(self).pending() == remove_original(old(self).pending(), old(self).columns(), original),
            final(self).same_snapshot(old(self)),
    {
        if let Some(a) = find_existing_event(&self.table_change_events, EventKind::AddColumn, &original) {
            let added = match &self.table_change_events[a] {
                TableChangeEvents::AddColumn(_, t) => Some(*t),
                _ => None,
            };
            if let Some(t) = added {
                if let Some(j) = find_existing_column(&self.columns_info, &original) {
                    let same = self.columns_info[j].datatype == t;
                    self.table_change_events.remove(a);
                    if !same {
                        self.table_change_events.push(TableChangeEvents::ChangeColumnDataType(original, t));
                    }
                }
            }
        } else {
            self.push_remove(original);
        }
    }

    fn handle_remove_column(&mut self, column_name: String)
        ensures
            final(self).pending() == after_remove_column(old(self).pending(), old(self).columns(), column_name),
            final(self).same_snapshot(old(self)),
    {
        self.drop_existing_event(EventKind::AddPrimaryKey, &column_name);
        self.drop_existing_event(EventKind::AddForeignKey, &column_name);
        if let Some(k) = find_existing_event(&self.table_change_events, EventKind::AddColumn, &column_name) {
            self.table_change_events.remove(k);
            return;
        }
        self.drop_existing_event(EventKind::ChangeColumnDataType, &column_name);
        if let Some(r) = find_existing_event(&self.table_change_events, EventKind::RenameTarget, &column_name) {
            if let TableChangeEvents::ChangeColumnName(original, _) = self.table_change_events.remove(r) {
                self.remove_original(original);
            }
        } else {
            self.push_remove(column_name);
        }
    }

    fn handle_add_primary_key(&mut self, column_name: String)
        ensures
            final(self).pending() == after_add_primary_key(old(self).pending(), column_name),
            final(self).same_snapshot(old(self)),
    {
        if let Some(i) = find_existing_event(&self.table_change_events, EventKind::RemovePrimaryKey, &column_name) {
            self.table_change_events.remove(i);
        } else {
            self.table_change_events.push(TableChangeEvents::AddPrimaryKey(column_name));
        }
    }

    fn handle_remove_primary_key(&mut self, column_name: String)
        ensures
            final(self).pending() == after_remove_primary_key(old(self).pending(), column_name),
            final(self).same_snapshot(old(self)),
    {
        if let Some(i) = find_existing_event(&self.table_change_events, EventKind::AddPrimaryKey, &column_name) {
            self.table_change_events.remove(i);
        } else {
            self.table_change_events.push(TableChangeEvents::RemovePrimaryKey(column_name));
        }
    }

    /// Whether the catalog column `c` already references `rt(rc)`.
    fn catalog_foreign_key_matches(&self, c: &String, rt: &String, rc: &String) -> (r: bool)
        ensures
            r == catalog_has_foreign_key(self.columns(), c@, rt@, rc@),
    {
        match find_existing_column(&self.columns_info, c) {
            None => false,
            Some(j) => {
                let constraints = &self.columns_info[j].constraints;
                let mut i: usize = 0;
                while i < constraints.len()
                    invariant
                        i <= constraints@.len(),
                        j < self.columns_info@.len(),
                        find_column(self.columns_info@, c@) == j as int,
                        *constraints == self.columns_info@[j as int].constraints,
                        forall|m: int| 0 <= m < i ==> !(match #[trigger] constraints@[m] {
                            Constraint::ForeignKey(a, b) => a@ == rt@ && b@ == rc@,
                            Constraint::PrimaryKey => false,
                        }),
                    decreases constraints@.len() - i,
                {
                    if let Constraint::ForeignKey(a, b) = &constraints[i] {
                        if *a == *rt && *b == *rc {
                            assert(match self.columns_info@[j as int].constraints@[i as int] {
                                Constraint::ForeignKey(a, b) => a@ == rt@ && b@ == rc@,
                                Constraint::PrimaryKey => false,
                            });
                            return true;
                        }
                    }
                    i = i + 1;
                }
                false
            },
        }
    }

    fn handle_add_foreign_key(&mut self, column_foreign_key: ColumnForeignKey)
        ensures
            final(self).pending() == after_add_foreign_key(old(self).pending(), old(self).columns(), column_foreign_key),
            final(self).same_snapshot(old(self)),
    {
        let c = &column_foreign_key.column_name;
        if let Some(i) = find_existing_event(&self.table_change_events, EventKind::AddForeignKey, c) {
            self.table_change_events.remove(i);
        } else if let Some(r) = find_existing_event(&self.table_change_events, EventKind::RemoveForeignKey, c) {
            if self.catalog_foreign_key_matches(c, &column_foreign_key.referenced_table, &column_foreign_key.referenced_column) {
                self.table_change_events.remove(r);
                return;
            }
        }
        self.table_change_events.push(TableChangeEvents::AddForeignKey(column_foreign_key));
    }

    fn handle_remove_foreign_key(&mut self, column_name: String)
        ensures
            final(self).pending() == after_remove_foreign_key(old(self).pending(), column_name),
            final(self).same_snapshot(old(self)),
    {
        if let Some(i) = find_existing_event(&self.table_change_events, EventKind::AddForeignKey, &column_name) {
            self.table_change_events.remove(i);
        } else {
            self.table_change_events.push(TableChangeEvents::RemoveForeignKey(column_name));
        }
    }
}

/// The name the table has once the pending set is applied.
pub open spec fn current_table_name(s: Seq<TableChangeEvents>, t: String) -> Seq<char> {
    let i = find_entry(s, EventKind::ChangeTableName, t@);
    if i >= 0 {
        match s[i] {
            TableChangeEvents::ChangeTableName(n) => n@,
            _ => t@,
        }
    } else {
        t@
    }
}

/// At most one entry of the pending set renames the table.
pub open spec fn single_table_rename(s: Seq<TableChangeEvents>) -> bool {
    forall|i: int, j: int|
        0 <= i < s.len() && 0 <= j < s.len() && (#[trigger] s[i]) is ChangeTableName
            && (#[trigger] s[j]) is ChangeTableName ==> i == j
}

pub proof fn lemma_find_push(s: Seq<TableChangeEvents>, x: TableChangeEvents, k: EventKind, c: Seq<char>)
    ensures
        find_entry(s.push(x), k, c) == if find_entry(s, k, c) >= 0 {
            find_entry(s, k, c)
        } else if entry_matches(x, k, c) {
            s.len() as int
        } else {
            -1
        },
{
    assert(s.push(x).drop_last() =~= s);
}

/// Renaming a column to its own name adds nothing to the pending set.
pub proof fn lemma_rename_column_to_itself(s: Seq<TableChangeEvents>, cols: Seq<Column>, t: String, c: String, n: String)
    requires
        c@ == n@,
    ensures
        coalesce(s, cols, t, TableChangeEvents::ChangeColumnName(c, n)) == s,
{
}

/// Renaming the table to the name it already has (after the pending set)
/// adds nothing to the pending set.
pub proof fn lemma_rename_table_to_itself(s: Seq<TableChangeEvents>, cols: Seq<Column>, t: String, n: String)
    requires
        n@ == current_table_name(s, t),
        single_table_rename(s),
    ensures
        coalesce(s, cols, t, TableChangeEvents::ChangeTableName(n)) == s,
{
    lemma_find_entry(s, EventKind::ChangeTableName, t@);
}

/// Renaming the table back to its catalog name leaves no pending table rename:
/// the pending one, if any, is dropped and nothing is added.
pub proof fn lemma_rename_table_to_catalog_name(s: Seq<TableChangeEvents>, cols: Seq<Column>, t: String, n: String)
    requires
        n@ == t@,
        pending_wf(s, t@),
    ensures
        coalesce(s, cols, t, TableChangeEvents::ChangeTableName(n)) == drop_entry(s, EventKind::ChangeTableName, t@),
        forall|j: int| 0 <= j < coalesce(s, cols, t, TableChangeEvents::ChangeTableName(n)).len()
            ==> !((#[trigger] coalesce(s, cols, t, TableChangeEvents::ChangeTableName(n))[j]) is ChangeTableName),
{
    lemma_find_entry(s, EventKind::ChangeTableName, t@);
    let i = find_entry(s, EventKind::ChangeTableName, t@);
    if i >= 0 {
        lemma_single_remove(s, i);
    } else {
        assert forall|j: int| 0 <= j < s.len() implies !((#[trigger] s[j]) is ChangeTableName) by {
            assert(!entry_matches(s[j], EventKind::ChangeTableName, t@));
        }
    }
}

/// Adding a column and at once removing it leaves the pending set as it was,
/// when nothing was pending on that column name.
pub proof fn lemma_add_then_remove_column(s: Seq<TableChangeEvents>, cols: Seq<Column>, t: String, c: String, c2: String, d: DataType)
    requires
        c@ == c2@,
        find_entry(s, EventKind::RemoveColumn, c@) == -1,
        find_entry(s, EventKind::AddColumn, c@) == -1,
        find_entry(s, EventKind::AddPrimaryKey, c@) == -1,
        find_entry(s, EventKind::AddForeignKey, c@) == -1,
    ensures
        coalesce(coalesce(s, cols, t, TableChangeEvents::AddColumn(c, d)), cols, t, TableChangeEvents::RemoveColumn(c2)) == s,
{
    let x = TableChangeEvents::AddColumn(c, d);
    lemma_find_push(s, x, EventKind::AddPrimaryKey, c@);
    lemma_find_push(s, x, EventKind::AddForeignKey, c@);
    lemma_find_push(s, x, EventKind::AddColumn, c@);
    assert(s.push(x).remove(s.len() as int) =~= s);
}

/// Two chained renames `a -> b`, `b -> c` add one rename `a -> c` to the
/// pending set, or nothing when `c` is `a`, when nothing was pending on the
/// names `a` and `b`.
pub proof fn lemma_chained_rename(s: Seq<TableChangeEvents>, cols: Seq<Column>, t: String, a: String, b: String, b2: String, c: String)
    requires
        a@ != b@,
        b@ == b2@,
        b2@ != c@,
        find_entry(s, EventKind::ChangeColumnDataType, a@) == -1,
        find_entry(s, EventKind::RenameTarget, a@) == -1,
        find_entry(s, EventKind::AddColumn, a@) == -1,
        find_entry(s, EventKind::AddPrimaryKey, a@) == -1,
        find_entry(s, EventKind::ChangeColumnDataType, b@) == -1,
        find_entry(s, EventKind::RenameTarget, b@) == -1,
        find_entry(s, EventKind::AddPrimaryKey, b@) == -1,
    ensures
        a@ != c@ ==> coalesce(coalesce(s, cols, t, TableChangeEvents::ChangeColumnName(a, b)), cols, t, TableChangeEvents::ChangeColumnName(b2, c))
            == s.push(TableChangeEvents::ChangeColumnName(a, c)),
        a@ == c@ ==> coalesce(coalesce(s, cols, t, TableChangeEvents::ChangeColumnName(a, b)), cols, t, TableChangeEvents::ChangeColumnName(b2, c))
            == s,
{
    let r1 = TableChangeEvents::ChangeColumnName(a, b);
    let s1 = s.push(r1);
    lemma_find_push(s, r1, EventKind::AddPrimaryKey, a@);
    assert(coalesce(s, cols, t, r1) == s1);
    lemma_find_push(s, r1, EventKind::ChangeColumnDataType, b@);
    lemma_find_push(s, r1, EventKind::RenameTarget, b@);
    assert(rekey_type_change(s1, b2@, c) == s1);
    if a@ != c@ {
        let r3 = TableChangeEvents::ChangeColumnName(a, c);
        assert(s1.push(r3).remove(s.len() as int) =~= s.push(r3));
        lemma_find_push(s, r3, EventKind::AddPrimaryKey, b@);
    } else {
        assert(s1.remove(s.len() as int) =~= s);
    }
}

/// Adding a primary key and removing it, in either order, leaves the pending
/// set as it was, when nothing was pending on that key.
pub proof fn lemma_primary_key_cancel(s: Seq<TableChangeEvents>, cols: Seq<Column>, t: String, x: String, x2: String)
    requires
        x@ == x2@,
        find_entry(s, EventKind::AddPrimaryKey, x@) == -1,
        find_entry(s, EventKind::RemovePrimaryKey, x@) == -1,
    ensures
        coalesce(coalesce(s, cols, t, TableChangeEvents::AddPrimaryKey(x)), cols, t, TableChangeEvents::RemovePrimaryKey(x2)) == s,
        coalesce(coalesce(s, cols, t, TableChangeEvents::RemovePrimaryKey(x)), cols, t, TableChangeEvents::AddPrimaryKey(x2)) == s,
{
    let a = TableChangeEvents::AddPrimaryKey(x);
    let r = TableChangeEvents::RemovePrimaryKey(x);
    lemma_find_push(s, a, EventKind::AddPrimaryKey, x@);
    lemma_find_push(s, r, EventKind::RemovePrimaryKey, x@);
    assert(s.push(a).remove(s.len() as int) =~= s);
    assert(s.push(r).remove(s.len() as int) =~= s);
}

proof fn lemma_renamed_push(t: Seq<char>, s: Seq<TableChangeEvents>, x: TableChangeEvents)
    ensures
        renamed_table(t, s.push(x)) == match x {
            TableChangeEvents::ChangeTableName(n) => n@,
            _ => renamed_table(t, s),
        },
{
    assert(s.push(x).drop_last() =~= s);
}

proof fn lemma_renamed_remove(t: Seq<char>, s: Seq<TableChangeEvents>, i: int)
    requires
        0 <= i < s.len(),
        !(s[i] is ChangeTableName),
    ensures
        renamed_table(t, s.remove(i)) == renamed_table(t, s),
    decreases s.len(),
{
    if i == s.len() - 1 {
        assert(s.remove(i) =~= s.drop_last());
    } else {
        let d = s.drop_last();
        lemma_renamed_remove(t, d, i);
        assert(s.remove(i).drop_last() =~= d.remove(i));
        assert(s.remove(i).last() == s.last());
    }
}

proof fn lemma_no_rename(t: Seq<char>, s: Seq<TableChangeEvents>)
    requires
        forall|j: int| 0 <= j < s.len() ==> !((#[trigger] s[j]) is ChangeTableName),
    ensures
        renamed_table(t, s) == t,
    decreases s.len(),
{
    if s.len() > 0 {
        let d = s.drop_last();
        assert forall|j: int| 0 <= j < d.len() implies !((#[trigger] d[j]) is ChangeTableName) by {
            assert(d[j] == s[j]);
        }
        lemma_no_rename(t, d);
        assert(!(s[s.len() - 1] is ChangeTableName));
    }
}

proof fn lemma_only_rename(t: Seq<char>, s: Seq<TableChangeEvents>, i: int)
    requires
        single_table_rename(s),
        0 <= i < s.len(),
        s[i] is ChangeTableName,
    ensures
        renamed_table(t, s) == s[i]->ChangeTableName_0@,
    decreases s.len(),
{
    let d = s.drop_last();
    if i == s.len() - 1 {
    } else {
        assert(!(s[s.len() - 1] is ChangeTableName));
        assert forall|a: int, b: int|
            0 <= a < d.len() && 0 <= b < d.len() && (#[trigger] d[a]) is ChangeTableName
                && (#[trigger] d[b]) is ChangeTableName implies a == b by {
            assert(d[a] == s[a] && d[b] == s[b]);
        }
        assert(d[i] == s[i]);
        lemma_only_rename(t, d, i);
    }
}

proof fn lemma_single_remove(s: Seq<TableChangeEvents>, i: int)
    requires
        single_table_rename(s),
        0 <= i < s.len(),
    ensures
        single_table_rename(s.remove(i)),
        s[i] is ChangeTableName ==> forall|j: int|
            0 <= j < s.remove(i).len() ==> !((#[trigger] s.remove(i)[j]) is ChangeTableName),
{
    let r = s.remove(i);
    assert forall|j: int| 0 <= j < r.len() implies #[trigger] r[j] == s[if j < i { j } else { j + 1 }] by {}
    assert forall|a: int, b: int|
        0 <= a < r.len() && 0 <= b < r.len() && (#[trigger] r[a]) is ChangeTableName
            && (#[trigger] r[b]) is ChangeTableName implies a == b by {
        assert(r[a] == s[if a < i { a } else { a + 1 }]);
        assert(r[b] == s[if b < i { b } else { b + 1 }]);
    }
    if s[i] is ChangeTableName {
        assert forall|j: int| 0 <= j < r.len() implies !((#[trigger] r[j]) is ChangeTableName) by {
            assert(r[j] == s[if j < i { j } else { j + 1 }]);
        }
    }
}

proof fn lemma_single_push(s: Seq<TableChangeEvents>, x: TableChangeEvents)
    requires
        single_table_rename(s),
        !(x is ChangeTableName) || forall|j: int| 0 <= j < s.len() ==> !((#[trigger] s[j]) is ChangeTableName),
    ensures
        single_table_rename(s.push(x)),
{
    let p = s.push(x);
    assert forall|a: int, b: int|
        0 <= a < p.len() && 0 <= b < p.len() && (#[trigger] p[a]) is ChangeTableName
            && (#[trigger] p[b]) is ChangeTableName implies a == b by {
        if a < s.len() {
            assert(p[a] == s[a]);
        }
        if b < s.len() {
            assert(p[b] == s[b]);
        }
    }
}

/// Two pending entries that may not stand together: two foreign-key
/// additions on one column, two removals of one column, or an addition and a
/// removal of one column name.
pub open spec fn compatible(x: TableChangeEvents, y: TableChangeEvents) -> bool {
    &&& !(x is AddForeignKey && y is AddForeignKey && x->AddForeignKey_0.column_name@ == y->AddForeignKey_0.column_name@)
    &&& !(x is RemoveColumn && y is RemoveColumn && x->RemoveColumn_0@ == y->RemoveColumn_0@)
    &&& !(x is AddColumn && y is RemoveColumn && x->AddColumn_0@ == y->RemoveColumn_0@)
}

/// The invariants of a pending set for a table whose catalog name is `t`: at
/// most one table rename and none back to `t`; at most one foreign-key
/// addition and at most one removal per column; never an addition and a
/// removal of the same column name.
pub open spec fn pending_wf(s: Seq<TableChangeEvents>, t: Seq<char>) -> bool {
    &&& single_table_rename(s)
    &&& forall|i: int| 0 <= i < s.len() && (#[trigger] s[i]) is ChangeTableName ==> s[i]->ChangeTableName_0@ != t
    &&& forall|i: int, j: int| 0 <= i < s.len() && 0 <= j < s.len() && i != j ==> compatible(#[trigger] s[i], #[trigger] s[j])
}

/// `x` may join every entry of `s`.
pub open spec fn fits(s: Seq<TableChangeEvents>, x: TableChangeEvents) -> bool {
    forall|j: int| 0 <= j < s.len() ==> compatible(#[trigger] s[j], x) && compatible(x, s[j])
}

proof fn lemma_wf_remove(tn: Seq<char>, s: Seq<TableChangeEvents>, i: int)
    requires
        pending_wf(s, tn),
        0 <= i < s.len(),
    ensures
        pending_wf(s.remove(i), tn),
{
    lemma_single_remove(s, i);
    let r = s.remove(i);
    assert forall|j: int| 0 <= j < r.len() implies #[trigger] r[j] == s[if j < i { j } else { j + 1 }] by {}
    assert forall|a: int, b: int| 0 <= a < r.len() && 0 <= b < r.len() && a != b implies compatible(#[trigger] r[a], #[trigger] r[b]) by {
        assert(r[a] == s[if a < i { a } else { a + 1 }]);
        assert(r[b] == s[if b < i { b } else { b + 1 }]);
    }
    assert forall|a: int| 0 <= a < r.len() && (#[trigger] r[a]) is ChangeTableName implies r[a]->ChangeTableName_0@ != tn by {
        assert(r[a] == s[if a < i { a } else { a + 1 }]);
    }
}

proof fn lemma_wf_push(tn: Seq<char>, s: Seq<TableChangeEvents>, x: TableChangeEvents)
    requires
        pending_wf(s, tn),
        fits(s, x),
        !(x is ChangeTableName) || (x->ChangeTableName_0@ != tn
            && forall|j: int| 0 <= j < s.len() ==> !((#[trigger] s[j]) is ChangeTableName)),
    ensures
        pending_wf(s.push(x), tn),
{
    lemma_single_push(s, x);
    let p = s.push(x);
    assert forall|a: int, b: int| 0 <= a < p.len() && 0 <= b < p.len() && a != b implies compatible(#[trigger] p[a], #[trigger] p[b]) by {
        if a < s.len() {
            assert(p[a] == s[a]);
        }
        if b < s.len() {
            assert(p[b] == s[b]);
        }
    }
    assert forall|a: int| 0 <= a < p.len() && (#[trigger] p[a]) is ChangeTableName implies p[a]->ChangeTableName_0@ != tn by {
        if a < s.len() {
            assert(p[a] == s[a]);
        }
    }
}

proof fn lemma_fits_none(s: Seq<TableChangeEvents>, x: TableChangeEvents)
    requires
        x is AddColumn ==> find_entry(s, EventKind::RemoveColumn, x->AddColumn_0@) == -1,
        x is RemoveColumn ==> find_entry(s, EventKind::RemoveColumn, x->RemoveColumn_0@) == -1
            && find_entry(s, EventKind::AddColumn, x->RemoveColumn_0@) == -1,
        x is AddForeignKey ==> find_entry(s, EventKind::AddForeignKey, x->AddForeignKey_0.column_name@) == -1,
    ensures
        fits(s, x),
{
    match x {
        TableChangeEvents::AddColumn(c, _) => lemma_find_entry(s, EventKind::RemoveColumn, c@),
        TableChangeEvents::RemoveColumn(c) => {
            lemma_find_entry(s, EventKind::RemoveColumn, c@);
            lemma_find_entry(s, EventKind::AddColumn, c@);
        },
        TableChangeEvents::AddForeignKey(fk) => lemma_find_entry(s, EventKind::AddForeignKey, fk.column_name@),
        _ => {},
    }
    assert forall|j: int| 0 <= j < s.len() implies compatible(#[trigger] s[j], x) && compatible(x, s[j]) by {
        match x {
            TableChangeEvents::AddColumn(c, _) => assert(!entry_matches(s[j], EventKind::RemoveColumn, c@)),
            TableChangeEvents::RemoveColumn(c) => {
                assert(!entry_matches(s[j], EventKind::RemoveColumn, c@));
                assert(!entry_matches(s[j], EventKind::AddColumn, c@));
            },
            TableChangeEvents::AddForeignKey(fk) => assert(!entry_matches(s[j], EventKind::AddForeignKey, fk.column_name@)),
            _ => {},
        }
    }
}

/// Nothing of kind `k` on `c` is left once the entry at `i` goes, when no other
/// entry was of that kind on `c`.
proof fn lemma_none_after_remove(s: Seq<TableChangeEvents>, i: int, k: EventKind, c: Seq<char>)
    requires
        0 <= i < s.len(),
        forall|j: int| 0 <= j < s.len() && j != i ==> !entry_matches(#[trigger] s[j], k, c),
    ensures
        find_entry(s.remove(i), k, c) == -1,
{
    let r = s.remove(i);
    lemma_find_entry(r, k, c);
    if find_entry(r, k, c) != -1 {
        let f = find_entry(r, k, c);
        assert(r[f] == s[if f < i { f } else { f + 1 }]);
    }
}

/// Removing the entry at `i`, which does not rename the table, keeps the
/// invariants and the table name.
proof fn lemma_remove_keeps(tn: Seq<char>, s: Seq<TableChangeEvents>, i: int)
    requires
        pending_wf(s, tn),
        0 <= i < s.len(),
        !(s[i] is ChangeTableName),
    ensures
        pending_wf(s.remove(i), tn),
        renamed_table(tn, s.remove(i)) == renamed_table(tn, s),
{
    lemma_wf_remove(tn, s, i);
    lemma_renamed_remove(tn, s, i);
}

proof fn lemma_push_keeps(tn: Seq<char>, s: Seq<TableChangeEvents>, x: TableChangeEvents)
    requires
        pending_wf(s, tn),
        fits(s, x),
        !(x is ChangeTableName),
    ensures
        pending_wf(s.push(x), tn),
        renamed_table(tn, s.push(x)) == renamed_table(tn, s),
{
    lemma_wf_push(tn, s, x);
    lemma_renamed_push(tn, s, x);
}

proof fn lemma_found_keeps(tn: Seq<char>, s: Seq<TableChangeEvents>, k: EventKind, c: Seq<char>)
    requires
        pending_wf(s, tn),
        !(k is ChangeTableName),
    ensures
        find_entry(s, k, c) >= 0 ==> {
            &&& pending_wf(s.remove(find_entry(s, k, c)), tn)
            &&& renamed_table(tn, s.remove(find_entry(s, k, c))) == renamed_table(tn, s)
        },
        pending_wf(drop_entry(s, k, c), tn),
        renamed_table(tn, drop_entry(s, k, c)) == renamed_table(tn, s),
{
    lemma_find_entry(s, k, c);
    if find_entry(s, k, c) >= 0 {
        lemma_remove_keeps(tn, s, find_entry(s, k, c));
    }
}

/// The entry at `i` of a well-formed set is the only one of kind `k` on `c`,
/// for the kinds that may occur once per column.
proof fn lemma_only_entry(tn: Seq<char>, s: Seq<TableChangeEvents>, i: int, k: EventKind, c: Seq<char>, k2: EventKind)
    requires
        pending_wf(s, tn),
        0 <= i < s.len(),
        entry_matches(s[i], k, c),
        (k is AddForeignKey && k2 is AddForeignKey) || (k is RemoveColumn && k2 is RemoveColumn)
            || (k is AddColumn && k2 is RemoveColumn),
    ensures
        find_entry(s.remove(i), k2, c) == -1,
{
    assert forall|j: int| 0 <= j < s.len() && j != i implies !entry_matches(#[trigger] s[j], k2, c) by {
        assert(compatible(s[i], s[j]) && compatible(s[j], s[i]));
    }
    if k is AddColumn {
        assert(!entry_matches(s[i], k2, c));
    }
    lemma_none_after_remove(s, i, k2, c);
}

proof fn lemma_add_column_keeps(tn: Seq<char>, s: Seq<TableChangeEvents>, cols: Seq<Column>, c: String, d: DataType)
    requires
        pending_wf(s, tn),
    ensures
        pending_wf(after_add_column(s, cols, c, d), tn),
        renamed_table(tn, after_add_column(s, cols, c, d)) == renamed_table(tn, s),
{
    lemma_found_keeps(tn, s, EventKind::RemoveColumn, c@);
    lemma_find_entry(s, EventKind::RemoveColumn, c@);
    let i = find_entry(s, EventKind::RemoveColumn, c@);
    if i >= 0 {
        let s1 = s.remove(i);
        lemma_fits_none(s1, TableChangeEvents::ChangeColumnDataType(c, d));
        lemma_push_keeps(tn, s1, TableChangeEvents::ChangeColumnDataType(c, d));
        lemma_only_entry(tn, s, i, EventKind::RemoveColumn, c@, EventKind::RemoveColumn);
        lemma_fits_none(s1, TableChangeEvents::AddColumn(c, d));
        lemma_push_keeps(tn, s1, TableChangeEvents::AddColumn(c, d));
    } else {
        lemma_fits_none(s, TableChangeEvents::AddColumn(c, d));
        lemma_push_keeps(tn, s, TableChangeEvents::AddColumn(c, d));
    }
}

proof fn lemma_push_remove_keeps(tn: Seq<char>, s: Seq<TableChangeEvents>, c: String)
    requires
        pending_wf(s, tn),
        find_entry(s, EventKind::AddColumn, c@) == -1,
    ensures
        pending_wf(push_remove(s, c), tn),
        renamed_table(tn, push_remove(s, c)) == renamed_table(tn, s),
{
    if find_entry(s, EventKind::RemoveColumn, c@) < 0 {
        lemma_fits_none(s, TableChangeEvents::RemoveColumn(c));
        lemma_push_keeps(tn, s, TableChangeEvents::RemoveColumn(c));
    }
}

proof fn lemma_remove_column_keeps(tn: Seq<char>, s: Seq<TableChangeEvents>, cols: Seq<Column>, c: String)
    requires
        pending_wf(s, tn),
    ensures
        pending_wf(after_remove_column(s, cols, c), tn),
        renamed_table(tn, after_remove_column(s, cols, c)) == renamed_table(tn, s),
{
    lemma_found_keeps(tn, s, EventKind::AddPrimaryKey, c@);
    let s1 = drop_entry(s, EventKind::AddPrimaryKey, c@);
    lemma_found_keeps(tn, s1, EventKind::AddForeignKey, c@);
    let s2 = drop_entry(s1, EventKind::AddForeignKey, c@);
    lemma_found_keeps(tn, s2, EventKind::AddColumn, c@);
    let k = find_entry(s2, EventKind::AddColumn, c@);
    if k < 0 {
        lemma_found_keeps(tn, s2, EventKind::ChangeColumnDataType, c@);
        let s3 = drop_entry(s2, EventKind::ChangeColumnDataType, c@);
        lemma_find_entry(s2, EventKind::ChangeColumnDataType, c@);
        lemma_find_entry(s2, EventKind::AddColumn, c@);
        if find_entry(s2, EventKind::ChangeColumnDataType, c@) >= 0 {
            let i = find_entry(s2, EventKind::ChangeColumnDataType, c@);
            assert(!entry_matches(s2[i], EventKind::AddColumn, c@));
            lemma_none_after_remove(s2, i, EventKind::AddColumn, c@);
        }
        assert(find_entry(s3, EventKind::AddColumn, c@) == -1);
        lemma_find_entry(s3, EventKind::RenameTarget, c@);
        lemma_found_keeps(tn, s3, EventKind::RenameTarget, c@);
        let r = find_entry(s3, EventKind::RenameTarget, c@);
        if r >= 0 {
            let orig = s3[r]->ChangeColumnName_0;
            let s4 = s3.remove(r);
            lemma_find_entry(s4, EventKind::AddColumn, orig@);
            let a = find_entry(s4, EventKind::AddColumn, orig@);
            if a >= 0 {
                lemma_found_keeps(tn, s4, EventKind::AddColumn, orig@);
                let ta = s4[a]->AddColumn_1;
                lemma_fits_none(s4.remove(a), TableChangeEvents::ChangeColumnDataType(orig, ta));
                lemma_push_keeps(tn, s4.remove(a), TableChangeEvents::ChangeColumnDataType(orig, ta));
            } else {
                lemma_push_remove_keeps(tn, s4, orig);
            }
        } else {
            lemma_push_remove_keeps(tn, s3, c);
        }
    }
}

proof fn lemma_step_keeps(t: String, s: Seq<TableChangeEvents>, cols: Seq<Column>, e: TableChangeEvents)
    requires
        pending_wf(s, t@),
        !(e is ChangeTableName),
    ensures
        pending_wf(coalesce(s, cols, t, e), t@),
        renamed_table(t@, coalesce(s, cols, t, e)) == renamed_table(t@, s),
{
    let tt = t@;
    match e {
        TableChangeEvents::ChangeColumnDataType(c, d) => {
            lemma_found_keeps(tt, s, EventKind::ChangeColumnDataType, c@);
            lemma_found_keeps(tt, s, EventKind::AddColumn, c@);
            lemma_find_entry(s, EventKind::AddColumn, c@);
            let i = find_entry(s, EventKind::ChangeColumnDataType, c@);
            let k = find_entry(s, EventKind::AddColumn, c@);
            let x = TableChangeEvents::ChangeColumnDataType(c, d);
            if i >= 0 {
                lemma_fits_none(s.remove(i), x);
                lemma_push_keeps(tt, s.remove(i), x);
            }
            if k >= 0 {
                lemma_only_entry(tt, s, k, EventKind::AddColumn, c@, EventKind::RemoveColumn);
                lemma_fits_none(s.remove(k), TableChangeEvents::AddColumn(c, d));
                lemma_push_keeps(tt, s.remove(k), TableChangeEvents::AddColumn(c, d));
            }
            lemma_fits_none(s, x);
            lemma_push_keeps(tt, s, x);
        },
        TableChangeEvents::ChangeColumnName(c, n) => {
            if c@ != n@ {
                lemma_find_entry(s, EventKind::ChangeColumnDataType, c@);
                lemma_found_keeps(tt, s, EventKind::ChangeColumnDataType, c@);
                let i = find_entry(s, EventKind::ChangeColumnDataType, c@);
                if i >= 0 {
                    let x = TableChangeEvents::ChangeColumnDataType(n, s[i]->ChangeColumnDataType_1);
                    lemma_fits_none(s.remove(i), x);
                    lemma_push_keeps(tt, s.remove(i), x);
                }
                let s1 = rekey_type_change(s, c@, n);
                lemma_find_entry(s1, EventKind::RenameTarget, c@);
                lemma_find_entry(s1, EventKind::AddColumn, c@);
                lemma_found_keeps(tt, s1, EventKind::AddColumn, c@);
                let r = find_entry(s1, EventKind::RenameTarget, c@);
                let k = find_entry(s1, EventKind::AddColumn, c@);
                if r >= 0 {
                    let x = TableChangeEvents::ChangeColumnName(s1[r]->ChangeColumnName_0, n);
                    lemma_fits_none(s1, x);
                    lemma_push_keeps(tt, s1, x);
                    assert(s1.push(x)[r] == s1[r]);
                    lemma_remove_keeps(tt, s1.push(x), r);
                    lemma_remove_keeps(tt, s1, r);
                } else if k >= 0 {
                    lemma_add_column_keeps(tt, s1.remove(k), cols, n, s1[k]->AddColumn_1);
                } else {
                    let x = TableChangeEvents::ChangeColumnName(c, n);
                    lemma_fits_none(s1, x);
                    lemma_push_keeps(tt, s1, x);
                }
                let s2 = merge_rename(s1, cols, c, n);
                lemma_found_keeps(tt, s2, EventKind::AddPrimaryKey, c@);
                let p = find_entry(s2, EventKind::AddPrimaryKey, c@);
                if p >= 0 {
                    lemma_fits_none(s2.remove(p), TableChangeEvents::AddPrimaryKey(n));
                    lemma_push_keeps(tt, s2.remove(p), TableChangeEvents::AddPrimaryKey(n));
                }
            }
        },
        TableChangeEvents::RemoveColumn(c) => {
            lemma_remove_column_keeps(tt, s, cols, c);
        },
        TableChangeEvents::AddColumn(c, d) => {
            lemma_add_column_keeps(tt, s, cols, c, d);
        },
        TableChangeEvents::AddForeignKey(fk) => {
            lemma_found_keeps(tt, s, EventKind::AddForeignKey, fk.column_name@);
            lemma_found_keeps(tt, s, EventKind::RemoveForeignKey, fk.column_name@);
            lemma_find_entry(s, EventKind::AddForeignKey, fk.column_name@);
            let i = find_entry(s, EventKind::AddForeignKey, fk.column_name@);
            let x = TableChangeEvents::AddForeignKey(fk);
            if i >= 0 {
                lemma_only_entry(tt, s, i, EventKind::AddForeignKey, fk.column_name@, EventKind::AddForeignKey);
                lemma_fits_none(s.remove(i), x);
                lemma_push_keeps(tt, s.remove(i), x);
            } else {
                lemma_fits_none(s, x);
                lemma_push_keeps(tt, s, x);
            }
        },
        TableChangeEvents::RemoveForeignKey(c) => {
            lemma_found_keeps(tt, s, EventKind::AddForeignKey, c@);
            lemma_fits_none(s, TableChangeEvents::RemoveForeignKey(c));
            lemma_push_keeps(tt, s, TableChangeEvents::RemoveForeignKey(c));
        },
        TableChangeEvents::AddPrimaryKey(c) => {
            lemma_found_keeps(tt, s, EventKind::RemovePrimaryKey, c@);
            lemma_fits_none(s, TableChangeEvents::AddPrimaryKey(c));
            lemma_push_keeps(tt, s, TableChangeEvents::AddPrimaryKey(c));
        },
        TableChangeEvents::RemovePrimaryKey(c) => {
            lemma_found_keeps(tt, s, EventKind::AddPrimaryKey, c@);
            lemma_fits_none(s, TableChangeEvents::RemovePrimaryKey(c));
            lemma_push_keeps(tt, s, TableChangeEvents::RemovePrimaryKey(c));
        },
        TableChangeEvents::ChangeTableName(_) => {},
    }
}

proof fn lemma_step_rename_table(t: String, s: Seq<TableChangeEvents>, n: String)
    requires
        pending_wf(s, t@),
    ensures
        pending_wf(after_change_table_name(s, t, n), t@),
        renamed_table(t@, after_change_table_name(s, t, n)) == n@,
{
    lemma_find_entry(s, EventKind::ChangeTableName, t@);
    let i = find_entry(s, EventKind::ChangeTableName, t@);
    let x = TableChangeEvents::ChangeTableName(n);
    lemma_renamed_push(t@, s, x);
    lemma_fits_none(s, x);
    if i >= 0 {
        lemma_only_rename(t@, s, i);
        lemma_single_remove(s, i);
        lemma_wf_remove(t@, s, i);
        lemma_no_rename(t@, s.remove(i));
        lemma_fits_none(s.remove(i), x);
        if n@ != t@ {
            lemma_wf_push(t@, s.remove(i), x);
        }
        lemma_renamed_push(t@, s.remove(i), x);
    } else {
        assert forall|j: int| 0 <= j < s.len() implies !((#[trigger] s[j]) is ChangeTableName) by {
            assert(!entry_matches(s[j], EventKind::ChangeTableName, t@));
        }
        lemma_no_rename(t@, s);
        if n@ != t@ {
            lemma_wf_push(t@, s, x);
        }
    }
}

proof fn lemma_step(t: String, s: Seq<TableChangeEvents>, cols: Seq<Column>, e: TableChangeEvents)
    requires
        pending_wf(s, t@),
    ensures
        pending_wf(coalesce(s, cols, t, e), t@),
        renamed_table(t@, coalesce(s, cols, t, e)) == renamed_table(t@, s.push(e)),
{
    lemma_renamed_push(t@, s, e);
    match e {
        TableChangeEvents::ChangeTableName(n) => lemma_step_rename_table(t, s, n),
        _ => lemma_step_keeps(t, s, cols, e),
    }
}

/// The table-name part of replay-equivalence: folding a history of edits into
/// an empty pending set and compiling it addresses the table by the name that
/// replaying every edit literally would give it; the pending set stays
/// well-formed throughout.
pub proof fn lemma_replay_table_name(cols: Seq<Column>, t: String, h: Seq<TableChangeEvents>)
    ensures
        renamed_table(t@, coalesce_all(seq![], cols, t, h)) == renamed_table(t@, h),
        pending_wf(coalesce_all(seq![], cols, t, h), t@),
    decreases h.len(),
{
    if h.len() > 0 {
        lemma_replay_table_name(cols, t, h.drop_last());
        let s = coalesce_all(seq![], cols, t, h.drop_last());
        lemma_step(t, s, cols, h.last());
        lemma_renamed_push(t@, s, h.last());
        lemma_renamed_push(t@, h.drop_last(), h.last());
    }
}

} // verus!
