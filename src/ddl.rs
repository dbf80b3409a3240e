use vstd::prelude::*;
use crate::dml::{join_strings, join_with};
use crate::schema::{Column, Constraint, DataType, TableChangeEvents, TableIn};
use crate::table_info::{find_entry, find_existing_event, primary_key_columns, primary_key_names, EventKind};

verus! {

/// Why a request was refused before any SQL text was built.
#[derive(Debug, Clone, Copy, PartialEq, Eq, Structural)]
pub enum ValidationError {
    /// An identifier that cannot be written between double quotes.
    InvalidIdentifier,
    /// A row update that names one column twice.
    DuplicateColumn,
}

/// A non-empty identifier without a double quote in it.
pub open spec fn valid_identifier(s: Seq<char>) -> bool {
    s.len() > 0 && forall|i: int| 0 <= i < s.len() ==> s[i] != '"'
}

/// Every identifier named by edit `e` is valid.
pub open spec fn event_identifiers_valid(e: TableChangeEvents) -> bool {
    match e {
        TableChangeEvents::ChangeTableName(n) => valid_identifier(n@),
        TableChangeEvents::ChangeColumnDataType(c, _) => valid_identifier(c@),
        TableChangeEvents::ChangeColumnName(a, b) => valid_identifier(a@) && valid_identifier(b@),
        TableChangeEvents::RemoveColumn(c) => valid_identifier(c@),
        TableChangeEvents::AddColumn(c, _) => valid_identifier(c@),
        TableChangeEvents::AddForeignKey(fk) => valid_identifier(fk.column_name@)
            && valid_identifier(fk.referenced_table@) && valid_identifier(fk.referenced_column@),
        TableChangeEvents::RemoveForeignKey(c) => valid_identifier(c@),
        TableChangeEvents::AddPrimaryKey(c) => valid_identifier(c@),
        TableChangeEvents::RemovePrimaryKey(c) => valid_identifier(c@),
    }
}

/// The views of a sequence of strings.
pub open spec fn views(s: Seq<String>) -> Seq<Seq<char>> {
    s.map_values(|x: String| x@)
}

pub open spec fn all_valid(s: Seq<Seq<char>>) -> bool {
    forall|i: int| 0 <= i < s.len() ==> valid_identifier(#[trigger] s[i])
}

/// Every identifier that the compiled statements would hold is valid.
pub open spec fn alter_inputs_valid(t: Seq<char>, evs: Seq<TableChangeEvents>, pks: Seq<Seq<char>>, constraint: Option<Seq<char>>) -> bool {
    &&& valid_identifier(t)
    &&& forall|i: int| 0 <= i < evs.len() ==> event_identifiers_valid(#[trigger] evs[i])
    &&& all_valid(pks)
    &&& (constraint matches Some(c) ==> valid_identifier(c))
}

pub open spec fn quote(x: Seq<char>) -> Seq<char> {
    "\""@ + x + "\""@
}

pub open spec fn alter(t: Seq<char>) -> Seq<char> {
    "ALTER TABLE "@ + quote(t)
}

/// The table name after the renames of `evs`.
pub open spec fn renamed_table(t: Seq<char>, evs: Seq<TableChangeEvents>) -> Seq<char>
    decreases evs.len(),
{
    if evs.len() == 0 {
        t
    } else {
        match evs.last() {
            TableChangeEvents::ChangeTableName(n) => n@,
            _ => renamed_table(t, evs.drop_last()),
        }
    }
}

/// The statements renaming the table, each addressing it by the name it has then.
pub open spec fn rename_statements(t: Seq<char>, evs: Seq<TableChangeEvents>) -> Seq<Seq<char>>
    decreases evs.len(),
{
    if evs.len() == 0 {
        seq![]
    } else {
        let prior = rename_statements(t, evs.drop_last());
        match evs.last() {
            TableChangeEvents::ChangeTableName(n) => prior.push(
                alter(renamed_table(t, evs.drop_last())) + " RENAME TO "@ + quote(n@),
            ),
            _ => prior,
        }
    }
}

pub open spec fn foreign_key_name(t: Seq<char>, c: Seq<char>) -> Seq<char> {
    quote("fk_"@ + t + "_"@ + c)
}

/// The name column `c` has before the renames of `all` run: the old name of a
/// pending rename to `c`, else `c`.
pub open spec fn name_before_renames(all: Seq<TableChangeEvents>, c: Seq<char>) -> Seq<char> {
    let r = find_entry(all, EventKind::RenameTarget, c);
    if r >= 0 {
        match all[r] {
            TableChangeEvents::ChangeColumnName(a, _) => a@,
            _ => c,
        }
    } else {
        c
    }
}

/// The drop that precedes a foreign-key addition when the column's old
/// foreign key is being removed in the same batch.
pub open spec fn foreign_key_switch(t: Seq<char>, all: Seq<TableChangeEvents>, c: Seq<char>) -> Seq<char> {
    if find_entry(all, EventKind::RemoveForeignKey, c) >= 0 {
        " DROP CONSTRAINT IF EXISTS "@ + foreign_key_name(t, c) + ","@
    } else {
        Seq::<char>::empty()
    }
}

/// The statement that edit `e` of the batch `all` yields at compilation stage
/// `stage` (2 to 7), on table `t`. Type changes (stage 2) run before the column
/// renames and so address a column by its name before them. A foreign-key
/// removal whose column gets a new foreign key becomes part of that addition.
pub open spec fn stage_statement(stage: int, t: Seq<char>, all: Seq<TableChangeEvents>, e: TableChangeEvents) -> Option<Seq<char>> {
    match e {
        TableChangeEvents::ChangeColumnDataType(c, d) => if stage == 2 {
            let n = name_before_renames(all, c@);
            Some(alter(t) + " ALTER COLUMN "@ + quote(n) + " TYPE "@ + d.sql_spec() + " USING "@ + quote(n) + "::"@ + d.sql_spec())
        } else {
            None
        },
        TableChangeEvents::ChangeColumnName(a, b) => if stage == 3 {
            Some(alter(t) + " RENAME COLUMN "@ + quote(a@) + " TO "@ + quote(b@))
        } else {
            None
        },
        TableChangeEvents::AddColumn(c, d) => if stage == 4 {
            Some(alter(t) + " ADD COLUMN "@ + quote(c@) + " "@ + d.sql_spec())
        } else {
            None
        },
        TableChangeEvents::RemoveColumn(c) => if stage == 5 {
            Some(alter(t) + " DROP COLUMN "@ + quote(c@))
        } else {
            None
        },
        TableChangeEvents::AddForeignKey(fk) => if stage == 6 {
            Some(alter(t) + foreign_key_switch(t, all, fk.column_name@) + " ADD CONSTRAINT "@ + foreign_key_name(t, fk.column_name@) + " FOREIGN KEY ("@
                + quote(fk.column_name@) + ") REFERENCES "@ + quote(fk.referenced_table@) + " ("@
                + quote(fk.referenced_column@) + ")"@)
        } else {
            None
        },
        TableChangeEvents::RemoveForeignKey(c) => if stage == 7 && find_entry(all, EventKind::AddForeignKey, c@) < 0 {
            Some(alter(t) + " DROP CONSTRAINT IF EXISTS "@ + foreign_key_name(t, c@))
        } else {
            None
        },
        _ => None,
    }
}

/// The statements of stage `stage`, in the order of the edits.
pub open spec fn stage_statements(stage: int, t: Seq<char>, all: Seq<TableChangeEvents>, evs: Seq<TableChangeEvents>) -> Seq<Seq<char>>
    decreases evs.len(),
{
    if evs.len() == 0 {
        seq![]
    } else {
        let prior = stage_statements(stage, t, all, evs.drop_last());
        match stage_statement(stage, t, all, evs.last()) {
            Some(q) => prior.push(q),
            None => prior,
        }
    }
}

/// `s` without the first occurrence of `x`.
pub open spec fn remove_value(s: Seq<Seq<char>>, x: Seq<char>) -> Seq<Seq<char>> {
    match s.index_of_first(x) {
        Some(i) => s.remove(i),
        None => s,
    }
}

/// The primary-key columns after edit `e`.
pub open spec fn primary_key_step(pks: Seq<Seq<char>>, e: TableChangeEvents) -> Seq<Seq<char>> {
    match e {
        TableChangeEvents::RemoveColumn(c) => remove_value(pks, c@),
        TableChangeEvents::AddPrimaryKey(c) => pks.push(c@),
        TableChangeEvents::RemovePrimaryKey(c) => remove_value(pks, c@),
        _ => pks,
    }
}

/// The primary-key columns after the edits of `evs`.
pub open spec fn primary_keys_after(pks: Seq<Seq<char>>, evs: Seq<TableChangeEvents>) -> Seq<Seq<char>>
    decreases evs.len(),
{
    if evs.len() == 0 {
        pks
    } else {
        primary_key_step(primary_keys_after(pks, evs.drop_last()), evs.last())
    }
}

/// Whether some edit of `evs` drops a column of the primary key, which drops
/// the primary-key constraint along with it.
pub open spec fn primary_key_column_dropped(pks: Seq<Seq<char>>, evs: Seq<TableChangeEvents>) -> bool
    decreases evs.len(),
{
    if evs.len() == 0 {
        false
    } else {
        primary_key_column_dropped(pks, evs.drop_last()) || match evs.last() {
            TableChangeEvents::RemoveColumn(c) => primary_keys_after(pks, evs.drop_last()).contains(c@),
            _ => false,
        }
    }
}

/// `"a", "b", ...`
pub open spec fn join_quoted(s: Seq<Seq<char>>) -> Seq<char>
    decreases s.len(),
{
    if s.len() == 0 {
        seq![]
    } else if s.len() == 1 {
        quote(s[0])
    } else {
        join_quoted(s.drop_last()) + ", "@ + quote(s.last())
    }
}

/// The primary-key statements: nothing when the key is unchanged; else a drop
/// of the existing constraint, where it still exists, and an add of the new key
/// where it has columns.
pub open spec fn primary_key_statements(t: Seq<char>, pks: Seq<Seq<char>>, evs: Seq<TableChangeEvents>, constraint: Option<Seq<char>>) -> Seq<Seq<char>> {
    let now = primary_keys_after(pks, evs);
    if now == pks {
        seq![]
    } else {
        let drop: Seq<Seq<char>> = match constraint {
            Some(name) => if primary_key_column_dropped(pks, evs) {
                seq![]
            } else {
                seq![alter(t) + " DROP CONSTRAINT "@ + quote(name)]
            },
            None => seq![],
        };
        let add: Seq<Seq<char>> = if now.len() > 0 {
            seq![alter(t) + " ADD CONSTRAINT "@ + quote("pk_"@ + t) + " PRIMARY KEY ("@ + join_quoted(now) + ")"@]
        } else {
            seq![]
        };
        drop + add
    }
}

/// The whole batch for the pending edits `evs` on table `t0`, whose primary key
/// was `pks` and whose primary-key constraint is named `constraint`.
pub open spec fn alter_table_statements(t0: Seq<char>, evs: Seq<TableChangeEvents>, pks: Seq<Seq<char>>, constraint: Option<Seq<char>>) -> Seq<Seq<char>> {
    let t = renamed_table(t0, evs);
    rename_statements(t0, evs) + stage_statements(2, t, evs, evs) + stage_statements(3, t, evs, evs)
        + stage_statements(4, t, evs, evs) + stage_statements(5, t, evs, evs) + stage_statements(6, t, evs, evs)
        + stage_statements(7, t, evs, evs) + primary_key_statements(t, pks, evs, constraint)
}

fn push_quoted(out: &mut String, x: &str)
    ensures
        final(out)@ == old(out)@ + quote(x@),
{
    out.append("\"");
    out.append(x);
    out.append("\"");
    assert(final(out)@ =~= old(out)@ + quote(x@));
}

fn alter_prefix(t: &String) -> (r: String)
    ensures
        r@ == alter(t@),
{
    let mut r = String::new();
    r.append("ALTER TABLE ");
    push_quoted(&mut r, t.as_str());
    assert(r@ =~= alter(t@));
    r
}

pub fn is_valid_identifier(s: &String) -> (r: bool)
    ensures
        r == valid_identifier(s@),
{
    let n = s.as_str().unicode_len();
    if n == 0 {
        return false;
    }
    let mut i: usize = 0;
    while i < n
        invariant
            n == s@.len(),
            i <= n,
            forall|j: int| 0 <= j < i ==> s@[j] != '"',
        decreases n - i,
    {
        if s.as_str().get_char(i) == '"' {
            return false;
        }
        i = i + 1;
    }
    true
}

fn event_identifiers_valid_exec(e: &TableChangeEvents) -> (r: bool)
    ensures
        r == event_identifiers_valid(*e),
{
    match e {
        TableChangeEvents::ChangeTableName(n) => is_valid_identifier(n),
        TableChangeEvents::ChangeColumnDataType(c, _) => is_valid_identifier(c),
        TableChangeEvents::ChangeColumnName(a, b) => is_valid_identifier(a) && is_valid_identifier(b),
        TableChangeEvents::RemoveColumn(c) => is_valid_identifier(c),
        TableChangeEvents::AddColumn(c, _) => is_valid_identifier(c),
        TableChangeEvents::AddForeignKey(fk) => is_valid_identifier(&fk.column_name)
            && is_valid_identifier(&fk.referenced_table) && is_valid_identifier(&fk.referenced_column),
        TableChangeEvents::RemoveForeignKey(c) => is_valid_identifier(c),
        TableChangeEvents::AddPrimaryKey(c) => is_valid_identifier(c),
        TableChangeEvents::RemovePrimaryKey(c) => is_valid_identifier(c),
    }
}

/// Whether every name of `names` is a valid identifier.
pub fn all_identifiers_valid(names: &Vec<String>) -> (r: bool)
    ensures
        r == all_valid(views(names@)),
{
    let mut i: usize = 0;
    while i < names.len()
        invariant
            i <= names@.len(),
            forall|j: int| 0 <= j < i ==> valid_identifier(#[trigger] names@[j]@),
        decreases names@.len() - i,
    {
        if !is_valid_identifier(&names[i]) {
            assert(!valid_identifier(views(names@)[i as int]));
            return false;
        }
        i = i + 1;
    }
    assert forall|j: int| 0 <= j < views(names@).len() implies valid_identifier(#[trigger] views(names@)[j]) by {
        assert(views(names@)[j] == names@[j]@);
    }
    true
}

/// The table name after the renames of `evs`.
pub fn renamed_table_name(t: &String, evs: &Vec<TableChangeEvents>) -> (r: String)
    ensures
        r@ == renamed_table(t@, evs@),
{
    let mut cur = t.clone();
    let mut i: usize = 0;
    while i < evs.len()
        invariant
            i <= evs@.len(),
            cur@ == renamed_table(t@, evs@.subrange(0, i as int)),
        decreases evs@.len() - i,
    {
        proof {
            assert(evs@.subrange(0, i + 1).drop_last() =~= evs@.subrange(0, i as int));
        }
        if let TableChangeEvents::ChangeTableName(n) = &evs[i] {
            cur = n.clone();
        }
        i = i + 1;
    }
    assert(evs@.subrange(0, evs@.len() as int) =~= evs@);
    cur
}

fn push_rename_statements(out: &mut Vec<String>, t: &String, evs: &Vec<TableChangeEvents>)
    ensures
        views(final(out)@) == views(old(out)@) + rename_statements(t@, evs@),
{
    let ghost start = views(out@);
    let mut cur = t.clone();
    let mut i: usize = 0;
    while i < evs.len()
        invariant
            i <= evs@.len(),
            cur@ == renamed_table(t@, evs@.subrange(0, i as int)),
            views(out@) == start + rename_statements(t@, evs@.subrange(0, i as int)),
        decreases evs@.len() - i,
    {
        proof {
            assert(evs@.subrange(0, i + 1).drop_last() =~= evs@.subrange(0, i as int));
        }
        if let TableChangeEvents::ChangeTableName(n) = &evs[i] {
            let mut q = alter_prefix(&cur);
            q.append(" RENAME TO ");
            push_quoted(&mut q, n.as_str());
            let ghost before = out@;
            out.push(q);
            assert(views(out@) =~= views(before).push(q@));
            cur = n.clone();
        }
        i = i + 1;
        assert(views(out@) =~= start + rename_statements(t@, evs@.subrange(0, i as int)));
    }
    assert(evs@.subrange(0, evs@.len() as int) =~= evs@);
}

fn statement_for(stage: u8, t: &String, all: &Vec<TableChangeEvents>, e: &TableChangeEvents) -> (r: Option<String>)
    ensures
        stage_statement(stage as int, t@, all@, *e) == match r {
            Some(q) => Some(q@),
            None => None,
        },
{
    match e {
        TableChangeEvents::ChangeColumnDataType(c, d) => {
            if stage != 2 {
                return None;
            }
            let n = match find_existing_event(all, EventKind::RenameTarget, c) {
                Some(r) => match &all[r] {
                    TableChangeEvents::ChangeColumnName(a, _) => a,
                    _ => c,
                },
                None => c,
            };
            assert(n@ == name_before_renames(all@, c@));
            let mut q = alter_prefix(t);
            q.append(" ALTER COLUMN ");
            push_quoted(&mut q, n.as_str());
            q.append(" TYPE ");
            q.append(d.to_sql());
            q.append(" USING ");
            push_quoted(&mut q, n.as_str());
            q.append("::");
            q.append(d.to_sql());
            assert(q@ =~= alter(t@) + " ALTER COLUMN "@ + quote(n@) + " TYPE "@ + d.sql_spec() + " USING "@ + quote(n@) + "::"@ + d.sql_spec());
            Some(q)
        },
        TableChangeEvents::ChangeColumnName(a, b) => {
            if stage != 3 {
                return None;
            }
            let mut q = alter_prefix(t);
            q.append(" RENAME COLUMN ");
            push_quoted(&mut q, a.as_str());
            q.append(" TO ");
            push_quoted(&mut q, b.as_str());
            Some(q)
        },
        TableChangeEvents::AddColumn(c, d) => {
            if stage != 4 {
                return None;
            }
            let mut q = alter_prefix(t);
            q.append(" ADD COLUMN ");
            push_quoted(&mut q, c.as_str());
            q.append(" ");
            q.append(d.to_sql());
            Some(q)
        },
        TableChangeEvents::RemoveColumn(c) => {
            if stage != 5 {
                return None;
            }
            let mut q = alter_prefix(t);
            q.append(" DROP COLUMN ");
            push_quoted(&mut q, c.as_str());
            Some(q)
        },
        TableChangeEvents::AddForeignKey(fk) => {
            if stage != 6 {
                return None;
            }
            let mut q = alter_prefix(t);
            let ghost head = q@;
            if find_existing_event(all, EventKind::RemoveForeignKey, &fk.column_name).is_some() {
                q.append(" DROP CONSTRAINT IF EXISTS ");
                push_foreign_key_name(&mut q, t, &fk.column_name);
                q.append(",");
            }
            assert(q@ =~= head + foreign_key_switch(t@, all@, fk.column_name@));
            q.append(" ADD CONSTRAINT ");
            push_foreign_key_name(&mut q, t, &fk.column_name);
            q.append(" FOREIGN KEY (");
            push_quoted(&mut q, fk.column_name.as_str());
            q.append(") REFERENCES ");
            push_quoted(&mut q, fk.referenced_table.as_str());
            q.append(" (");
            push_quoted(&mut q, fk.referenced_column.as_str());
            q.append(")");
            assert(q@ =~= alter(t@) + foreign_key_switch(t@, all@, fk.column_name@) + " ADD CONSTRAINT "@ + foreign_key_name(t@, fk.column_name@) + " FOREIGN KEY ("@
                + quote(fk.column_name@) + ") REFERENCES "@ + quote(fk.referenced_table@) + " ("@
                + quote(fk.referenced_column@) + ")"@);
            Some(q)
        },
        TableChangeEvents::RemoveForeignKey(c) => {
            if stage != 7 || find_existing_event(all, EventKind::AddForeignKey, c).is_some() {
                return None;
            }
            let mut q = alter_prefix(t);
            q.append(" DROP CONSTRAINT IF EXISTS ");
            push_foreign_key_name(&mut q, t, c);
            Some(q)
        },
        _ => None,
    }
}

fn push_foreign_key_name(out: &mut String, t: &String, c: &String)
    ensures
        final(out)@ == old(out)@ + foreign_key_name(t@, c@),
{
    out.append("\"");
    out.append("fk_");
    out.append(t.as_str());
    out.append("_");
    out.append(c.as_str());
    out.append("\"");
    assert(final(out)@ =~= old(out)@ + foreign_key_name(t@, c@));
}

fn push_stage_statements(out: &mut Vec<String>, stage: u8, t: &String, evs: &Vec<TableChangeEvents>)
    ensures
        views(final(out)@) == views(old(out)@) + stage_statements(stage as int, t@, evs@, evs@),
{
    let ghost start = views(out@);
    let mut i: usize = 0;
    while i < evs.len()
        invariant
            i <= evs@.len(),
            views(out@) == start + stage_statements(stage as int, t@, evs@, evs@.subrange(0, i as int)),
        decreases evs@.len() - i,
    {
        proof {
            assert(evs@.subrange(0, i + 1).drop_last() =~= evs@.subrange(0, i as int));
        }
        if let Some(q) = statement_for(stage, t, evs, &evs[i]) {
            let ghost before = out@;
            out.push(q);
            assert(views(out@) =~= views(before).push(q@));
        }
        i = i + 1;
        assert(views(out@) =~= start + stage_statements(stage as int, t@, evs@, evs@.subrange(0, i as int)));
    }
    assert(evs@.subrange(0, evs@.len() as int) =~= evs@);
}

/// Removes the first occurrence of `c` from `pks`; says whether there was one.
fn remove_primary_key_column(pks: &mut Vec<String>, c: &String) -> (found: bool)
    ensures
        views(final(pks)@) == remove_value(views(old(pks)@), c@),
        found == views(old(pks)@).contains(c@),
{
    let ghost v = views(pks@);
    proof {
        v.index_of_first_ensures(c@);
    }
    let mut i: usize = 0;
    while i < pks.len()
        invariant
            i <= pks@.len(),
            pks@ == old(pks)@,
            v == views(pks@),
            forall|j: int| 0 <= j < i ==> pks@[j]@ != c@,
        decreases pks@.len() - i,
    {
        if pks[i] == *c {
            proof {
                v.index_of_first_ensures(c@);
                assert(v[i as int] == c@);
                assert(v.contains(c@));
                let f = v.index_of_first(c@)->0;
                if f < i {
                    assert(v[f] == pks@[f]@);
                }
                if f > i {
                    assert(v[i as int] != c@);
                }
            }
            pks.remove(i);
            assert(views(pks@) =~= v.remove(i as int));
            return true;
        }
        i = i + 1;
    }
    proof {
        v.index_of_first_ensures(c@);
        if v.contains(c@) {
            let f = v.index_of_first(c@)->0;
            assert(v[f] == pks@[f]@);
        }
    }
    false
}

/// Whether `a` and `b` hold the same names in the same order.
fn same_names(a: &Vec<String>, b: &Vec<String>) -> (r: bool)
    ensures
        r == (views(a@) == views(b@)),
{
    if a.len() != b.len() {
        assert(views(a@).len() != views(b@).len());
        return false;
    }
    let mut i: usize = 0;
    while i < a.len()
        invariant
            a@.len() == b@.len(),
            i <= a@.len(),
            forall|j: int| 0 <= j < i ==> a@[j]@ == b@[j]@,
        decreases a@.len() - i,
    {
        if a[i] != b[i] {
            assert(views(a@)[i as int] != views(b@)[i as int]);
            return false;
        }
        i = i + 1;
    }
    assert(views(a@) =~= views(b@));
    true
}

fn join_quoted_names(names: &Vec<String>) -> (r: String)
    ensures
        r@ == join_quoted(views(names@)),
{
    let mut r = String::new();
    let mut i: usize = 0;
    while i < names.len()
        invariant
            i <= names@.len(),
            r@ == join_quoted(views(names@).subrange(0, i as int)),
        decreases names@.len() - i,
    {
        let ghost sub = views(names@).subrange(0, i + 1);
        assert(sub.drop_last() =~= views(names@).subrange(0, i as int));
        if i > 0 {
            r.append(", ");
        }
        push_quoted(&mut r, names[i].as_str());
        proof {
            if i == 0 {
                assert(r@ =~= quote(sub[0]));
            } else {
                assert(r@ =~= join_quoted(sub.drop_last()) + ", "@ + quote(sub.last()));
            }
        }
        i = i + 1;
    }
    assert(views(names@).subrange(0, names@.len() as int) =~= views(names@));
    r
}

fn push_primary_key_statements(
    out: &mut Vec<String>,
    t: &String,
    pks: &Vec<String>,
    evs: &Vec<TableChangeEvents>,
    constraint: &Option<String>,
)
    ensures
        views(final(out)@) == views(old(out)@) + primary_key_statements(t@, views(pks@), evs@, match constraint {
            Some(c) => Some(c@),
            None => None,
        }),
{
    let mut now: Vec<String> = pks.clone();
    let mut dropped = false;
    let mut i: usize = 0;
    assert(views(now@) =~= views(pks@));
    while i < evs.len()
        invariant
            i <= evs@.len(),
            views(now@) == primary_keys_after(views(pks@), evs@.subrange(0, i as int)),
            dropped == primary_key_column_dropped(views(pks@), evs@.subrange(0, i as int)),
        decreases evs@.len() - i,
    {
        proof {
            assert(evs@.subrange(0, i + 1).drop_last() =~= evs@.subrange(0, i as int));
        }
        match &evs[i] {
            TableChangeEvents::RemoveColumn(c) => {
                if remove_primary_key_column(&mut now, c) {
                    dropped = true;
                }
            },
            TableChangeEvents::AddPrimaryKey(c) => {
                let ghost before = now@;
                now.push(c.clone());
                assert(views(now@) =~= views(before).push(c@));
            },
            TableChangeEvents::RemovePrimaryKey(c) => {
                remove_primary_key_column(&mut now, c);
            },
            _ => {},
        }
        i = i + 1;
    }
    assert(evs@.subrange(0, evs@.len() as int) =~= evs@);
    if same_names(&now, pks) {
        assert(views(out@) =~= views(out@) + Seq::<Seq<char>>::empty());
        return;
    }
    let ghost start = views(out@);
    let ghost dropq: Seq<Seq<char>> = seq![];
    if let Some(name) = constraint {
        if !dropped {
            let mut q = alter_prefix(t);
            q.append(" DROP CONSTRAINT ");
            push_quoted(&mut q, name.as_str());
            let ghost before = out@;
            out.push(q);
            assert(views(out@) =~= views(before).push(q@));
            proof {
                dropq = seq![q@];
            }
        }
    }
    assert(views(out@) =~= start + dropq);
    let ghost addq: Seq<Seq<char>> = seq![];
    if now.len() > 0 {
        let mut q = alter_prefix(t);
        q.append(" ADD CONSTRAINT ");
        q.append("\"");
        q.append("pk_");
        q.append(t.as_str());
        q.append("\"");
        q.append(" PRIMARY KEY (");
        let cols = join_quoted_names(&now);
        q.append(cols.as_str());
        q.append(")");
        assert(q@ =~= alter(t@) + " ADD CONSTRAINT "@ + quote("pk_"@ + t@) + " PRIMARY KEY ("@ + join_quoted(views(now@)) + ")"@);
        let ghost before = out@;
        out.push(q);
        assert(views(out@) =~= views(before).push(q@));
        proof {
            addq = seq![q@];
        }
    }
    assert(views(out@) =~= start + (dropq + addq));
}

/// Compiles the pending edits of a table into its batch of DDL statements, or
/// refuses them when an identifier could not be quoted.
pub fn alter_table_queries(
    table_name: &String,
    table_change_events: &Vec<TableChangeEvents>,
    initial_primary_key_column_names: &Vec<String>,
    primary_key_constraint: &Option<String>,
) -> (r: Result<Vec<String>, ValidationError>)
    ensures
        alter_inputs_valid(table_name@, table_change_events@, views(initial_primary_key_column_names@),
            match primary_key_constraint { Some(c) => Some(c@), None => None }) <==> r is Ok,
        r matches Ok(qs) ==> views(qs@) == alter_table_statements(table_name@, table_change_events@,
            views(initial_primary_key_column_names@), match primary_key_constraint { Some(c) => Some(c@), None => None }),
{
    if !is_valid_identifier(table_name) || !all_identifiers_valid(initial_primary_key_column_names) {
        return Err(ValidationError::InvalidIdentifier);
    }
    if let Some(c) = primary_key_constraint {
        if !is_valid_identifier(c) {
            return Err(ValidationError::InvalidIdentifier);
        }
    }
    let mut i: usize = 0;
    while i < table_change_events.len()
        invariant
            i <= table_change_events@.len(),
            forall|j: int| 0 <= j < i ==> event_identifiers_valid(#[trigger] table_change_events@[j]),
        decreases table_change_events@.len() - i,
    {
        if !event_identifiers_valid_exec(&table_change_events[i]) {
            return Err(ValidationError::InvalidIdentifier);
        }
        i = i + 1;
    }
    let t = renamed_table_name(table_name, table_change_events);
    let mut out: Vec<String> = Vec::new();
    push_rename_statements(&mut out, table_name, table_change_events);
    push_stage_statements(&mut out, 2, &t, table_change_events);
    push_stage_statements(&mut out, 3, &t, table_change_events);
    push_stage_statements(&mut out, 4, &t, table_change_events);
    push_stage_statements(&mut out, 5, &t, table_change_events);
    push_stage_statements(&mut out, 6, &t, table_change_events);
    push_stage_statements(&mut out, 7, &t, table_change_events);
    push_primary_key_statements(&mut out, &t, initial_primary_key_column_names, table_change_events, primary_key_constraint);
    assert(views(out@) =~= alter_table_statements(table_name@, table_change_events@,
        views(initial_primary_key_column_names@), match primary_key_constraint { Some(c) => Some(c@), None => None }));
    Ok(out)
}

/// The REFERENCES clauses of a column's foreign keys.
pub open spec fn references_sql(cs: Seq<Constraint>) -> Seq<char>
    decreases cs.len(),
{
    if cs.len() == 0 {
        seq![]
    } else {
        references_sql(cs.drop_last()) + match cs.last() {
            Constraint::ForeignKey(a, b) => " REFERENCES "@ + quote(a@) + "("@ + quote(b@) + ")"@,
            Constraint::PrimaryKey => Seq::<char>::empty(),
        }
    }
}

pub open spec fn column_definition(c: Column) -> Seq<char> {
    quote(c.name@) + " "@ + c.datatype.sql_spec() + references_sql(c.constraints@)
}

/// `CREATE TABLE "t" (<column definitions>, PRIMARY KEY (...))`, the key
/// clause only where some column carries a primary-key marker.
pub open spec fn create_table_sql(t: TableIn) -> Seq<char> {
    let defs = t.columns@.map_values(|c: Column| column_definition(c));
    let pks = primary_key_names(t.columns@);
    let all = if pks.len() > 0 {
        defs.push("PRIMARY KEY ("@ + join_quoted(pks) + ")"@)
    } else {
        defs
    };
    "CREATE TABLE "@ + quote(t.table_name@) + " ("@ + join_with(all, ", "@) + ")"@
}

pub open spec fn constraint_identifiers_valid(c: Constraint) -> bool {
    match c {
        Constraint::ForeignKey(a, b) => valid_identifier(a@) && valid_identifier(b@),
        Constraint::PrimaryKey => true,
    }
}

pub open spec fn column_identifiers_valid(c: Column) -> bool {
    &&& valid_identifier(c.name@)
    &&& forall|i: int| 0 <= i < c.constraints@.len() ==> constraint_identifiers_valid(#[trigger] c.constraints@[i])
}

/// Every name a CREATE TABLE statement for `t` holds is a valid identifier.
pub open spec fn table_in_valid(t: TableIn) -> bool {
    &&& valid_identifier(t.table_name@)
    &&& forall|i: int| 0 <= i < t.columns@.len() ==> column_identifiers_valid(#[trigger] t.columns@[i])
}

fn column_definition_exec(c: &Column) -> (r: Result<String, ValidationError>)
    ensures
        r is Ok <==> column_identifiers_valid(*c),
        r matches Ok(q) ==> q@ == column_definition(*c),
{
    if !is_valid_identifier(&c.name) {
        return Err(ValidationError::InvalidIdentifier);
    }
    let mut q = String::new();
    push_quoted(&mut q, c.name.as_str());
    q.append(" ");
    q.append(c.datatype.to_sql());
    let ghost head = q@;
    let mut i: usize = 0;
    while i < c.constraints.len()
        invariant
            valid_identifier(c.name@),
            i <= c.constraints@.len(),
            q@ == head + references_sql(c.constraints@.subrange(0, i as int)),
            forall|j: int| 0 <= j < i ==> constraint_identifiers_valid(#[trigger] c.constraints@[j]),
        decreases c.constraints@.len() - i,
    {
        proof {
            assert(c.constraints@.subrange(0, i + 1).drop_last() =~= c.constraints@.subrange(0, i as int));
        }
        if let Constraint::ForeignKey(a, b) = &c.constraints[i] {
            if !is_valid_identifier(a) || !is_valid_identifier(b) {
                assert(!constraint_identifiers_valid(c.constraints@[i as int]));
                return Err(ValidationError::InvalidIdentifier);
            }
            q.append(" REFERENCES ");
            push_quoted(&mut q, a.as_str());
            q.append("(");
            push_quoted(&mut q, b.as_str());
            q.append(")");
        }
        i = i + 1;
        assert(q@ =~= head + references_sql(c.constraints@.subrange(0, i as int)));
    }
    assert(c.constraints@.subrange(0, c.constraints@.len() as int) =~= c.constraints@);
    assert(q@ =~= column_definition(*c));
    Ok(q)
}

/// The CREATE TABLE statement for `table_in`, or a refusal when a name could
/// not be quoted.
pub fn create_table_query(table_in: &TableIn) -> (r: Result<String, ValidationError>)
    ensures
        r is Ok <==> table_in_valid(*table_in),
        r matches Ok(q) ==> q@ == create_table_sql(*table_in),
{
    if !is_valid_identifier(&table_in.table_name) {
        return Err(ValidationError::InvalidIdentifier);
    }
    let ghost defs = table_in.columns@.map_values(|c: Column| column_definition(c));
    let mut parts: Vec<String> = Vec::new();
    let mut i: usize = 0;
    while i < table_in.columns.len()
        invariant
            valid_identifier(table_in.table_name@),
            i <= table_in.columns@.len(),
            defs == table_in.columns@.map_values(|c: Column| column_definition(c)),
            views(parts@) == defs.subrange(0, i as int),
            forall|j: int| 0 <= j < i ==> column_identifiers_valid(#[trigger] table_in.columns@[j]),
        decreases table_in.columns@.len() - i,
    {
        match column_definition_exec(&table_in.columns[i]) {
            Ok(q) => {
                let ghost before = parts@;
                parts.push(q);
                assert(views(parts@) =~= views(before).push(defs[i as int]));
            },
            Err(e) => {
                return Err(e);
            },
        }
        i = i + 1;
        assert(views(parts@) =~= defs.subrange(0, i as int));
    }
    assert(defs.subrange(0, defs.len() as int) =~= defs);
    let pks = primary_key_columns(&table_in.columns);
    if pks.len() > 0 {
        let mut k = String::from_str("PRIMARY KEY (");
        let cols = join_quoted_names(&pks);
        k.append(cols.as_str());
        k.append(")");
        let ghost before = parts@;
        parts.push(k);
        assert(views(parts@) =~= views(before).push("PRIMARY KEY ("@ + join_quoted(views(pks@)) + ")"@));
    }
    let mut q = String::from_str("CREATE TABLE ");
    push_quoted(&mut q, table_in.table_name.as_str());
    q.append(" (");
    let body = join_strings(&parts, ", ");
    q.append(body.as_str());
    q.append(")");
    assert(q@ =~= create_table_sql(*table_in));
    Ok(q)
}

/// `DROP TABLE "t"`, or a refusal when the name could not be quoted.
pub fn delete_table_query(table_name: &String) -> (r: Result<String, ValidationError>)
    ensures
        r is Ok <==> valid_identifier(table_name@),
        r matches Ok(q) ==> q@ == "DROP TABLE "@ + quote(table_name@),
{
    if !is_valid_identifier(table_name) {
        return Err(ValidationError::InvalidIdentifier);
    }
    let mut q = String::from_str("DROP TABLE ");
    push_quoted(&mut q, table_name.as_str());
    Ok(q)
}

pub open spec fn select_column_sql(c: Seq<char>) -> Seq<char> {
    "COALESCE("@ + quote(c) + "::TEXT, '') AS "@ + quote(c)
}

/// The query reading every row of `t` as text, empty for NULL, ordered by the
/// given columns.
pub open spec fn select_rows_sql(t: Seq<char>, cols: Seq<Seq<char>>, order: Seq<Seq<char>>) -> Seq<char> {
    "SELECT "@ + join_with(cols.map_values(|c: Seq<char>| select_column_sql(c)), ", "@) + " FROM "@ + quote(t)
        + " ORDER BY "@ + join_quoted(order)
}

/// The query behind the table-data view, or a refusal when a name could not
/// be quoted.
pub fn table_data_rows_query(table_name: &String, column_names: &Vec<String>, order_by_column_names: &Vec<String>) -> (r: Result<String, ValidationError>)
    ensures
        r is Ok <==> valid_identifier(table_name@) && all_valid(views(column_names@)) && all_valid(views(order_by_column_names@)),
        r matches Ok(q) ==> q@ == select_rows_sql(table_name@, views(column_names@), views(order_by_column_names@)),
{
    if !is_valid_identifier(table_name) || !all_identifiers_valid(column_names) || !all_identifiers_valid(order_by_column_names) {
        return Err(ValidationError::InvalidIdentifier);
    }
    let ghost cs = views(column_names@);
    let ghost sel = cs.map_values(|c: Seq<char>| select_column_sql(c));
    let mut parts: Vec<String> = Vec::new();
    let mut i: usize = 0;
    while i < column_names.len()
        invariant
            i <= column_names@.len(),
            cs == views(column_names@),
            sel == cs.map_values(|c: Seq<char>| select_column_sql(c)),
            views(parts@) == sel.subrange(0, i as int),
        decreases column_names@.len() - i,
    {
        let mut p = String::from_str("COALESCE(");
        push_quoted(&mut p, column_names[i].as_str());
        p.append("::TEXT, '') AS ");
        push_quoted(&mut p, column_names[i].as_str());
        assert(p@ =~= select_column_sql(cs[i as int]));
        let ghost before = parts@;
        parts.push(p);
        assert(views(parts@) =~= views(before).push(sel[i as int]));
        i = i + 1;
        assert(views(parts@) =~= sel.subrange(0, i as int));
    }
    assert(sel.subrange(0, sel.len() as int) =~= sel);
    let mut q = String::from_str("SELECT ");
    let select_list = join_strings(&parts, ", ");
    q.append(select_list.as_str());
    q.append(" FROM ");
    push_quoted(&mut q, table_name.as_str());
    q.append(" ORDER BY ");
    let order = join_quoted_names(order_by_column_names);
    q.append(order.as_str());
    assert(q@ =~= select_rows_sql(table_name@, views(column_names@), views(order_by_column_names@)));
    Ok(q)
}

} // verus!
