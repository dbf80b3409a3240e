use vstd::prelude::*;
use crate::ddl::{is_valid_identifier, quote, valid_identifier, views, ValidationError};
use crate::schema::{ColumnValue, Condition, DataType, RowColumnValue, RowInsertData, TableDataChangeEvents};

verus! {

/// `parts` joined by `sep`.
pub open spec fn join_with(parts: Seq<Seq<char>>, sep: Seq<char>) -> Seq<char>
    decreases parts.len(),
{
    if parts.len() == 0 {
        seq![]
    } else if parts.len() == 1 {
        parts[0]
    } else {
        join_with(parts.drop_last(), sep) + sep + parts.last()
    }
}

/// A value as it stands in a statement: text between single quotes, any
/// other type as it is.
pub open spec fn value_literal(d: DataType, v: Seq<char>) -> Seq<char> {
    if d == DataType::TEXT { "'"@ + v + "'"@ } else { v }
}

pub open spec fn condition_sql(c: Condition) -> Seq<char> {
    quote(c.column_name@) + " = "@ + value_literal(c.data_type, c.value@)
}

pub open spec fn filter_sql(conds: Seq<Condition>) -> Seq<char> {
    join_with(conds.map_values(|c: Condition| condition_sql(c)), " AND "@)
}

pub open spec fn update_sql(v: ColumnValue) -> Seq<char> {
    quote(v.column_name@) + " = "@ + value_literal(v.data_type, v.value@)
}

pub open spec fn updates_sql(vals: Seq<ColumnValue>) -> Seq<char> {
    join_with(vals.map_values(|v: ColumnValue| update_sql(v)), ", "@)
}

/// The value inserted into column `c` of table `t`: an empty primary-key value
/// is generated (the next integer, or a random token for text); any other empty
/// value is NULL.
pub open spec fn insert_value(t: Seq<char>, c: Seq<char>, v: Seq<char>, d: DataType, pks: Seq<Seq<char>>) -> Seq<char> {
    if v.len() == 0 && pks.contains(c) {
        if d == DataType::INTEGER {
            "(SELECT COALESCE(MAX("@ + quote(c) + "), 0) + 1 FROM "@ + quote(t) + ")"@
        } else if d == DataType::TEXT {
            "gen_random_uuid()::TEXT"@
        } else {
            "NULL"@
        }
    } else if v.len() == 0 {
        "NULL"@
    } else {
        value_literal(d, v)
    }
}

/// The number of columns an insert fills: the shortest of its three lists.
pub open spec fn insert_width(r: RowInsertData) -> int {
    let a = r.column_names@.len();
    let b = r.values@.len();
    let c = r.data_types@.len();
    if a <= b && a <= c { a as int } else if b <= c { b as int } else { c as int }
}

pub open spec fn insert_sql(t: Seq<char>, r: RowInsertData, pks: Seq<Seq<char>>) -> Seq<char> {
    let n = insert_width(r);
    let names = Seq::new(n as nat, |i: int| quote(r.column_names@[i]@));
    let vals = Seq::new(n as nat, |i: int| insert_value(t, r.column_names@[i]@, r.values@[i]@, r.data_types@[i], pks));
    "INSERT INTO "@ + quote(t) + " ("@ + join_with(names, ", "@) + ") VALUES ("@ + join_with(vals, ", "@) + ")"@
}

/// The statement for one row-level edit on table `t` with primary key `pks`.
pub open spec fn row_statement(t: Seq<char>, e: TableDataChangeEvents, pks: Seq<Seq<char>>) -> Seq<char> {
    match e {
        TableDataChangeEvents::ModifyRowColumnValue(m) => "UPDATE "@ + quote(t) + " SET "@
            + updates_sql(m.column_values@) + " WHERE "@ + filter_sql(m.conditions@),
        TableDataChangeEvents::DeleteRow(conds) => "DELETE FROM "@ + quote(t) + " WHERE "@ + filter_sql(conds@),
        TableDataChangeEvents::InsertRow(r) => insert_sql(t, r, pks),
    }
}

/// Every column name that the edit puts in a statement is a valid identifier.
pub open spec fn row_identifiers_valid(e: TableDataChangeEvents) -> bool {
    match e {
        TableDataChangeEvents::ModifyRowColumnValue(m) => {
            &&& forall|i: int| 0 <= i < m.conditions@.len() ==> valid_identifier(#[trigger] m.conditions@[i].column_name@)
            &&& forall|i: int| 0 <= i < m.column_values@.len() ==> valid_identifier(#[trigger] m.column_values@[i].column_name@)
        },
        TableDataChangeEvents::DeleteRow(conds) => forall|i: int|
            0 <= i < conds@.len() ==> valid_identifier(#[trigger] conds@[i].column_name@),
        TableDataChangeEvents::InsertRow(r) => forall|i: int|
            0 <= i < insert_width(r) ==> valid_identifier(#[trigger] r.column_names@[i]@),
    }
}

/// A row update names each column at most once.
pub open spec fn row_columns_distinct(e: TableDataChangeEvents) -> bool {
    match e {
        TableDataChangeEvents::ModifyRowColumnValue(m) => forall|i: int, j: int|
            0 <= i < j < m.column_values@.len() ==> (#[trigger] m.column_values@[i]).column_name@ != (#[trigger] m.column_values@[j]).column_name@,
        _ => true,
    }
}

fn row_columns_distinct_exec(e: &TableDataChangeEvents) -> (r: bool)
    ensures
        r == row_columns_distinct(*e),
{
    match e {
        TableDataChangeEvents::ModifyRowColumnValue(m) => {
            let vals = &m.column_values;
            let mut j: usize = 0;
            while j < vals.len()
                invariant
                    *e == TableDataChangeEvents::ModifyRowColumnValue(*m),
                    *vals == m.column_values,
                    j <= vals@.len(),
                    forall|a: int, b: int| 0 <= a < b < j ==> (#[trigger] vals@[a]).column_name@ != (#[trigger] vals@[b]).column_name@,
                decreases vals@.len() - j,
            {
                let mut i: usize = 0;
                while i < j
                    invariant
                        *e == TableDataChangeEvents::ModifyRowColumnValue(*m),
                        *vals == m.column_values,
                        j < vals@.len(),
                        i <= j,
                        forall|a: int| 0 <= a < i ==> (#[trigger] vals@[a]).column_name@ != vals@[j as int].column_name@,
                    decreases j - i,
                {
                    if vals[i].column_name == vals[j].column_name {
                        assert(vals@[i as int].column_name@ == vals@[j as int].column_name@);
                        return false;
                    }
                    i = i + 1;
                }
                j = j + 1;
            }
            true
        },
        _ => true,
    }
}

/// Joins `parts` with `sep`.
pub fn join_strings(parts: &Vec<String>, sep: &str) -> (r: String)
    ensures
        r@ == join_with(views(parts@), sep@),
{
    let mut r = String::new();
    let mut i: usize = 0;
    while i < parts.len()
        invariant
            i <= parts@.len(),
            r@ == join_with(views(parts@).subrange(0, i as int), sep@),
        decreases parts@.len() - i,
    {
        let ghost sub = views(parts@).subrange(0, i + 1);
        assert(sub.drop_last() =~= views(parts@).subrange(0, i as int));
        if i > 0 {
            r.append(sep);
        }
        r.append(parts[i].as_str());
        proof {
            if i == 0 {
                assert(r@ =~= sub[0]);
            } else {
                assert(r@ =~= join_with(sub.drop_last(), sep@) + sep@ + sub.last());
            }
        }
        i = i + 1;
    }
    assert(views(parts@).subrange(0, parts@.len() as int) =~= views(parts@));
    r
}

fn push_value_literal(out: &mut String, d: DataType, v: &String)
    ensures
        final(out)@ == old(out)@ + value_literal(d, v@),
{
    if d == DataType::TEXT {
        out.append("'");
        out.append(v.as_str());
        out.append("'");
        assert(final(out)@ =~= old(out)@ + value_literal(d, v@));
    } else {
        out.append(v.as_str());
    }
}

fn push_quoted_name(out: &mut String, x: &String)
    ensures
        final(out)@ == old(out)@ + quote(x@),
{
    out.append("\"");
    out.append(x.as_str());
    out.append("\"");
    assert(final(out)@ =~= old(out)@ + quote(x@));
}

/// The WHERE clause of equality conditions.
pub fn get_filter_condition(conditions: &Vec<Condition>) -> (r: String)
    ensures
        r@ == filter_sql(conditions@),
{
    let mut parts: Vec<String> = Vec::new();
    let mut i: usize = 0;
    while i < conditions.len()
        invariant
            i <= conditions@.len(),
            views(parts@) == conditions@.subrange(0, i as int).map_values(|c: Condition| condition_sql(c)),
        decreases conditions@.len() - i,
    {
        let c = &conditions[i];
        let mut q = String::new();
        push_quoted_name(&mut q, &c.column_name);
        q.append(" = ");
        push_value_literal(&mut q, c.data_type, &c.value);
        assert(q@ =~= condition_sql(*c));
        let ghost before = parts@;
        parts.push(q);
        assert(views(parts@) =~= views(before).push(condition_sql(*c)));
        assert(conditions@.subrange(0, i + 1) =~= conditions@.subrange(0, i as int).push(*c));
        i = i + 1;
        assert(views(parts@) =~= conditions@.subrange(0, i as int).map_values(|c: Condition| condition_sql(c)));
    }
    assert(conditions@.subrange(0, conditions@.len() as int) =~= conditions@);
    join_strings(&parts, " AND ")
}

/// The SET clause of new column values.
pub fn get_updates(column_values: &Vec<ColumnValue>) -> (r: String)
    ensures
        r@ == updates_sql(column_values@),
{
    let mut parts: Vec<String> = Vec::new();
    let mut i: usize = 0;
    while i < column_values.len()
        invariant
            i <= column_values@.len(),
            views(parts@) == column_values@.subrange(0, i as int).map_values(|v: ColumnValue| update_sql(v)),
        decreases column_values@.len() - i,
    {
        let v = &column_values[i];
        let mut q = String::new();
        push_quoted_name(&mut q, &v.column_name);
        q.append(" = ");
        push_value_literal(&mut q, v.data_type, &v.value);
        assert(q@ =~= update_sql(*v));
        let ghost before = parts@;
        parts.push(q);
        assert(views(parts@) =~= views(before).push(update_sql(*v)));
        assert(column_values@.subrange(0, i + 1) =~= column_values@.subrange(0, i as int).push(*v));
        i = i + 1;
        assert(views(parts@) =~= column_values@.subrange(0, i as int).map_values(|v: ColumnValue| update_sql(v)));
    }
    assert(column_values@.subrange(0, column_values@.len() as int) =~= column_values@);
    join_strings(&parts, ", ")
}

fn contains_name(names: &Vec<String>, c: &String) -> (r: bool)
    ensures
        r == views(names@).contains(c@),
{
    let mut i: usize = 0;
    while i < names.len()
        invariant
            i <= names@.len(),
            forall|j: int| 0 <= j < i ==> names@[j]@ != c@,
        decreases names@.len() - i,
    {
        if names[i] == *c {
            assert(views(names@)[i as int] == c@);
            return true;
        }
        i = i + 1;
    }
    assert forall|j: int| 0 <= j < views(names@).len() implies views(names@)[j] != c@ by {
        assert(views(names@)[j] == names@[j]@);
    }
    false
}

/// The value to insert into column `c` of table `t`.
pub fn get_insert_value(t: &String, c: &String, v: &String, d: DataType, primary_key_column_names: &Vec<String>) -> (r: String)
    ensures
        r@ == insert_value(t@, c@, v@, d, views(primary_key_column_names@)),
{
    let empty = v.as_str().unicode_len() == 0;
    if empty && contains_name(primary_key_column_names, c) {
        if d == DataType::INTEGER {
            let mut q = String::from_str("(SELECT COALESCE(MAX(");
            push_quoted_name(&mut q, c);
            q.append("), 0) + 1 FROM ");
            push_quoted_name(&mut q, t);
            q.append(")");
            q
        } else if d == DataType::TEXT {
            String::from_str("gen_random_uuid()::TEXT")
        } else {
            String::from_str("NULL")
        }
    } else if empty {
        String::from_str("NULL")
    } else {
        let mut q = String::new();
        push_value_literal(&mut q, d, v);
        assert(q@ =~= value_literal(d, v@));
        q
    }
}

fn insert_query(t: &String, r: &RowInsertData, primary_key_column_names: &Vec<String>) -> (q: String)
    ensures
        q@ == insert_sql(t@, *r, views(primary_key_column_names@)),
{
    let a = r.column_names.len();
    let b = r.values.len();
    let c = r.data_types.len();
    let n = if a <= b && a <= c { a } else if b <= c { b } else { c };
    let ghost pks = views(primary_key_column_names@);
    let ghost names_spec = Seq::new(n as nat, |i: int| quote(r.column_names@[i]@));
    let ghost vals_spec = Seq::new(n as nat, |i: int| insert_value(t@, r.column_names@[i]@, r.values@[i]@, r.data_types@[i], pks));
    let mut names: Vec<String> = Vec::new();
    let mut vals: Vec<String> = Vec::new();
    let mut i: usize = 0;
    while i < n
        invariant
            n as int == insert_width(*r),
            i <= n,
            n <= r.column_names@.len() && n <= r.values@.len() && n <= r.data_types@.len(),
            pks == views(primary_key_column_names@),
            names_spec == Seq::new(n as nat, |i: int| quote(r.column_names@[i]@)),
            vals_spec == Seq::new(n as nat, |i: int| insert_value(t@, r.column_names@[i]@, r.values@[i]@, r.data_types@[i], pks)),
            views(names@) == names_spec.subrange(0, i as int),
            views(vals@) == vals_spec.subrange(0, i as int),
        decreases n - i,
    {
        let mut nm = String::new();
        push_quoted_name(&mut nm, &r.column_names[i]);
        assert(nm@ =~= quote(r.column_names@[i as int]@));
        let ghost nb = names@;
        names.push(nm);
        assert(views(names@) =~= views(nb).push(names_spec[i as int]));
        let v = get_insert_value(t, &r.column_names[i], &r.values[i], r.data_types[i], primary_key_column_names);
        let ghost vb = vals@;
        vals.push(v);
        assert(views(vals@) =~= views(vb).push(vals_spec[i as int]));
        assert(names_spec.subrange(0, i + 1) =~= names_spec.subrange(0, i as int).push(names_spec[i as int]));
        assert(vals_spec.subrange(0, i + 1) =~= vals_spec.subrange(0, i as int).push(vals_spec[i as int]));
        i = i + 1;
        assert(views(names@) =~= names_spec.subrange(0, i as int));
        assert(views(vals@) =~= vals_spec.subrange(0, i as int));
    }
    assert(names_spec.subrange(0, n as int) =~= names_spec);
    assert(vals_spec.subrange(0, n as int) =~= vals_spec);
    let mut q = String::from_str("INSERT INTO ");
    push_quoted_name(&mut q, t);
    q.append(" (");
    let joined_names = join_strings(&names, ", ");
    q.append(joined_names.as_str());
    q.append(") VALUES (");
    let joined_vals = join_strings(&vals, ", ");
    q.append(joined_vals.as_str());
    q.append(")");
    assert(q@ =~= insert_sql(t@, *r, pks));
    q
}

/// The statement for one row-level edit.
pub fn row_query(t: &String, e: &TableDataChangeEvents, primary_key_column_names: &Vec<String>) -> (q: String)
    ensures
        q@ == row_statement(t@, *e, views(primary_key_column_names@)),
{
    match e {
        TableDataChangeEvents::ModifyRowColumnValue(m) => {
            let mut q = String::from_str("UPDATE ");
            push_quoted_name(&mut q, t);
            q.append(" SET ");
            let updates = get_updates(&m.column_values);
            q.append(updates.as_str());
            q.append(" WHERE ");
            let filter = get_filter_condition(&m.conditions);
            q.append(filter.as_str());
            assert(q@ =~= row_statement(t@, *e, views(primary_key_column_names@)));
            q
        },
        TableDataChangeEvents::DeleteRow(conds) => {
            let mut q = String::from_str("DELETE FROM ");
            push_quoted_name(&mut q, t);
            q.append(" WHERE ");
            let filter = get_filter_condition(conds);
            q.append(filter.as_str());
            assert(q@ =~= row_statement(t@, *e, views(primary_key_column_names@)));
            q
        },
        TableDataChangeEvents::InsertRow(r) => insert_query(t, r, primary_key_column_names),
    }
}

fn conditions_valid(conds: &Vec<Condition>) -> (r: bool)
    ensures
        r == forall|i: int| 0 <= i < conds@.len() ==> valid_identifier(#[trigger] conds@[i].column_name@),
{
    let mut i: usize = 0;
    while i < conds.len()
        invariant
            i <= conds@.len(),
            forall|j: int| 0 <= j < i ==> valid_identifier(#[trigger] conds@[j].column_name@),
        decreases conds@.len() - i,
    {
        if !is_valid_identifier(&conds[i].column_name) {
            assert(!valid_identifier(conds@[i as int].column_name@));
            return false;
        }
        i = i + 1;
    }
    true
}

fn row_identifiers_valid_exec(e: &TableDataChangeEvents) -> (r: bool)
    ensures
        r == row_identifiers_valid(*e),
{
    match e {
        TableDataChangeEvents::ModifyRowColumnValue(m) => {
            if !conditions_valid(&m.conditions) {
                return false;
            }
            let mut i: usize = 0;
            while i < m.column_values.len()
                invariant
                    *e == TableDataChangeEvents::ModifyRowColumnValue(*m),
                    forall|j: int| 0 <= j < m.conditions@.len() ==> valid_identifier(#[trigger] m.conditions@[j].column_name@),
                    i <= m.column_values@.len(),
                    forall|j: int| 0 <= j < i ==> valid_identifier(#[trigger] m.column_values@[j].column_name@),
                decreases m.column_values@.len() - i,
            {
                if !is_valid_identifier(&m.column_values[i].column_name) {
                    assert(!valid_identifier(m.column_values@[i as int].column_name@));
                    return false;
                }
                i = i + 1;
            }
            true
        },
        TableDataChangeEvents::DeleteRow(conds) => conditions_valid(conds),
        TableDataChangeEvents::InsertRow(row) => {
            let a = row.column_names.len();
            let b = row.values.len();
            let c = row.data_types.len();
            let n = if a <= b && a <= c { a } else if b <= c { b } else { c };
            assert(row_identifiers_valid(*e) == (forall|j: int| 0 <= j < insert_width(*row) ==> valid_identifier(#[trigger] row.column_names@[j]@)));
            let mut i: usize = 0;
            while i < n
                invariant
                    row_identifiers_valid(*e) == (forall|j: int| 0 <= j < insert_width(*row) ==> valid_identifier(#[trigger] row.column_names@[j]@)),
                    n as int == insert_width(*row),
                    n <= row.column_names@.len(),
                    i <= n,
                    forall|j: int| 0 <= j < i ==> valid_identifier(#[trigger] row.column_names@[j]@),
                decreases n - i,
            {
                if !is_valid_identifier(&row.column_names[i]) {
                    assert(!valid_identifier(row.column_names@[i as int]@));
                    return false;
                }
                i = i + 1;
            }
            true
        },
    }
}

/// Compiles row-level edits on table `t`, in order, or refuses them: when a
/// table or column name could not be quoted, else when an update names a
/// column twice.
pub fn update_table_data_queries(
    table_name: &String,
    table_data_change_events: &Vec<TableDataChangeEvents>,
    primary_key_column_names: &Vec<String>,
) -> (r: Result<Vec<String>, ValidationError>)
    ensures
        (valid_identifier(table_name@) && forall|i: int|
            0 <= i < table_data_change_events@.len() ==> row_identifiers_valid(#[trigger] table_data_change_events@[i]))
            <==> !(r == Err::<Vec<String>, ValidationError>(ValidationError::InvalidIdentifier)),
        r is Ok <==> !(r == Err::<Vec<String>, ValidationError>(ValidationError::InvalidIdentifier)) && forall|i: int|
            0 <= i < table_data_change_events@.len() ==> row_columns_distinct(#[trigger] table_data_change_events@[i]),
        r matches Ok(qs) ==> views(qs@) == table_data_change_events@.map_values(
            |e: TableDataChangeEvents| row_statement(table_name@, e, views(primary_key_column_names@))),
{
    if !is_valid_identifier(table_name) {
        return Err(ValidationError::InvalidIdentifier);
    }
    let mut i: usize = 0;
    while i < table_data_change_events.len()
        invariant
            i <= table_data_change_events@.len(),
            forall|j: int| 0 <= j < i ==> row_identifiers_valid(#[trigger] table_data_change_events@[j]),
        decreases table_data_change_events@.len() - i,
    {
        if !row_identifiers_valid_exec(&table_data_change_events[i]) {
            return Err(ValidationError::InvalidIdentifier);
        }
        i = i + 1;
    }
    let mut d: usize = 0;
    while d < table_data_change_events.len()
        invariant
            d <= table_data_change_events@.len(),
            valid_identifier(table_name@),
            forall|j: int| 0 <= j < table_data_change_events@.len() ==> row_identifiers_valid(#[trigger] table_data_change_events@[j]),
            forall|j: int| 0 <= j < d ==> row_columns_distinct(#[trigger] table_data_change_events@[j]),
        decreases table_data_change_events@.len() - d,
    {
        if !row_columns_distinct_exec(&table_data_change_events[d]) {
            return Err(ValidationError::DuplicateColumn);
        }
        d = d + 1;
    }
    let ghost pks = views(primary_key_column_names@);
    let mut out: Vec<String> = Vec::new();
    let mut k: usize = 0;
    while k < table_data_change_events.len()
        invariant
            k <= table_data_change_events@.len(),
            pks == views(primary_key_column_names@),
            views(out@) == table_data_change_events@.subrange(0, k as int).map_values(
                |e: TableDataChangeEvents| row_statement(table_name@, e, pks)),
        decreases table_data_change_events@.len() - k,
    {
        let q = row_query(table_name, &table_data_change_events[k], primary_key_column_names);
        let ghost before = out@;
        out.push(q);
        assert(views(out@) =~= views(before).push(q@));
        assert(table_data_change_events@.subrange(0, k + 1) =~= table_data_change_events@.subrange(0, k as int).push(table_data_change_events@[k as int]));
        k = k + 1;
        assert(views(out@) =~= table_data_change_events@.subrange(0, k as int).map_values(
            |e: TableDataChangeEvents| row_statement(table_name@, e, pks)));
    }
    assert(table_data_change_events@.subrange(0, table_data_change_events@.len() as int) =~= table_data_change_events@);
    Ok(out)
}

} // verus!
