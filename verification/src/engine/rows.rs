//! Rows and what a SELECT does to them before any aggregation: WHERE
//! filtering, nested-loop joins, column selection and LIMIT.

use vstd::prelude::*;
use crate::engine::ast::{BinaryOperator, Expression, JoinClause, JoinType, SelectItem};
use crate::engine::failure::EngineError;
use crate::engine::values::{
    DataValue, Literal, literal_to_datavalue, literal_value, value_eq, values_equal,
};
use crate::text::{chars_of, keys_unique, owned, push_text, string_of_chars, StringMap};

verus! {

/// A row: its values by column name.
pub type Row = StringMap<DataValue>;

/// What a row stands for: a map from column names to values.
pub type RowMap = Map<Seq<char>, DataValue>;

/// The maps a list of rows stands for.
pub open spec fn row_maps(rows: Seq<Row>) -> Seq<RowMap> {
    rows.map_values(|r: Row| r@)
}

/// A copy of a row, entry for entry.
pub fn copy_row(row: &Row) -> (r: Row)
    ensures
        r@ == row@,
        r.entry_seq() == row.entry_seq(),
{
    let entries = row.entry_list();
    let mut out: Vec<(String, DataValue)> = Vec::new();
    let mut i: usize = 0;
    while i < entries.len()
        invariant
            i <= entries@.len(),
            out@ == entries@.take(i as int),
        decreases entries.len() - i,
    {
        out.push((entries[i].0.clone(), entries[i].1.duplicate()));
        i = i + 1;
        assert(out@ =~= entries@.take(i as int));
    }
    assert(out@ =~= entries@);
    let r = StringMap::from_entries(out);
    proof {
        row.lemma_view();
    }
    r
}

/// The value an expression has on one row, as GROUP BY, ORDER BY and
/// window functions read it: a column's value (null when the row has no such
/// column) or a literal's value; other expressions are not evaluated.
pub open spec fn group_value(expr: Expression, row: RowMap) -> Result<DataValue, EngineError> {
    match expr {
        Expression::Identifier(c) => Ok(
            if row.contains_key(c@) {
                row[c@]
            } else {
                DataValue::Null
            },
        ),
        Expression::Literal(lit) => Ok(literal_value(lit)),
        _ => Err(EngineError::UnsupportedExpression),
    }
}

/// Evaluates an expression on one row (see `group_value`).
pub fn evaluate_group_expression(expr: &Expression, row: &Row) -> (r: Result<DataValue, EngineError>)
    ensures
        r == group_value(*expr, row@),
{
    match expr {
        Expression::Identifier(c) => match row.get(c.as_str()) {
            Some(v) => Ok(v.duplicate()),
            None => Ok(DataValue::Null),
        },
        Expression::Literal(lit) => Ok(literal_to_datavalue(lit)),
        _ => Err(EngineError::UnsupportedExpression),
    }
}

/// Whether a row value equals a literal: integers, texts and booleans of the
/// same kind only.
pub open spec fn literal_matches(v: DataValue, lit: Literal) -> bool {
    match (v, lit) {
        (DataValue::Integer(a), Literal::Integer(b)) => a == b,
        (DataValue::Text(a), Literal::String(b)) => a@ == b@,
        (DataValue::Boolean(a), Literal::Boolean(b)) => a == b,
        _ => false,
    }
}

/// Whether a row passes a WHERE condition.  A condition `column = literal`
/// holds when the row has the column and its value matches the literal;
/// every other condition lets each row pass.
pub open spec fn where_holds(row: RowMap, cond: Expression) -> bool {
    match cond {
        Expression::BinaryOp { left, op, right } => match (*left, *right) {
            (Expression::Identifier(c), Expression::Literal(lit)) => if op == BinaryOperator::Equal {
                row.contains_key(c@) && literal_matches(row[c@], lit)
            } else {
                true
            },
            _ => true,
        },
        _ => true,
    }
}

/// Evaluates a WHERE condition on a row (see `where_holds`).
pub fn evaluate_where_condition(row: &Row, condition: &Expression) -> (r: bool)
    ensures
        r == where_holds(row@, *condition),
{
    match condition {
        Expression::BinaryOp { left, op, right } => match (&**left, &**right) {
            (Expression::Identifier(c), Expression::Literal(lit)) => {
                if *op != BinaryOperator::Equal {
                    return true;
                }
                match row.get(c.as_str()) {
                    Some(v) => match (v, lit) {
                        (DataValue::Integer(a), Literal::Integer(b)) => *a == *b,
                        (DataValue::Text(a), Literal::String(b)) => crate::text::str_equal(a.as_str(), b.as_str()),
                        (DataValue::Boolean(a), Literal::Boolean(b)) => *a == *b,
                        _ => false,
                    },
                    None => false,
                }
            },
            _ => true,
        },
        _ => true,
    }
}

/// The rows that pass a WHERE condition, in their order.
pub open spec fn rows_where(rows: Seq<RowMap>, cond: Expression) -> Seq<RowMap>
    decreases rows.len(),
{
    if rows.len() == 0 {
        Seq::empty()
    } else {
        let kept = rows_where(rows.drop_last(), cond);
        if where_holds(rows.last(), cond) {
            kept.push(rows.last())
        } else {
            kept
        }
    }
}

pub proof fn lemma_row_maps_take(rows: Seq<Row>, i: int)
    requires
        0 <= i < rows.len(),
    ensures
        row_maps(rows).take(i + 1).drop_last() == row_maps(rows).take(i),
        row_maps(rows).take(i + 1).last() == rows[i]@,
        row_maps(rows).take(i + 1).len() == i + 1,
{
    assert(row_maps(rows).take(i + 1).drop_last() =~= row_maps(rows).take(i));
}

pub proof fn lemma_row_maps_push(rows: Seq<Row>, r: Row)
    ensures
        row_maps(rows.push(r)) == row_maps(rows).push(r@),
{
    assert(row_maps(rows.push(r)) =~= row_maps(rows).push(r@));
}

/// The rows that pass a WHERE condition, copied, in their order.
pub fn apply_where_clause(rows: &Vec<Row>, where_clause: &Expression) -> (r: Vec<Row>)
    ensures
        row_maps(r@) == rows_where(row_maps(rows@), *where_clause),
{
    let mut out: Vec<Row> = Vec::new();
    let mut i: usize = 0;
    while i < rows.len()
        invariant
            i <= rows@.len(),
            row_maps(out@) == rows_where(row_maps(rows@).take(i as int), *where_clause),
        decreases rows.len() - i,
    {
        proof {
            lemma_row_maps_take(rows@, i as int);
        }
        if evaluate_where_condition(&rows[i], where_clause) {
            let c = copy_row(&rows[i]);
            proof {
                lemma_row_maps_push(out@, c);
            }
            out.push(c);
        }
        i = i + 1;
    }
    assert(row_maps(rows@).take(i as int) =~= row_maps(rows@));
    out
}

/// The number of `.` characters in a text.
pub open spec fn dot_count(s: Seq<char>) -> nat
    decreases s.len(),
{
    if s.len() == 0 {
        0
    } else {
        dot_count(s.drop_last()) + if s.last() == '.' {
            1nat
        } else {
            0nat
        }
    }
}

/// The part of a text after its last `.` (the whole text when it has none).
pub open spec fn after_last_dot(s: Seq<char>) -> Seq<char>
    decreases s.len(),
{
    if s.len() == 0 {
        s
    } else if s.last() == '.' {
        Seq::empty()
    } else {
        after_last_dot(s.drop_last()).push(s.last())
    }
}

/// The column a name in a join condition refers to: the name itself, or,
/// for `table.column`, the part after the dot; a name with more than one dot
/// refers to none.
pub open spec fn join_column(name: Seq<char>) -> Option<Seq<char>> {
    if dot_count(name) <= 1 {
        Some(after_last_dot(name))
    } else {
        None
    }
}

fn column_of_name(name: &str) -> (r: Option<String>)
    ensures
        match r {
            Some(c) => join_column(name@) == Some(c@),
            None => join_column(name@) is None,
        },
{
    let v = chars_of(name);
    let mut dots: usize = 0;
    let mut tail: Vec<char> = Vec::new();
    let mut i: usize = 0;
    while i < v.len()
        invariant
            i <= v@.len(),
            v@ == name@,
            dots == dot_count(v@.take(i as int)),
            dots <= i,
            tail@ == after_last_dot(v@.take(i as int)),
        decreases v.len() - i,
    {
        assert(v@.take(i as int + 1).drop_last() =~= v@.take(i as int));
        if v[i] == '.' {
            dots = dots + 1;
            tail = Vec::new();
            assert(tail@ =~= Seq::<char>::empty());
        } else {
            tail.push(v[i]);
        }
        i = i + 1;
    }
    assert(v@.take(i as int) =~= v@);
    if dots <= 1 {
        Some(string_of_chars(&tail))
    } else {
        None
    }
}

/// The value of an operand of a join condition on a pair of rows: a column
/// is looked up in the left row, then in the right one; a literal has its
/// value.  A column found in neither row, and any other expression, fail.
pub open spec fn join_value(expr: Expression, left: RowMap, right: RowMap) -> Result<DataValue, EngineError> {
    match expr {
        Expression::Identifier(name) => match join_column(name@) {
            Some(c) => if left.contains_key(c) {
                Ok(left[c])
            } else if right.contains_key(c) {
                Ok(right[c])
            } else {
                Err(EngineError::ColumnNotFound(name))
            },
            None => Err(EngineError::ColumnNotFound(name)),
        },
        Expression::Literal(lit) => Ok(literal_value(lit)),
        _ => Err(EngineError::UnsupportedExpression),
    }
}

/// Evaluates an operand of a join condition (see `join_value`).
pub fn evaluate_join_expression(expr: &Expression, left_row: &Row, right_row: &Row) -> (r: Result<DataValue, EngineError>)
    ensures
        r == join_value(*expr, left_row@, right_row@),
{
    match expr {
        Expression::Identifier(name) => {
            match column_of_name(name.as_str()) {
                Some(c) => {
                    match left_row.get(c.as_str()) {
                        Some(v) => Ok(v.duplicate()),
                        None => match right_row.get(c.as_str()) {
                            Some(v) => Ok(v.duplicate()),
                            None => Err(EngineError::ColumnNotFound(name.clone())),
                        },
                    }
                },
                None => Err(EngineError::ColumnNotFound(name.clone())),
            }
        },
        Expression::Literal(lit) => Ok(literal_to_datavalue(lit)),
        _ => Err(EngineError::UnsupportedExpression),
    }
}

/// Whether a join condition holds for a pair of rows.  Only `a = b` and
/// `a != b` are evaluated (left operand first); every other condition holds
/// for no pair.
pub open spec fn join_condition(cond: Expression, left: RowMap, right: RowMap) -> Result<bool, EngineError> {
    match cond {
        Expression::BinaryOp { left: a, op, right: b } => if op == BinaryOperator::Equal || op
            == BinaryOperator::NotEqual {
            match join_value(*a, left, right) {
                Err(e) => Err(e),
                Ok(x) => match join_value(*b, left, right) {
                    Err(e) => Err(e),
                    Ok(y) => Ok(if op == BinaryOperator::Equal {
                        value_eq(x, y)
                    } else {
                        !value_eq(x, y)
                    }),
                },
            }
        } else {
            Ok(false)
        },
        _ => Ok(false),
    }
}

/// Evaluates a join condition on a pair of rows (see `join_condition`).
pub fn evaluate_join_condition(condition: &Expression, left_row: &Row, right_row: &Row) -> (r: Result<bool, EngineError>)
    ensures
        r == join_condition(*condition, left_row@, right_row@),
{
    match condition {
        Expression::BinaryOp { left, op, right } => {
            if *op == BinaryOperator::Equal || *op == BinaryOperator::NotEqual {
                let x = match evaluate_join_expression(&**left, left_row, right_row) {
                    Ok(x) => x,
                    Err(e) => return Err(e),
                };
                let y = match evaluate_join_expression(&**right, left_row, right_row) {
                    Ok(y) => y,
                    Err(e) => return Err(e),
                };
                let same = values_equal(&x, &y);
                if *op == BinaryOperator::Equal {
                    Ok(same)
                } else {
                    Ok(!same)
                }
            } else {
                Ok(false)
            }
        },
        _ => Ok(false),
    }
}

/// A row's values under the names `prefix` + column.
pub open spec fn prefixed(row: RowMap, prefix: Seq<char>) -> RowMap {
    Map::new(
        |k: Seq<char>| prefix.len() <= k.len() && k.take(prefix.len() as int) == prefix && row.contains_key(
            k.skip(prefix.len() as int),
        ),
        |k: Seq<char>| row[k.skip(prefix.len() as int)],
    )
}

/// A left row joined with a matching right row: the left row's values, then
/// the right row's under qualified names (which win over a left column of the
/// same name).
pub open spec fn merged_row(left: RowMap, right: RowMap, prefix: Seq<char>) -> RowMap {
    left.union_prefer_right(prefixed(right, prefix))
}

/// A left row without a match in a LEFT JOIN: its values, with null under
/// the qualified names of the first right row's columns it does not have.
pub open spec fn null_filled_row(left: RowMap, rights: Seq<RowMap>, prefix: Seq<char>) -> RowMap {
    if rights.len() == 0 {
        left
    } else {
        prefixed(rights[0], prefix).map_values(|v: DataValue| DataValue::Null).union_prefer_right(left)
    }
}

/// The joined rows for one left row and the right rows (in their order)
/// that the condition matches; the first failing evaluation fails.
pub open spec fn join_matches(left: RowMap, rights: Seq<RowMap>, cond: Expression, prefix: Seq<char>) -> Result<
    Seq<RowMap>,
    EngineError,
>
    decreases rights.len(),
{
    if rights.len() == 0 {
        Ok(Seq::empty())
    } else {
        match join_matches(left, rights.drop_last(), cond, prefix) {
            Err(e) => Err(e),
            Ok(found) => match join_condition(cond, left, rights.last()) {
                Err(e) => Err(e),
                Ok(true) => Ok(found.push(merged_row(left, rights.last(), prefix))),
                Ok(false) => Ok(found),
            },
        }
    }
}

/// The rows one left row contributes to a join: its matches, or, in a LEFT
/// JOIN without any match, the left row filled with nulls.  RIGHT and FULL
/// joins contribute the matches alone.
pub open spec fn join_one(left: RowMap, rights: Seq<RowMap>, cond: Expression, prefix: Seq<char>, kind: JoinType) -> Result<
    Seq<RowMap>,
    EngineError,
> {
    match join_matches(left, rights, cond, prefix) {
        Err(e) => Err(e),
        Ok(found) => Ok(
            if kind == JoinType::Left && found.len() == 0 {
                seq![null_filled_row(left, rights, prefix)]
            } else {
                found
            },
        ),
    }
}

/// The rows of a nested-loop join, left rows in order, each with its right
/// rows in order; the first failing evaluation fails.
pub open spec fn join_all(lefts: Seq<RowMap>, rights: Seq<RowMap>, cond: Expression, prefix: Seq<char>, kind: JoinType) -> Result<
    Seq<RowMap>,
    EngineError,
>
    decreases lefts.len(),
{
    if lefts.len() == 0 {
        Ok(Seq::empty())
    } else {
        match join_all(lefts.drop_last(), rights, cond, prefix, kind) {
            Err(e) => Err(e),
            Ok(done) => match join_one(lefts.last(), rights, cond, prefix, kind) {
                Err(e) => Err(e),
                Ok(more) => Ok(done + more),
            },
        }
    }
}

/// The qualifier of a joined table's columns: its alias, else its name,
/// followed by a dot.
pub open spec fn join_prefix(join: JoinClause) -> Seq<char> {
    match join.alias {
        Some(a) => a@ + "."@,
        None => join.table@ + "."@,
    }
}

fn prefix_of(join_clause: &JoinClause) -> (r: String)
    ensures
        r@ == join_prefix(*join_clause),
{
    let mut p = match &join_clause.alias {
        Some(a) => a.clone(),
        None => join_clause.table.clone(),
    };
    push_text(&mut p, ".");
    p
}

fn merge_rows(left_row: &Row, right_row: &Row, prefix: &str) -> (r: Row)
    ensures
        r@ == merged_row(left_row@, right_row@, prefix@),
{
    let mut joined = copy_row(left_row);
    let entries = right_row.entry_list();
    proof {
        right_row.lemma_view();
    }
    let mut j: usize = 0;
    while j < entries.len()
        invariant
            j <= entries@.len(),
            entries@ == right_row.entry_seq(),
            keys_unique(entries@),
            right_row@ == crate::text::entries_map(entries@),
            joined@ == left_row@.union_prefer_right(prefixed(crate::text::entries_map(entries@.take(j as int)), prefix@)),
        decreases entries.len() - j,
    {
        let mut key = owned(prefix);
        push_text(&mut key, entries[j].0.as_str());
        let ghost k = key@;
        let ghost c = entries@[j as int].0@;
        joined.insert(key, entries[j].1.duplicate());
        proof {
            let before = crate::text::entries_map(entries@.take(j as int));
            let after = crate::text::entries_map(entries@.take(j as int + 1));
            assert(entries@.take(j as int + 1) =~= entries@.take(j as int).push(entries@[j as int]));
            assert(k.take(prefix@.len() as int) =~= prefix@);
            assert(k.skip(prefix@.len() as int) =~= c);
            assert forall|x: Seq<char>| #![auto] after.contains_key(x) <==> (before.contains_key(x) || x == c) by {
                if after.contains_key(x) {
                    let t = choose|t: int| 0 <= t < entries@.take(j as int + 1).len() && #[trigger] entries@.take(j as int + 1)[t].0@ == x;
                    if t < j {
                        assert(entries@.take(j as int)[t].0@ == x);
                    }
                }
                if before.contains_key(x) {
                    let t = choose|t: int| 0 <= t < entries@.take(j as int).len() && #[trigger] entries@.take(j as int)[t].0@ == x;
                    assert(entries@.take(j as int + 1)[t].0@ == x);
                }
                if x == c {
                    assert(entries@.take(j as int + 1)[j as int].0@ == x);
                }
            }
            assert forall|x: Seq<char>| #![auto] after.contains_key(x) implies after[x] == (if x == c {
                entries@[j as int].1
            } else {
                before[x]
            }) by {
                crate::text::lemma_key_index_unique(entries@, j as int);
                let ta = crate::text::key_index(entries@.take(j as int + 1), x);
                if x == c {
                    assert(entries@.take(j as int + 1)[j as int].0@ == x);
                } else {
                    let tb = crate::text::key_index(entries@.take(j as int), x);
                    assert(entries@.take(j as int + 1)[tb].0@ == x);
                }
            }
            let lhs = joined@;
            let rhs = left_row@.union_prefer_right(prefixed(after, prefix@));
            assert forall|x: Seq<char>| #![auto] lhs.contains_key(x) <==> rhs.contains_key(x) by {
                if prefix@.len() <= x.len() && x.take(prefix@.len() as int) == prefix@ {
                    if x.skip(prefix@.len() as int) == c {
                        assert(x =~= k);
                    }
                }
            }
            assert forall|x: Seq<char>| #![auto] lhs.contains_key(x) implies lhs[x] == rhs[x] by {
                if x == k {
                } else if prefix@.len() <= x.len() && x.take(prefix@.len() as int) == prefix@ && x.skip(
                    prefix@.len() as int,
                ) == c {
                    assert(x =~= k);
                }
            }
            assert(lhs =~= rhs);
        }
        j = j + 1;
    }
    assert(entries@.take(j as int) =~= entries@);
    joined
}

fn null_fill(left_row: &Row, right_rows: &Vec<Row>, prefix: &str) -> (r: Row)
    ensures
        r@ == null_filled_row(left_row@, row_maps(right_rows@), prefix@),
{
    let mut joined = copy_row(left_row);
    if right_rows.len() == 0 {
        return joined;
    }
    let first = &right_rows[0];
    let entries = first.entry_list();
    proof {
        first.lemma_view();
    }
    let ghost nulls = |m: RowMap| prefixed(m, prefix@).map_values(|v: DataValue| DataValue::Null);
    let mut j: usize = 0;
    while j < entries.len()
        invariant
            j <= entries@.len(),
            entries@ == first.entry_seq(),
            keys_unique(entries@),
            first@ == crate::text::entries_map(entries@),
            joined@ == prefixed(crate::text::entries_map(entries@.take(j as int)), prefix@).map_values(
                |v: DataValue| DataValue::Null,
            ).union_prefer_right(left_row@),
        decreases entries.len() - j,
    {
        let mut key = owned(prefix);
        push_text(&mut key, entries[j].0.as_str());
        let ghost k = key@;
        let ghost c = entries@[j as int].0@;
        let ghost before_joined = joined@;
        if !joined.contains_key(key.as_str()) {
            joined.insert(key, DataValue::Null);
        }
        proof {
            let before = crate::text::entries_map(entries@.take(j as int));
            let after = crate::text::entries_map(entries@.take(j as int + 1));
            assert(entries@.take(j as int + 1) =~= entries@.take(j as int).push(entries@[j as int]));
            assert(k.take(prefix@.len() as int) =~= prefix@);
            assert(k.skip(prefix@.len() as int) =~= c);
            assert forall|x: Seq<char>| #![auto] after.contains_key(x) <==> (before.contains_key(x) || x == c) by {
                if after.contains_key(x) {
                    let t = choose|t: int| 0 <= t < entries@.take(j as int + 1).len() && #[trigger] entries@.take(j as int + 1)[t].0@ == x;
                    if t < j {
                        assert(entries@.take(j as int)[t].0@ == x);
                    }
                }
                if before.contains_key(x) {
                    let t = choose|t: int| 0 <= t < entries@.take(j as int).len() && #[trigger] entries@.take(j as int)[t].0@ == x;
                    assert(entries@.take(j as int + 1)[t].0@ == x);
                }
                if x == c {
                    assert(entries@.take(j as int + 1)[j as int].0@ == x);
                }
            }
            let lhs = joined@;
            let rhs = prefixed(after, prefix@).map_values(|v: DataValue| DataValue::Null).union_prefer_right(
                left_row@,
            );
            assert forall|x: Seq<char>| #![auto] lhs.contains_key(x) <==> rhs.contains_key(x) by {
                if prefix@.len() <= x.len() && x.take(prefix@.len() as int) == prefix@ {
                    if x.skip(prefix@.len() as int) == c {
                        assert(x =~= k);
                    }
                }
            }
            assert forall|x: Seq<char>| #![auto] lhs.contains_key(x) implies lhs[x] == rhs[x] by {
                if prefix@.len() <= x.len() && x.take(prefix@.len() as int) == prefix@ && x.skip(
                    prefix@.len() as int,
                ) == c {
                    assert(x =~= k);
                }
            }
            assert(lhs =~= rhs);
        }
        j = j + 1;
    }
    assert(entries@.take(j as int) =~= entries@);
    joined
}

/// Joins rows with the rows of another table by nested loops: for each left
/// row in order, each right row in order that the condition matches gives
/// the left row with the right row's values under `alias.` (or `table.`)
/// names; in a LEFT JOIN, a left row without a match gives itself with nulls
/// under those names.  Fails with the first failing evaluation of the
/// condition.
pub fn perform_join(left_rows: &Vec<Row>, right_rows: &Vec<Row>, join_clause: &JoinClause) -> (r: Result<
    Vec<Row>,
    EngineError,
>)
    ensures
        match join_all(
            row_maps(left_rows@),
            row_maps(right_rows@),
            join_clause.condition,
            join_prefix(*join_clause),
            join_clause.join_type,
        ) {
            Ok(rows) => r is Ok && row_maps(r->Ok_0@) == rows,
            Err(e) => r == Err::<Vec<Row>, EngineError>(e),
        },
{
    let prefix = prefix_of(join_clause);
    let ghost lefts = row_maps(left_rows@);
    let ghost rights = row_maps(right_rows@);
    let ghost cond = join_clause.condition;
    let ghost kind = join_clause.join_type;
    let mut joined: Vec<Row> = Vec::new();
    let mut i: usize = 0;
    proof {
        assert(row_maps(joined@) =~= Seq::<RowMap>::empty());
        assert(lefts.take(0).len() == 0);
    }
    while i < left_rows.len()
        invariant
            i <= left_rows@.len(),
            lefts == row_maps(left_rows@),
            rights == row_maps(right_rows@),
            cond == join_clause.condition,
            kind == join_clause.join_type,
            prefix@ == join_prefix(*join_clause),
            join_all(lefts.take(i as int), rights, cond, prefix@, kind) == Ok::<Seq<RowMap>, EngineError>(
                row_maps(joined@),
            ),
        decreases left_rows.len() - i,
    {
        proof {
            lemma_row_maps_take(left_rows@, i as int);
        }
        let left_row = &left_rows[i];
        let ghost start = row_maps(joined@);
        let mut found_match = false;
        let mut j: usize = 0;
        while j < right_rows.len()
            invariant
                j <= right_rows@.len(),
                i < left_rows@.len(),
                *left_row == left_rows@[i as int],
                lefts == row_maps(left_rows@),
                rights == row_maps(right_rows@),
                cond == join_clause.condition,
                kind == join_clause.join_type,
                prefix@ == join_prefix(*join_clause),
                join_all(lefts.take(i as int), rights, cond, prefix@, kind) == Ok::<Seq<RowMap>, EngineError>(start),
                join_matches(left_row@, rights.take(j as int), cond, prefix@) matches Ok(found) && row_maps(
                    joined@,
                ) == start + found && found_match == (found.len() > 0),
            decreases right_rows.len() - j,
        {
            proof {
                lemma_row_maps_take(right_rows@, j as int);
            }
            let matches = evaluate_join_condition(&join_clause.condition, left_row, &right_rows[j]);
            match matches {
                Err(e) => {
                    proof {
                        lemma_join_matches_error(left_row@, rights, cond, prefix@, j as int + 1, e);
                        assert(lefts.take(i as int + 1).last() == left_row@);
                        assert(lefts.take(i as int + 1).drop_last() == lefts.take(i as int));
                        assert(join_one(left_row@, rights, cond, prefix@, kind) == Err::<Seq<RowMap>, EngineError>(e));
                        assert(join_all(lefts.take(i as int + 1), rights, cond, prefix@, kind) == Err::<
                            Seq<RowMap>,
                            EngineError,
                        >(e));
                        lemma_join_all_error(lefts, rights, cond, prefix@, kind, i as int + 1, e);
                    }
                    return Err(e);
                },
                Ok(true) => {
                    let row = merge_rows(left_row, &right_rows[j], prefix.as_str());
                    proof {
                        lemma_row_maps_push(joined@, row);
                    }
                    joined.push(row);
                    found_match = true;
                },
                Ok(false) => {},
            }
            j = j + 1;
        }
        proof {
            assert(rights.take(j as int) =~= rights);
        }
        if join_clause.join_type == JoinType::Left && !found_match {
            let row = null_fill(left_row, right_rows, prefix.as_str());
            proof {
                lemma_row_maps_push(joined@, row);
            }
            joined.push(row);
        }
        proof {
            let found = join_matches(left_row@, rights, cond, prefix@)->Ok_0;
            let more = join_one(lefts.take(i as int + 1).last(), rights, cond, prefix@, kind)->Ok_0;
            assert(row_maps(joined@) =~= start + more);
        }
        i = i + 1;
    }
    proof {
        assert(lefts.take(i as int) =~= lefts);
    }
    Ok(joined)
}

proof fn lemma_join_matches_error(left: RowMap, rights: Seq<RowMap>, cond: Expression, prefix: Seq<char>, n: int, e: EngineError)
    requires
        0 <= n <= rights.len(),
        join_matches(left, rights.take(n), cond, prefix) == Err::<Seq<RowMap>, EngineError>(e),
    ensures
        join_matches(left, rights, cond, prefix) == Err::<Seq<RowMap>, EngineError>(e),
    decreases rights.len(),
{
    if n < rights.len() {
        assert(rights.drop_last().take(n) =~= rights.take(n));
        lemma_join_matches_error(left, rights.drop_last(), cond, prefix, n, e);
    } else {
        assert(rights.take(n) =~= rights);
    }
}

proof fn lemma_join_all_error(lefts: Seq<RowMap>, rights: Seq<RowMap>, cond: Expression, prefix: Seq<char>, kind: JoinType, n: int, e: EngineError)
    requires
        0 <= n <= lefts.len(),
        join_all(lefts.take(n), rights, cond, prefix, kind) == Err::<Seq<RowMap>, EngineError>(e),
    ensures
        join_all(lefts, rights, cond, prefix, kind) == Err::<Seq<RowMap>, EngineError>(e),
    decreases lefts.len(),
{
    if n < lefts.len() {
        assert(lefts.drop_last().take(n) =~= lefts.take(n));
        lemma_join_all_error(lefts.drop_last(), rights, cond, prefix, kind, n, e);
    } else {
        assert(lefts.take(n) =~= lefts);
    }
}

/// Whether a select list has `*`.
pub open spec fn has_wildcard(items: Seq<SelectItem>) -> bool {
    exists|i: int| 0 <= i < items.len() && #[trigger] items[i] is Wildcard
}

/// Whether a select item is the plain column name `c`.
pub open spec fn item_names(item: SelectItem, c: Seq<char>) -> bool {
    item matches SelectItem::Expression { expr: Expression::Identifier(n), .. } && n@ == c
}

/// Whether a select list names the column `c` (as a plain identifier).
pub open spec fn selects_column(items: Seq<SelectItem>, c: Seq<char>) -> bool {
    exists|i: int| 0 <= i < items.len() && #[trigger] item_names(items[i], c)
}

/// A row cut to the columns a select list asks for: all of them with `*`,
/// else the plain column names of the list (other expressions select
/// nothing).
pub open spec fn projected(row: RowMap, items: Seq<SelectItem>) -> RowMap {
    if has_wildcard(items) {
        row
    } else {
        row.restrict(Set::new(|c: Seq<char>| selects_column(items, c)))
    }
}

/// The rows of a plain SELECT: each row cut to the selected columns, then
/// the first `limit` rows (all without a limit).
pub open spec fn selected_rows(rows: Seq<RowMap>, items: Seq<SelectItem>, limit: Option<u64>) -> Seq<RowMap> {
    let all = rows.map_values(|r: RowMap| projected(r, items));
    match limit {
        Some(n) => if n < all.len() {
            all.take(n as int)
        } else {
            all
        },
        None => all,
    }
}

fn select_has_wildcard(items: &Vec<SelectItem>) -> (r: bool)
    ensures
        r == has_wildcard(items@),
{
    let mut i: usize = 0;
    while i < items.len()
        invariant
            i <= items@.len(),
            forall|j: int| 0 <= j < i ==> !(#[trigger] items@[j] is Wildcard),
        decreases items.len() - i,
    {
        if let SelectItem::Wildcard = &items[i] {
            return true;
        }
        i = i + 1;
    }
    false
}

/// Cuts a row to the columns a select list asks for (see `projected`).
pub fn project_row(row: &Row, items: &Vec<SelectItem>) -> (r: Row)
    ensures
        r@ == projected(row@, items@),
{
    if select_has_wildcard(items) {
        return copy_row(row);
    }
    let ghost wanted = Set::new(|c: Seq<char>| selects_column(items@, c));
    let mut out: Row = StringMap::new();
    let mut i: usize = 0;
    while i < items.len()
        invariant
            i <= items@.len(),
            wanted == Set::new(|c: Seq<char>| selects_column(items@, c)),
            out@ == row@.restrict(Set::new(|c: Seq<char>| selects_column(items@.take(i as int), c))),
        decreases items.len() - i,
    {
        let ghost before = out@;
        match &items[i] {
            SelectItem::Expression { expr: Expression::Identifier(name), .. } => {
                match row.get(name.as_str()) {
                    Some(v) => {
                        out.insert(name.clone(), v.duplicate());
                    },
                    None => {},
                }
                proof {
                    assert forall|c: Seq<char>| #![auto] item_names(items@[i as int], c) <==> c == name@ by {}
                }
            },
            _ => {
                proof {
                    assert forall|c: Seq<char>| #![auto] !item_names(items@[i as int], c) by {}
                }
            },
        }
        proof {
            assert forall|c: Seq<char>| #![auto] out@.contains_key(c) <==> (before.contains_key(c) || (item_names(
                items@[i as int],
                c,
            ) && row@.contains_key(c))) by {}
            assert forall|c: Seq<char>| #![auto] out@.contains_key(c) implies out@[c] == row@[c] by {
                if !before.contains_key(c) || item_names(items@[i as int], c) {
                } else {
                }
            }
            let now = Set::new(|c: Seq<char>| selects_column(items@.take(i as int + 1), c));
            assert forall|c: Seq<char>| #![auto] selects_column(items@.take(i as int + 1), c) <==> (selects_column(
                items@.take(i as int),
                c,
            ) || item_names(items@[i as int], c)) by {
                if selects_column(items@.take(i as int + 1), c) {
                    let t = choose|t: int|
                        0 <= t < items@.take(i as int + 1).len() && #[trigger] item_names(items@.take(i as int + 1)[t], c);
                    if t < i {
                        assert(items@.take(i as int)[t] == items@[t]);
                    }
                }
                if selects_column(items@.take(i as int), c) {
                    let t = choose|t: int|
                        0 <= t < items@.take(i as int).len() && #[trigger] item_names(items@.take(i as int)[t], c);
                    assert(items@.take(i as int + 1)[t] == items@[t]);
                }
                if item_names(items@[i as int], c) {
                    assert(items@.take(i as int + 1)[i as int] == items@[i as int]);
                }
            }
            assert(out@ =~= row@.restrict(now));
        }
        i = i + 1;
    }
    proof {
        assert(items@.take(i as int) =~= items@);
    }
    out
}

/// The rows of a plain SELECT (see `selected_rows`).
pub fn select_rows(rows: &Vec<Row>, items: &Vec<SelectItem>, limit: Option<u64>) -> (r: Vec<Row>)
    ensures
        row_maps(r@) == selected_rows(row_maps(rows@), items@, limit),
{
    let mut out: Vec<Row> = Vec::new();
    let mut i: usize = 0;
    let n: usize = match limit {
        Some(l) => if l < rows.len() as u64 {
            l as usize
        } else {
            rows.len()
        },
        None => rows.len(),
    };
    while i < n
        invariant
            i <= n <= rows@.len(),
            row_maps(out@) =~= row_maps(rows@).map_values(|r: RowMap| projected(r, items@)).take(i as int),
        decreases n - i,
    {
        let p = project_row(&rows[i], items);
        proof {
            lemma_row_maps_push(out@, p);
        }
        out.push(p);
        i = i + 1;
        assert(row_maps(out@) =~= row_maps(rows@).map_values(|r: RowMap| projected(r, items@)).take(i as int));
    }
    proof {
        let all = row_maps(rows@).map_values(|r: RowMap| projected(r, items@));
        if n == rows@.len() {
            assert(all.take(n as int) =~= all);
        }
    }
    out
}


/// A join condition `a != b` holds for a pair of rows exactly when `a = b`
/// does not (both fail alike when an operand cannot be read); on integer
/// operands `a = b` holds exactly when the integers are equal.
pub proof fn law_join_not_equal_negates_equal(a: Expression, b: Expression, left: RowMap, right: RowMap)
    ensures
        match join_condition(
            Expression::BinaryOp { left: Box::new(a), op: BinaryOperator::Equal, right: Box::new(b) },
            left,
            right,
        ) {
            Ok(t) => join_condition(
                Expression::BinaryOp { left: Box::new(a), op: BinaryOperator::NotEqual, right: Box::new(b) },
                left,
                right,
            ) == Ok::<bool, EngineError>(!t),
            Err(e) => join_condition(
                Expression::BinaryOp { left: Box::new(a), op: BinaryOperator::NotEqual, right: Box::new(b) },
                left,
                right,
            ) == Err::<bool, EngineError>(e),
        },
        forall|x: i64, y: i64|
            join_value(a, left, right) == Ok::<DataValue, EngineError>(DataValue::Integer(x)) && join_value(
                b,
                left,
                right,
            ) == Ok::<DataValue, EngineError>(DataValue::Integer(y)) ==> join_condition(
                Expression::BinaryOp { left: Box::new(a), op: BinaryOperator::NotEqual, right: Box::new(b) },
                left,
                right,
            ) == Ok::<bool, EngineError>(x != y),
{
}

/// A WHERE condition `column = literal` on a row whose column holds a text
/// (an integer) holds exactly when that text (integer) is the literal's; a
/// row without the column fails it.
pub proof fn law_where_equality_compares_values(row: RowMap, c: String, lit: Literal)
    ensures
        forall|a: String, b: String|
            row.contains_key(c@) && row[c@] == DataValue::Text(a) && lit == Literal::String(b) ==> (where_holds(
                row,
                Expression::BinaryOp {
                    left: Box::new(Expression::Identifier(c)),
                    op: BinaryOperator::Equal,
                    right: Box::new(Expression::Literal(lit)),
                },
            ) <==> a@ == b@),
        forall|a: i64, b: i64|
            row.contains_key(c@) && row[c@] == DataValue::Integer(a) && lit == Literal::Integer(b) ==> (where_holds(
                row,
                Expression::BinaryOp {
                    left: Box::new(Expression::Identifier(c)),
                    op: BinaryOperator::Equal,
                    right: Box::new(Expression::Literal(lit)),
                },
            ) <==> a == b),
        !row.contains_key(c@) ==> !where_holds(
            row,
            Expression::BinaryOp {
                left: Box::new(Expression::Identifier(c)),
                op: BinaryOperator::Equal,
                right: Box::new(Expression::Literal(lit)),
            },
        ),
{
}

} // verus!
