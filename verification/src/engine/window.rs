//! Ordering rows, and window functions: ROW_NUMBER, RANK, DENSE_RANK, LAG,
//! LEAD, FIRST_VALUE, LAST_VALUE and the aggregates over a row's partition.

use vstd::prelude::*;
use crate::ambient::{to_uppercase, upper_of};
use crate::engine::aggregate::{
    AggregateSpec, AggregateValue, key_of, keys_alike, min_fold, max_fold, numbers_of, or_null, row_key, same_key,
    same_group_value, spelled,
};
use crate::engine::aggregate::{aggregate_row_view, aggregate_row_views, output_name, expression_to_column_name};
use crate::engine::ast::{Expression, OrderByItem, SelectItem, WindowFunction};
use crate::engine::failure::EngineError;
use crate::engine::rows::{copy_row, evaluate_group_expression, group_value, lemma_row_maps_push, row_maps, Row, RowMap};
use crate::engine::values::{
    compare_values, literal_to_datavalue, literal_value, max_of_values, min_of_values, text_order, value_order, DataValue,
    Literal, ValueOrder,
};
use crate::text::{entries_map, keys_unique, lemma_entries_map_take, str_equal, StringMap};

verus! {

/// The value an ordering key has on a row: its value, or null when it cannot
/// be evaluated.
pub open spec fn order_value(expr: Expression, row: RowMap) -> DataValue {
    match group_value(expr, row) {
        Ok(v) => v,
        Err(_) => DataValue::Null,
    }
}

/// How two rows compare under ORDER BY keys: the first key on which they
/// differ decides, in its direction; rows equal on every key are equal.
pub open spec fn row_order(a: RowMap, b: RowMap, keys: Seq<OrderByItem>) -> ValueOrder
    decreases keys.len(),
{
    if keys.len() == 0 {
        ValueOrder::Equal
    } else {
        let c = value_order(order_value(keys[0].expr, a), order_value(keys[0].expr, b));
        if c != ValueOrder::Equal {
            if keys[0].ascending {
                c
            } else {
                c.flipped()
            }
        } else {
            row_order(a, b, keys.drop_first())
        }
    }
}

/// Compares two rows under ORDER BY keys (see `row_order`).
pub fn compare_rows_for_ordering(a: &Row, b: &Row, order_by: &Vec<OrderByItem>) -> (r: ValueOrder)
    ensures
        r == row_order(a@, b@, order_by@),
{
    let mut i: usize = 0;
    proof {
        assert(order_by@.skip(0) =~= order_by@);
    }
    while i < order_by.len()
        invariant
            i <= order_by@.len(),
            row_order(a@, b@, order_by@) == row_order(a@, b@, order_by@.skip(i as int)),
        decreases order_by.len() - i,
    {
        let item = &order_by[i];
        let x = match evaluate_group_expression(&item.expr, a) {
            Ok(v) => v,
            Err(_) => DataValue::Null,
        };
        let y = match evaluate_group_expression(&item.expr, b) {
            Ok(v) => v,
            Err(_) => DataValue::Null,
        };
        let c = compare_values(&x, &y);
        assert(order_by@.skip(i as int)[0] == order_by@[i as int]);
        if c != ValueOrder::Equal {
            return if item.ascending {
                c
            } else {
                c.reverse()
            };
        }
        assert(order_by@.skip(i as int).drop_first() =~= order_by@.skip(i as int + 1));
        i = i + 1;
    }
    ValueOrder::Equal
}

/// How the rows at two indices compare under ORDER BY keys.
pub open spec fn index_order(rows: Seq<RowMap>, keys: Seq<OrderByItem>, a: usize, b: usize) -> ValueOrder {
    row_order(rows[a as int], rows[b as int], keys)
}

/// Inserts an index into an ordered list after every index that does not
/// come after it (a stable insertion).
pub open spec fn insert_ordered(rows: Seq<RowMap>, keys: Seq<OrderByItem>, s: Seq<usize>, x: usize) -> Seq<usize>
    decreases s.len(),
{
    if s.len() == 0 {
        seq![x]
    } else if index_order(rows, keys, s.last(), x) == ValueOrder::Greater {
        insert_ordered(rows, keys, s.drop_last(), x).push(s.last())
    } else {
        s.push(x)
    }
}

/// The indices in the order of the keys, equal ones keeping their order (a
/// stable insertion sort).
pub open spec fn sort_indices_spec(rows: Seq<RowMap>, keys: Seq<OrderByItem>, s: Seq<usize>) -> Seq<usize>
    decreases s.len(),
{
    if s.len() == 0 {
        Seq::empty()
    } else {
        insert_ordered(rows, keys, sort_indices_spec(rows, keys, s.drop_last()), s.last())
    }
}

proof fn lemma_insert_ordered_at(rows: Seq<RowMap>, keys: Seq<OrderByItem>, s: Seq<usize>, x: usize, j: int)
    requires
        0 <= j <= s.len(),
        forall|k: int| j <= k < s.len() ==> #[trigger] index_order(rows, keys, s[k], x) == ValueOrder::Greater,
        j == 0 || index_order(rows, keys, s[j - 1], x) != ValueOrder::Greater,
    ensures
        insert_ordered(rows, keys, s, x) == s.insert(j, x),
    decreases s.len(),
{
    if j == s.len() {
        if s.len() == 0 {
            assert(s.insert(j, x) =~= seq![x]);
        } else {
            assert(s.insert(j, x) =~= s.push(x));
        }
    } else {
        assert(index_order(rows, keys, s[s.len() - 1], x) == ValueOrder::Greater);
        lemma_insert_ordered_at(rows, keys, s.drop_last(), x, j);
        assert(s.drop_last().insert(j, x).push(s.last()) =~= s.insert(j, x));
    }
}

proof fn lemma_insert_ordered_len(rows: Seq<RowMap>, keys: Seq<OrderByItem>, s: Seq<usize>, x: usize)
    ensures
        insert_ordered(rows, keys, s, x).len() == s.len() + 1,
    decreases s.len(),
{
    if s.len() > 0 {
        lemma_insert_ordered_len(rows, keys, s.drop_last(), x);
    }
}

/// Sorts indices of rows by ORDER BY keys, stably (see `sort_indices_spec`).
pub fn sort_indices(rows: &Vec<Row>, indices: &Vec<usize>, order_by: &Vec<OrderByItem>) -> (r: Vec<usize>)
    requires
        forall|i: int| 0 <= i < indices@.len() ==> #[trigger] indices@[i] < rows@.len(),
    ensures
        r@ == sort_indices_spec(row_maps(rows@), order_by@, indices@),
        r@.len() == indices@.len(),
        forall|i: int| 0 <= i < r@.len() ==> #[trigger] r@[i] < rows@.len(),
{
    let ghost maps = row_maps(rows@);
    let mut out: Vec<usize> = Vec::new();
    let mut i: usize = 0;
    while i < indices.len()
        invariant
            i <= indices@.len(),
            maps == row_maps(rows@),
            forall|k: int| 0 <= k < indices@.len() ==> #[trigger] indices@[k] < rows@.len(),
            out@ == sort_indices_spec(maps, order_by@, indices@.take(i as int)),
            out@.len() == i,
            forall|k: int| 0 <= k < out@.len() ==> #[trigger] out@[k] < rows@.len(),
        decreases indices.len() - i,
    {
        assert(indices@.take(i as int + 1).drop_last() =~= indices@.take(i as int));
        let x = indices[i];
        let mut j: usize = out.len();
        let mut settled = false;
        while j > 0 && !settled
            invariant
                j <= out@.len(),
                x < rows@.len(),
                maps == row_maps(rows@),
                forall|k: int| 0 <= k < out@.len() ==> #[trigger] out@[k] < rows@.len(),
                forall|k: int| j <= k < out@.len() ==> #[trigger] index_order(maps, order_by@, out@[k], x)
                    == ValueOrder::Greater,
                settled ==> j > 0 && index_order(maps, order_by@, out@[j - 1], x) != ValueOrder::Greater,
            decreases j + if settled {
                0int
            } else {
                1int
            },
        {
            let c = compare_rows_for_ordering(&rows[out[j - 1]], &rows[x], order_by);
            if c != ValueOrder::Greater {
                settled = true;
            } else {
                j = j - 1;
            }
        }
        proof {
            lemma_insert_ordered_at(maps, order_by@, out@, x, j as int);
        }
        out.insert(j, x);
        i = i + 1;
    }
    assert(indices@.take(i as int) =~= indices@);
    out
}

/// The PARTITION BY key of each row, in order; the first failing evaluation
/// fails.
pub open spec fn partition_keys(rows: Seq<RowMap>, exprs: Seq<Expression>) -> Result<Seq<Seq<DataValue>>, EngineError>
    decreases rows.len(),
{
    if rows.len() == 0 {
        Ok(Seq::empty())
    } else {
        match partition_keys(rows.drop_last(), exprs) {
            Err(e) => Err(e),
            Ok(ks) => match key_of(exprs, rows.last()) {
                Err(e) => Err(e),
                Ok(k) => Ok(ks.push(k)),
            },
        }
    }
}

/// The indices, in order, of the rows whose key is alike to `k`.
pub open spec fn partition_members(keys: Seq<Seq<DataValue>>, k: Seq<DataValue>) -> Seq<usize>
    decreases keys.len(),
{
    if keys.len() == 0 {
        Seq::empty()
    } else if same_key(keys.last(), k) {
        partition_members(keys.drop_last(), k).push((keys.len() - 1) as usize)
    } else {
        partition_members(keys.drop_last(), k)
    }
}

/// Whether `i` is the first place of `x` in a list.
pub open spec fn first_place(s: Seq<usize>, x: usize, i: int) -> bool {
    0 <= i < s.len() && s[i] == x && forall|j: int| 0 <= j < i ==> s[j] != x
}

/// The first place of `x` in a list, or 0 when it is not there.
pub open spec fn place_of(s: Seq<usize>, x: usize) -> int {
    if s.contains(x) {
        choose|i: int| first_place(s, x, i)
    } else {
        0
    }
}

/// The first place of `x` in a list, or 0 when it is not there.
fn position_of(s: &Vec<usize>, x: usize) -> (r: usize)
    ensures
        r == place_of(s@, x),
        r < s@.len() || r == 0,
{
    let mut i: usize = 0;
    while i < s.len()
        invariant
            i <= s@.len(),
            forall|j: int| 0 <= j < i ==> s@[j] != x,
        decreases s.len() - i,
    {
        if s[i] == x {
            proof {
                assert(first_place(s@, x, i as int));
                assert(s@.contains(x));
                let c = choose|c: int| first_place(s@, x, c);
                if c < i {
                    assert(s@[c] == x);
                } else if c > i {
                    assert(s@[i as int] != x);
                }
            }
            return i;
        }
        i = i + 1;
    }
    proof {
        if s@.contains(x) {
            let k = choose|k: int| 0 <= k < s@.len() && s@[k] == x;
            assert(s@[k] != x);
        }
    }
    0
}

/// The value of a window function's argument on a row: a column's value
/// (null when missing) or a literal's value; any other expression is null.
pub open spec fn window_arg(arg: Expression, row: RowMap) -> DataValue {
    match arg {
        Expression::Column(c) => if row.contains_key(c@) {
            row[c@]
        } else {
            DataValue::Null
        },
        Expression::Literal(lit) => literal_value(lit),
        _ => DataValue::Null,
    }
}

/// The argument values, not null, on the rows at the given indices, in order.
pub open spec fn window_values(arg: Expression, rows: Seq<RowMap>, idx: Seq<usize>) -> Seq<DataValue>
    decreases idx.len(),
{
    if idx.len() == 0 {
        Seq::empty()
    } else {
        let v = window_arg(arg, rows[idx.last() as int]);
        if v is Null {
            window_values(arg, rows, idx.drop_last())
        } else {
            window_values(arg, rows, idx.drop_last()).push(v)
        }
    }
}

/// The offset of LAG and LEAD: their second argument when it is an integer
/// literal (taken as a machine-sized unsigned number), else 1.
pub open spec fn lag_offset(args: Seq<Expression>) -> int {
    if args.len() > 1 && args[1] matches Expression::Literal(Literal::Integer(n)) {
        (args[1]->Literal_0->Integer_0 as usize) as int
    } else {
        1
    }
}

/// The place LAG (going back) or LEAD (going forward) reads from, counted
/// from the current row's place in its ordered partition, if it exists.
pub open spec fn lag_target(args: Seq<Expression>, place: int, lead: bool) -> Option<int> {
    let off = lag_offset(args);
    if lead {
        Some(place + off)
    } else if place >= off {
        Some(place - off)
    } else {
        None
    }
}

/// How many of the first `n` rows of an ordered partition come strictly
/// before the row `x` under the ORDER BY keys.
pub open spec fn rows_before(rows: Seq<RowMap>, keys: Seq<OrderByItem>, s: Seq<usize>, x: usize, n: int) -> nat
    decreases n,
{
    if n <= 0 {
        0
    } else {
        rows_before(rows, keys, s, x, n - 1) + if index_order(rows, keys, s[n - 1], x) == ValueOrder::Less {
            1nat
        } else {
            0nat
        }
    }
}

/// How many groups of equal ORDER BY keys among the first `n` rows of an
/// ordered partition come strictly before the row `x`: a row starts a
/// group when it is the first or differs from the row before it.
pub open spec fn groups_before(rows: Seq<RowMap>, keys: Seq<OrderByItem>, s: Seq<usize>, x: usize, n: int) -> nat
    decreases n,
{
    if n <= 0 {
        0
    } else {
        groups_before(rows, keys, s, x, n - 1) + if index_order(rows, keys, s[n - 1], x) == ValueOrder::Less && (n
            - 1 == 0 || index_order(rows, keys, s[n - 2], s[n - 1]) != ValueOrder::Equal) {
            1nat
        } else {
            0nat
        }
    }
}

/// The capitalised names of the window functions that read an argument.
pub open spec fn reads_argument(u: Seq<char>) -> bool {
    u == "LAG"@ || u == "LEAD"@ || u == "FIRST_VALUE"@ || u == "LAST_VALUE"@ || u == "SUM"@ || u == "AVG"@
        || u == "MIN"@ || u == "MAX"@ || u == "COUNT"@
}

/// The result of a window function for the row at `current`.
///
/// The rows are split into partitions by the PARTITION BY values; the
/// current row's partition is ordered by the ORDER BY keys (stably).
/// ROW_NUMBER gives the row's place in that order, from 1; RANK one more
/// than the number of rows ordered strictly before it (ties share a rank);
/// DENSE_RANK one more than the number of groups of tied rows before it.
/// LAG and LEAD read the argument the offset before or after the row's place
/// in the ordered partition (null when there is no such row); FIRST_VALUE and LAST_VALUE read the
/// ordered partition's first and last rows.  COUNT, SUM, AVG, MIN and MAX
/// work on the argument's values over the whole partition that are not null.
/// Arguments are columns or literals; any other argument is null.
pub open spec fn window_outcome(w: WindowFunction, rows: Seq<RowMap>, current: int) -> Result<AggregateSpec, EngineError> {
    match partition_keys(rows, w.partition_by@) {
        Err(e) => Err(e),
        Ok(keys) => {
            let members = partition_members(keys, keys[current]);
            let place = place_of(members, current as usize);
            let ordered = if w.order_by@.len() == 0 {
                members
            } else {
                sort_indices_spec(rows, w.order_by@, members)
            };
            let u = upper_of(w.function.name@);
            let args = w.function.arguments@;
            let at = place_of(ordered, current as usize);
            if u == "ROW_NUMBER"@ {
                Ok(AggregateSpec::Value(DataValue::Integer((at + 1) as i64)))
            } else if u == "RANK"@ {
                Ok(AggregateSpec::Value(
                    DataValue::Integer((rows_before(rows, w.order_by@, ordered, current as usize, ordered.len() as int) + 1) as i64),
                ))
            } else if u == "DENSE_RANK"@ {
                Ok(AggregateSpec::Value(
                    DataValue::Integer((groups_before(rows, w.order_by@, ordered, current as usize, ordered.len() as int) + 1) as i64),
                ))
            } else if u == "LAG"@ || u == "LEAD"@ {
                Ok(AggregateSpec::Value(
                    match lag_target(args, at, u == "LEAD"@) {
                        Some(t) => if t < ordered.len() {
                            window_arg(args[0], rows[ordered[t] as int])
                        } else {
                            DataValue::Null
                        },
                        None => DataValue::Null,
                    },
                ))
            } else if u == "FIRST_VALUE"@ {
                Ok(AggregateSpec::Value(window_arg(args[0], rows[ordered[0] as int])))
            } else if u == "LAST_VALUE"@ {
                Ok(AggregateSpec::Value(window_arg(args[0], rows[ordered.last() as int])))
            } else if u == "SUM"@ || u == "AVG"@ || u == "MIN"@ || u == "MAX"@ || u == "COUNT"@ {
                let vs = window_values(args[0], rows, ordered);
                Ok(
                    if u == "COUNT"@ {
                        AggregateSpec::Value(DataValue::Integer(vs.len() as i64))
                    } else if u == "SUM"@ {
                        AggregateSpec::Total(numbers_of(vs))
                    } else if u == "AVG"@ {
                        AggregateSpec::Mean(numbers_of(vs))
                    } else if u == "MIN"@ {
                        AggregateSpec::Value(or_null(min_fold(vs)))
                    } else {
                        AggregateSpec::Value(or_null(max_fold(vs)))
                    },
                )
            } else {
                Err(EngineError::UnsupportedWindowFunction(w.function.name))
            }
        },
    }
}

/// Whether a window function would read a missing first argument for the row
/// at `current`: a function that reads its argument, called without one, on
/// a row whose LAG or LEAD target exists (any row for the others).
pub open spec fn window_reads_missing_argument(w: WindowFunction, rows: Seq<RowMap>, current: int) -> bool {
    let u = upper_of(w.function.name@);
    let args = w.function.arguments@;
    &&& args.len() == 0
    &&& reads_argument(u)
    &&& match partition_keys(rows, w.partition_by@) {
        Err(_) => false,
        Ok(keys) => {
            let members = partition_members(keys, keys[current]);
            let ordered = if w.order_by@.len() == 0 {
                members
            } else {
                sort_indices_spec(rows, w.order_by@, members)
            };
            let at = place_of(ordered, current as usize);
            if u == "LAG"@ || u == "LEAD"@ {
                match lag_target(args, at, u == "LEAD"@) {
                    Some(t) => t < members.len(),
                    None => false,
                }
            } else {
                true
            }
        },
    }
}

/// What a list of keys stands for.
pub open spec fn key_views(keys: Seq<Vec<DataValue>>) -> Seq<Seq<DataValue>> {
    keys.map_values(|k: Vec<DataValue>| k@)
}

proof fn lemma_partition_keys_len(rows: Seq<RowMap>, exprs: Seq<Expression>)
    ensures
        partition_keys(rows, exprs) matches Ok(ks) ==> ks.len() == rows.len(),
    decreases rows.len(),
{
    if rows.len() > 0 {
        lemma_partition_keys_len(rows.drop_last(), exprs);
    }
}

proof fn lemma_partition_keys_error(rows: Seq<RowMap>, exprs: Seq<Expression>, n: int, e: EngineError)
    requires
        0 <= n <= rows.len(),
        partition_keys(rows.take(n), exprs) == Err::<Seq<Seq<DataValue>>, EngineError>(e),
    ensures
        partition_keys(rows, exprs) == Err::<Seq<Seq<DataValue>>, EngineError>(e),
    decreases rows.len(),
{
    if n < rows.len() {
        assert(rows.drop_last().take(n) =~= rows.take(n));
        lemma_partition_keys_error(rows.drop_last(), exprs, n, e);
    } else {
        assert(rows.take(n) =~= rows);
    }
}

proof fn lemma_same_key_reflexive(k: Seq<DataValue>)
    ensures
        same_key(k, k),
{
    assert forall|i: int| 0 <= i < k.len() implies #[trigger] same_group_value(k[i], k[i]) by {
    }
}

proof fn lemma_members(keys: Seq<Seq<DataValue>>, k: Seq<DataValue>, c: int)
    requires
        0 <= c < keys.len(),
        keys.len() <= usize::MAX,
        keys[c] == k,
    ensures
        partition_members(keys, k).contains(c as usize),
        forall|i: int| 0 <= i < partition_members(keys, k).len() ==> #[trigger] partition_members(keys, k)[i] < keys.len(),
    decreases keys.len(),
{
    lemma_members_bound(keys, k);
    if c == keys.len() - 1 {
        lemma_same_key_reflexive(k);
        assert(partition_members(keys, k).last() == c as usize);
    } else {
        lemma_members(keys.drop_last(), k, c);
        let m = partition_members(keys.drop_last(), k);
        let j = choose|j: int| 0 <= j < m.len() && m[j] == c as usize;
        assert(partition_members(keys, k)[j] == c as usize);
    }
}

proof fn lemma_members_bound(keys: Seq<Seq<DataValue>>, k: Seq<DataValue>)
    requires
        keys.len() <= usize::MAX,
    ensures
        forall|i: int| 0 <= i < partition_members(keys, k).len() ==> #[trigger] partition_members(keys, k)[i] < keys.len(),
    decreases keys.len(),
{
    if keys.len() > 0 {
        lemma_members_bound(keys.drop_last(), k);
        let m = partition_members(keys.drop_last(), k);
        let full = partition_members(keys, k);
        assert forall|i: int| 0 <= i < full.len() implies #[trigger] full[i] < keys.len() by {
            if same_key(keys.last(), k) {
                if i < m.len() {
                    assert(full[i] == m[i]);
                } else {
                    assert(full[i] == (keys.len() - 1) as usize);
                }
            } else {
                assert(full[i] == m[i]);
            }
        }
    }
}

fn partition_key_list(rows: &Vec<Row>, exprs: &Vec<Expression>) -> (r: Result<Vec<Vec<DataValue>>, EngineError>)
    ensures
        match partition_keys(row_maps(rows@), exprs@) {
            Ok(ks) => r is Ok && key_views(r->Ok_0@) == ks,
            Err(e) => r is Err && r->Err_0 == e,
        },
{
    let ghost maps = row_maps(rows@);
    let mut keys: Vec<Vec<DataValue>> = Vec::new();
    let mut i: usize = 0;
    assert(key_views(keys@) =~= Seq::<Seq<DataValue>>::empty());
    while i < rows.len()
        invariant
            i <= rows@.len(),
            maps == row_maps(rows@),
            partition_keys(maps.take(i as int), exprs@) == Ok::<Seq<Seq<DataValue>>, EngineError>(key_views(keys@)),
        decreases rows.len() - i,
    {
        assert(maps.take(i as int + 1).drop_last() =~= maps.take(i as int));
        assert(maps.take(i as int + 1).last() == rows@[i as int]@);
        match row_key(exprs, &rows[i]) {
            Ok(k) => {
                let ghost before = key_views(keys@);
                keys.push(k);
                assert(key_views(keys@) =~= before.push(k@));
            },
            Err(e) => {
                proof {
                    lemma_partition_keys_error(maps, exprs@, i as int + 1, e);
                }
                return Err(e);
            },
        }
        i = i + 1;
    }
    assert(maps.take(i as int) =~= maps);
    Ok(keys)
}

fn members_of(keys: &Vec<Vec<DataValue>>, k: &Vec<DataValue>) -> (r: Vec<usize>)
    ensures
        r@ == partition_members(key_views(keys@), k@),
{
    let ghost views = key_views(keys@);
    let mut out: Vec<usize> = Vec::new();
    let mut j: usize = 0;
    while j < keys.len()
        invariant
            j <= keys@.len(),
            views == key_views(keys@),
            out@ == partition_members(views.take(j as int), k@),
        decreases keys.len() - j,
    {
        assert(views.take(j as int + 1).drop_last() =~= views.take(j as int));
        if keys_alike(&keys[j], k) {
            out.push(j);
        }
        j = j + 1;
    }
    assert(views.take(j as int) =~= views);
    out
}

fn argument_of(arg: &Expression, row: &Row) -> (r: DataValue)
    ensures
        r == window_arg(*arg, row@),
{
    match arg {
        Expression::Column(c) => match row.get(c.as_str()) {
            Some(v) => v.duplicate(),
            None => DataValue::Null,
        },
        Expression::Literal(lit) => literal_to_datavalue(lit),
        _ => DataValue::Null,
    }
}

fn values_over(arg: &Expression, rows: &Vec<Row>, idx: &Vec<usize>) -> (r: Vec<DataValue>)
    requires
        forall|i: int| 0 <= i < idx@.len() ==> #[trigger] idx@[i] < rows@.len(),
    ensures
        r@ == window_values(*arg, row_maps(rows@), idx@),
{
    let ghost maps = row_maps(rows@);
    let mut out: Vec<DataValue> = Vec::new();
    let mut i: usize = 0;
    while i < idx.len()
        invariant
            i <= idx@.len(),
            maps == row_maps(rows@),
            forall|k: int| 0 <= k < idx@.len() ==> #[trigger] idx@[k] < rows@.len(),
            out@ == window_values(*arg, maps, idx@.take(i as int)),
        decreases idx.len() - i,
    {
        assert(idx@.take(i as int + 1).drop_last() =~= idx@.take(i as int));
        let v = argument_of(arg, &rows[idx[i]]);
        if !v.is_null() {
            out.push(v);
        }
        i = i + 1;
    }
    assert(idx@.take(i as int) =~= idx@);
    out
}

fn count_values(vs: &Vec<DataValue>) -> (r: Vec<DataValue>)
    ensures
        r@ == numbers_of(vs@),
{
    let mut out: Vec<DataValue> = Vec::new();
    let mut i: usize = 0;
    while i < vs.len()
        invariant
            i <= vs@.len(),
            out@ == numbers_of(vs@.take(i as int)),
        decreases vs.len() - i,
    {
        assert(vs@.take(i as int + 1).drop_last() =~= vs@.take(i as int));
        match &vs[i] {
            DataValue::Integer(_) | DataValue::Real(_) => {
                out.push(vs[i].duplicate());
            },
            _ => {},
        }
        i = i + 1;
    }
    assert(vs@.take(i as int) =~= vs@);
    out
}

fn least_value(vs: &Vec<DataValue>) -> (r: DataValue)
    ensures
        r == or_null(min_fold(vs@)),
{
    let mut m: Option<DataValue> = None;
    let mut i: usize = 0;
    while i < vs.len()
        invariant
            i <= vs@.len(),
            m == min_fold(vs@.take(i as int)),
        decreases vs.len() - i,
    {
        assert(vs@.take(i as int + 1).drop_last() =~= vs@.take(i as int));
        if !vs[i].is_null() {
            m = match m {
                None => Some(vs[i].duplicate()),
                Some(cur) => Some(min_of_values(&cur, &vs[i])),
            };
        }
        i = i + 1;
    }
    assert(vs@.take(i as int) =~= vs@);
    match m {
        Some(v) => v,
        None => DataValue::Null,
    }
}

fn greatest_value(vs: &Vec<DataValue>) -> (r: DataValue)
    ensures
        r == or_null(max_fold(vs@)),
{
    let mut m: Option<DataValue> = None;
    let mut i: usize = 0;
    while i < vs.len()
        invariant
            i <= vs@.len(),
            m == max_fold(vs@.take(i as int)),
        decreases vs.len() - i,
    {
        assert(vs@.take(i as int + 1).drop_last() =~= vs@.take(i as int));
        if !vs[i].is_null() {
            m = match m {
                None => Some(vs[i].duplicate()),
                Some(cur) => Some(max_of_values(&cur, &vs[i])),
            };
        }
        i = i + 1;
    }
    assert(vs@.take(i as int) =~= vs@);
    match m {
        Some(v) => v,
        None => DataValue::Null,
    }
}

/// The number of rows of an ordered partition strictly before the row
/// `x` (see `rows_before`), or of groups of tied rows before it (see
/// `groups_before`).
fn count_before(rows: &Vec<Row>, s: &Vec<usize>, order_by: &Vec<OrderByItem>, x: usize, groups: bool) -> (r: usize)
    requires
        x < rows@.len(),
        forall|k: int| 0 <= k < s@.len() ==> #[trigger] s@[k] < rows@.len(),
    ensures
        r == if groups {
            groups_before(row_maps(rows@), order_by@, s@, x, s@.len() as int)
        } else {
            rows_before(row_maps(rows@), order_by@, s@, x, s@.len() as int)
        },
        r <= s@.len(),
{
    let ghost maps = row_maps(rows@);
    let mut n: usize = 0;
    let mut k: usize = 0;
    while k < s.len()
        invariant
            k <= s@.len(),
            x < rows@.len(),
            maps == row_maps(rows@),
            forall|j: int| 0 <= j < s@.len() ==> #[trigger] s@[j] < rows@.len(),
            n <= k,
            n == if groups {
                groups_before(maps, order_by@, s@, x, k as int)
            } else {
                rows_before(maps, order_by@, s@, x, k as int)
            },
        decreases s.len() - k,
    {
        assert(maps[s@[k as int] as int] == rows@[s@[k as int] as int]@);
        assert(maps[x as int] == rows@[x as int]@);
        let c = compare_rows_for_ordering(&rows[s[k]], &rows[x], order_by);
        let starts = if !groups || k == 0 {
            true
        } else {
            assert(maps[s@[k - 1] as int] == rows@[s@[k - 1] as int]@);
            compare_rows_for_ordering(&rows[s[k - 1]], &rows[s[k]], order_by) != ValueOrder::Equal
        };
        if c == ValueOrder::Less && starts {
            n = n + 1;
        }
        k = k + 1;
    }
    n
}

/// Computes a window function for the row at `current` (see
/// `window_outcome`).  A function that reads its argument must have one
/// where it reads it.  The frame clause does not narrow the partition.
pub fn compute_window_function(window_func: &WindowFunction, all_rows: &Vec<Row>, current: usize) -> (r: Result<
    AggregateValue,
    EngineError,
>)
    requires
        current < all_rows@.len(),
        !window_reads_missing_argument(*window_func, row_maps(all_rows@), current as int),
    ensures
        match window_outcome(*window_func, row_maps(all_rows@), current as int) {
            Ok(a) => r is Ok && r->Ok_0@ == a,
            Err(e) => r is Err && r->Err_0 == e,
        },
{
    let ghost maps = row_maps(all_rows@);
    let keys = match partition_key_list(all_rows, &window_func.partition_by) {
        Ok(k) => k,
        Err(e) => return Err(e),
    };
    let nk: usize = keys.len();
    proof {
        lemma_partition_keys_len(maps, window_func.partition_by@);
        assert(key_views(keys@).len() == nk);
        lemma_members(key_views(keys@), key_views(keys@)[current as int], current as int);
    }
    let members = members_of(&keys, &keys[current]);
    assert(key_views(keys@)[current as int] == keys@[current as int]@);
    let place = position_of(&members, current);
    let ordered = if window_func.order_by.len() == 0 {
        members.clone()
    } else {
        sort_indices(all_rows, &members, &window_func.order_by)
    };
    assert(ordered@.len() == members@.len());
    assert(ordered@.len() > 0);
    let u = to_uppercase(window_func.function.name.as_str());
    let args = &window_func.function.arguments;
    let at = position_of(&ordered, current);
    let n_ordered: usize = ordered.len();
    assert(at < n_ordered);
    if str_equal(u.as_str(), "ROW_NUMBER") {
        return Ok(AggregateValue::Value(DataValue::Integer((at + 1) as i64)));
    }
    if str_equal(u.as_str(), "RANK") {
        let n = count_before(all_rows, &ordered, &window_func.order_by, current, false);
        return Ok(AggregateValue::Value(DataValue::Integer((n as u128 + 1) as i64)));
    }
    if str_equal(u.as_str(), "DENSE_RANK") {
        let n = count_before(all_rows, &ordered, &window_func.order_by, current, true);
        return Ok(AggregateValue::Value(DataValue::Integer((n as u128 + 1) as i64)));
    }
    let lag = str_equal(u.as_str(), "LAG");
    let lead = str_equal(u.as_str(), "LEAD");
    if lag || lead {
        let off: usize = if args.len() > 1 {
            match &args[1] {
                Expression::Literal(Literal::Integer(n)) => *n as usize,
                _ => 1,
            }
        } else {
            1
        };
        let target: Option<usize> = if lead {
            at.checked_add(off)
        } else if at >= off {
            Some(at - off)
        } else {
            None
        };
        let v = match target {
            Some(t) => {
                if t < ordered.len() {
                    argument_of(&args[0], &all_rows[ordered[t]])
                } else {
                    DataValue::Null
                }
            },
            None => DataValue::Null,
        };
        return Ok(AggregateValue::Value(v));
    }
    if str_equal(u.as_str(), "FIRST_VALUE") {
        return Ok(AggregateValue::Value(argument_of(&args[0], &all_rows[ordered[0]])));
    }
    if str_equal(u.as_str(), "LAST_VALUE") {
        return Ok(AggregateValue::Value(argument_of(&args[0], &all_rows[ordered[ordered.len() - 1]])));
    }
    let count = str_equal(u.as_str(), "COUNT");
    let sum = str_equal(u.as_str(), "SUM");
    let avg = str_equal(u.as_str(), "AVG");
    let min = str_equal(u.as_str(), "MIN");
    let max = str_equal(u.as_str(), "MAX");
    if count || sum || avg || min || max {
        let vs = values_over(&args[0], all_rows, &ordered);
        return Ok(
            if count {
                AggregateValue::Value(DataValue::Integer(vs.len() as i64))
            } else if sum {
                AggregateValue::Total(count_values(&vs))
            } else if avg {
                AggregateValue::Mean(count_values(&vs))
            } else if min {
                AggregateValue::Value(least_value(&vs))
            } else {
                AggregateValue::Value(greatest_value(&vs))
            },
        );
    }
    Err(EngineError::UnsupportedWindowFunction(window_func.function.name.clone()))
}

/// A row's values as exactly known cells.
pub open spec fn exact_cells(row: RowMap) -> Map<Seq<char>, AggregateSpec> {
    row.map_values(|v: DataValue| AggregateSpec::Value(v))
}

/// A row's values as exactly known cells.
pub fn exact_row(row: &Row) -> (r: StringMap<AggregateValue>)
    ensures
        aggregate_row_view(r@) == exact_cells(row@),
{
    let entries = row.entry_list();
    proof {
        row.lemma_view();
    }
    let mut out: StringMap<AggregateValue> = StringMap::new();
    let mut j: usize = 0;
    proof {
        assert(entries_map(entries@.take(0)) =~= Map::<Seq<char>, DataValue>::empty());
        assert(aggregate_row_view(out@) =~= exact_cells(entries_map(entries@.take(0))));
    }
    while j < entries.len()
        invariant
            j <= entries@.len(),
            keys_unique(entries@),
            row@ == entries_map(entries@),
            aggregate_row_view(out@) == exact_cells(entries_map(entries@.take(j as int))),
        decreases entries.len() - j,
    {
        proof {
            lemma_entries_map_take(entries@, j as int);
        }
        let ghost before = aggregate_row_view(out@);
        out.insert(entries[j].0.clone(), AggregateValue::Value(entries[j].1.duplicate()));
        proof {
            let k = entries@[j as int].0@;
            let v = entries@[j as int].1;
            assert(aggregate_row_view(out@) =~= before.insert(k, AggregateSpec::Value(v)));
            assert(exact_cells(entries_map(entries@.take(j as int)).insert(k, v)) =~= before.insert(
                k,
                AggregateSpec::Value(v),
            ));
        }
        j = j + 1;
    }
    assert(entries@.take(j as int) =~= entries@);
    out
}

/// What a select-list expression gives on the row at `idx` of a window
/// query: a window function's result, or the expression's value on the row.
pub open spec fn window_cell(expr: Expression, rows: Seq<RowMap>, idx: int) -> Result<AggregateSpec, EngineError> {
    match expr {
        Expression::WindowFunction(w) => window_outcome(*w, rows, idx),
        _ => match group_value(expr, rows[idx]) {
            Err(e) => Err(e),
            Ok(v) => Ok(AggregateSpec::Value(v)),
        },
    }
}

/// The result row of a window query for the row at `idx`: the row's own
/// values, then each select-list expression in order under its alias or
/// column name (`*` adds nothing); the first failing item fails.
pub open spec fn window_row(items: Seq<SelectItem>, rows: Seq<RowMap>, idx: int) -> Result<
    Map<Seq<char>, AggregateSpec>,
    EngineError,
>
    decreases items.len(),
{
    if items.len() == 0 {
        Ok(exact_cells(rows[idx]))
    } else {
        match window_row(items.drop_last(), rows, idx) {
            Err(e) => Err(e),
            Ok(row) => match items.last() {
                SelectItem::Wildcard => Ok(row),
                SelectItem::Expression { expr, alias } => match window_cell(expr, rows, idx) {
                    Err(e) => Err(e),
                    Ok(c) => Ok(row.insert(output_name(expr, alias), c)),
                },
            },
        }
    }
}

/// The result rows of a window query for the first `n` rows, in order; the
/// first failing row fails.
pub open spec fn window_rows(items: Seq<SelectItem>, rows: Seq<RowMap>, n: int) -> Result<
    Seq<Map<Seq<char>, AggregateSpec>>,
    EngineError,
>
    decreases n,
{
    if n <= 0 {
        Ok(Seq::empty())
    } else {
        match window_rows(items, rows, n - 1) {
            Err(e) => Err(e),
            Ok(done) => match window_row(items, rows, n - 1) {
                Err(e) => Err(e),
                Ok(row) => Ok(done.push(row)),
            },
        }
    }
}

/// Whether every window function of a select list has its argument wherever
/// it reads it, on every row.
pub open spec fn window_arguments_present(items: Seq<SelectItem>, rows: Seq<RowMap>) -> bool {
    forall|i: int, idx: int|
        0 <= i < items.len() && 0 <= idx < rows.len() ==> #[trigger] item_window_ok(items[i], rows, idx)
}

/// Whether a select item, if it is a window function, has its argument
/// wherever it reads it on the row at `idx`.
pub open spec fn item_window_ok(item: SelectItem, rows: Seq<RowMap>, idx: int) -> bool {
    match item {
        SelectItem::Expression { expr: Expression::WindowFunction(w), .. } => !window_reads_missing_argument(
            *w,
            rows,
            idx,
        ),
        _ => true,
    }
}

proof fn lemma_window_row_error(items: Seq<SelectItem>, rows: Seq<RowMap>, idx: int, n: int, e: EngineError)
    requires
        0 <= n <= items.len(),
        window_row(items.take(n), rows, idx) == Err::<Map<Seq<char>, AggregateSpec>, EngineError>(e),
    ensures
        window_row(items, rows, idx) == Err::<Map<Seq<char>, AggregateSpec>, EngineError>(e),
    decreases items.len(),
{
    if n < items.len() {
        assert(items.drop_last().take(n) =~= items.take(n));
        lemma_window_row_error(items.drop_last(), rows, idx, n, e);
    } else {
        assert(items.take(n) =~= items);
    }
}

proof fn lemma_window_rows_error(items: Seq<SelectItem>, rows: Seq<RowMap>, n: int, m: int, e: EngineError)
    requires
        0 <= m <= n,
        window_rows(items, rows, m) == Err::<Seq<Map<Seq<char>, AggregateSpec>>, EngineError>(e),
    ensures
        window_rows(items, rows, n) == Err::<Seq<Map<Seq<char>, AggregateSpec>>, EngineError>(e),
    decreases n,
{
    if m < n {
        lemma_window_rows_error(items, rows, n - 1, m, e);
    }
}

fn window_result_row(items: &Vec<SelectItem>, rows: &Vec<Row>, idx: usize) -> (r: Result<StringMap<AggregateValue>, EngineError>)
    requires
        idx < rows@.len(),
        window_arguments_present(items@, row_maps(rows@)),
    ensures
        match window_row(items@, row_maps(rows@), idx as int) {
            Ok(row) => r is Ok && aggregate_row_view(r->Ok_0@) == row,
            Err(e) => r is Err && r->Err_0 == e,
        },
{
    let ghost maps = row_maps(rows@);
    let mut out = exact_row(&rows[idx]);
    let mut i: usize = 0;
    proof {
        assert(items@.take(0).len() == 0);
    }
    while i < items.len()
        invariant
            i <= items@.len(),
            idx < rows@.len(),
            maps == row_maps(rows@),
            window_arguments_present(items@, maps),
            window_row(items@.take(i as int), maps, idx as int) == Ok::<Map<Seq<char>, AggregateSpec>, EngineError>(
                aggregate_row_view(out@),
            ),
        decreases items.len() - i,
    {
        assert(items@.take(i as int + 1).drop_last() =~= items@.take(i as int));
        assert(items@.take(i as int + 1).last() == items@[i as int]);
        match &items[i] {
            SelectItem::Wildcard => {},
            SelectItem::Expression { expr, alias } => {
                let cell = match expr {
                    Expression::WindowFunction(w) => {
                        proof {
                            assert(item_window_ok(items@[i as int], maps, idx as int));
                        }
                        compute_window_function(&**w, rows, idx)
                    },
                    _ => match evaluate_group_expression(expr, &rows[idx]) {
                        Ok(v) => Ok(AggregateValue::Value(v)),
                        Err(e) => Err(e),
                    },
                };
                match cell {
                    Ok(c) => {
                        let name = match alias {
                            Some(a) => a.clone(),
                            None => expression_to_column_name(expr),
                        };
                        let ghost before = aggregate_row_view(out@);
                        let ghost cv = c@;
                        let ghost key = name@;
                        out.insert(name, c);
                        proof {
                            assert(aggregate_row_view(out@) =~= before.insert(key, cv));
                        }
                    },
                    Err(e) => {
                        proof {
                            lemma_window_row_error(items@, maps, idx as int, i as int + 1, e);
                        }
                        return Err(e);
                    },
                }
            },
        }
        i = i + 1;
    }
    assert(items@.take(i as int) =~= items@);
    Ok(out)
}

/// The rows of a window query before ORDER BY and LIMIT (see `window_rows`):
/// each row with its select list's values, window functions computed over
/// all the rows.
pub fn execute_window_rows(select_list: &Vec<SelectItem>, rows: &Vec<Row>) -> (r: Result<
    Vec<StringMap<AggregateValue>>,
    EngineError,
>)
    requires
        window_arguments_present(select_list@, row_maps(rows@)),
    ensures
        match window_rows(select_list@, row_maps(rows@), rows@.len() as int) {
            Ok(out) => r is Ok && aggregate_row_views(r->Ok_0@) == out,
            Err(e) => r is Err && r->Err_0 == e,
        },
{
    let ghost maps = row_maps(rows@);
    let mut out: Vec<StringMap<AggregateValue>> = Vec::new();
    let mut i: usize = 0;
    proof {
        assert(aggregate_row_views(out@) =~= Seq::<Map<Seq<char>, AggregateSpec>>::empty());
    }
    while i < rows.len()
        invariant
            i <= rows@.len(),
            maps == row_maps(rows@),
            window_arguments_present(select_list@, maps),
            window_rows(select_list@, maps, i as int) == Ok::<Seq<Map<Seq<char>, AggregateSpec>>, EngineError>(
                aggregate_row_views(out@),
            ),
        decreases rows.len() - i,
    {
        match window_result_row(select_list, rows, i) {
            Ok(row) => {
                let ghost before = aggregate_row_views(out@);
                out.push(row);
                proof {
                    assert(aggregate_row_views(out@) =~= before.push(aggregate_row_view(row@)));
                }
            },
            Err(e) => {
                proof {
                    lemma_window_rows_error(select_list@, maps, rows@.len() as int, i as int + 1, e);
                }
                return Err(e);
            },
        }
        i = i + 1;
    }
    Ok(out)
}

/// The indices `0..n`.
pub open spec fn index_range(n: nat) -> Seq<usize> {
    Seq::new(n, |i: int| i as usize)
}

/// The rows in the order of ORDER BY keys, equal rows keeping their order.
pub open spec fn ordered_rows(rows: Seq<RowMap>, keys: Seq<OrderByItem>) -> Seq<RowMap> {
    sort_indices_spec(rows, keys, index_range(rows.len())).map_values(|i: usize| rows[i as int])
}

/// Sorts rows by ORDER BY keys, stably (see `ordered_rows`).
pub fn order_rows(rows: Vec<Row>, order_by: &Vec<OrderByItem>) -> (r: Vec<Row>)
    ensures
        row_maps(r@) == ordered_rows(row_maps(rows@), order_by@),
{
    let ghost maps = row_maps(rows@);
    let mut idx: Vec<usize> = Vec::new();
    let mut i: usize = 0;
    while i < rows.len()
        invariant
            i <= rows@.len(),
            idx@ == index_range(i as nat),
        decreases rows.len() - i,
    {
        idx.push(i);
        i = i + 1;
        assert(idx@ =~= index_range(i as nat));
    }
    let sorted = sort_indices(&rows, &idx, order_by);
    let mut out: Vec<Row> = Vec::new();
    let mut k: usize = 0;
    while k < sorted.len()
        invariant
            k <= sorted@.len(),
            maps == row_maps(rows@),
            forall|j: int| 0 <= j < sorted@.len() ==> #[trigger] sorted@[j] < rows@.len(),
            row_maps(out@) =~= sorted@.take(k as int).map_values(|j: usize| maps[j as int]),
        decreases sorted.len() - k,
    {
        let c = copy_row(&rows[sorted[k]]);
        proof {
            lemma_row_maps_push(out@, c);
        }
        out.push(c);
        k = k + 1;
        assert(row_maps(out@) =~= sorted@.take(k as int).map_values(|j: usize| maps[j as int]));
    }
    assert(sorted@.take(k as int) =~= sorted@);
    out
}

proof fn lemma_insert_ordered_multiset(rows: Seq<RowMap>, keys: Seq<OrderByItem>, s: Seq<usize>, x: usize)
    ensures
        insert_ordered(rows, keys, s, x).to_multiset() == s.to_multiset().insert(x),
    decreases s.len(),
{
    broadcast use vstd::seq_lib::to_multiset_build;

    if s.len() == 0 {
        assert(seq![x] =~= Seq::<usize>::empty().push(x));
        assert(s =~= Seq::<usize>::empty());
    } else if index_order(rows, keys, s.last(), x) == ValueOrder::Greater {
        lemma_insert_ordered_multiset(rows, keys, s.drop_last(), x);
        assert(s.drop_last().push(s.last()) =~= s);
        assert(insert_ordered(rows, keys, s, x).to_multiset() =~= s.drop_last().to_multiset().insert(x).insert(
            s.last(),
        ));
        assert(s.to_multiset() =~= s.drop_last().to_multiset().insert(s.last()));
    }
}

/// Ordering rows keeps every row: the ordered indices are the given ones,
/// each as often as it was given.
pub proof fn law_ordering_keeps_rows(rows: Seq<RowMap>, keys: Seq<OrderByItem>, s: Seq<usize>)
    ensures
        sort_indices_spec(rows, keys, s).to_multiset() == s.to_multiset(),
    decreases s.len(),
{
    broadcast use vstd::seq_lib::to_multiset_build;

    if s.len() == 0 {
        assert(s =~= Seq::<usize>::empty());
    } else {
        law_ordering_keeps_rows(rows, keys, s.drop_last());
        lemma_insert_ordered_multiset(rows, keys, sort_indices_spec(rows, keys, s.drop_last()), s.last());
        assert(s.drop_last().push(s.last()) =~= s);
    }
}

/// Whether each index of a list orders no later than the next.
pub open spec fn in_order(rows: Seq<RowMap>, keys: Seq<OrderByItem>, t: Seq<usize>) -> bool {
    forall|i: int| 0 <= i < t.len() - 1 ==> #[trigger] index_order(rows, keys, t[i], t[i + 1]) != ValueOrder::Greater
}

proof fn lemma_text_order_flip(a: Seq<char>, b: Seq<char>)
    ensures
        text_order(a, b) == text_order(b, a).flipped(),
    decreases a.len(),
{
    if a.len() > 0 && b.len() > 0 && a[0] == b[0] {
        lemma_text_order_flip(a.drop_first(), b.drop_first());
    }
}

proof fn lemma_value_order_flip(a: DataValue, b: DataValue)
    ensures
        value_order(a, b) == value_order(b, a).flipped(),
{
    match (a, b) {
        (DataValue::Text(x), DataValue::Text(y)) => lemma_text_order_flip(x@, y@),
        _ => {},
    }
}

proof fn lemma_row_order_flip(a: RowMap, b: RowMap, keys: Seq<OrderByItem>)
    ensures
        row_order(a, b, keys) == row_order(b, a, keys).flipped(),
    decreases keys.len(),
{
    if keys.len() > 0 {
        lemma_value_order_flip(order_value(keys[0].expr, a), order_value(keys[0].expr, b));
        lemma_row_order_flip(a, b, keys.drop_first());
    }
}

proof fn lemma_insert_ordered_last(rows: Seq<RowMap>, keys: Seq<OrderByItem>, p: Seq<usize>, x: usize, y: usize)
    requires
        index_order(rows, keys, y, x) == ValueOrder::Greater,
        p.len() == 0 || index_order(rows, keys, p.last(), y) != ValueOrder::Greater,
    ensures
        index_order(rows, keys, insert_ordered(rows, keys, p, x).last(), y) != ValueOrder::Greater,
{
    lemma_row_order_flip(rows[x as int], rows[y as int], keys);
}

proof fn lemma_insert_ordered_sorted(rows: Seq<RowMap>, keys: Seq<OrderByItem>, s: Seq<usize>, x: usize)
    requires
        in_order(rows, keys, s),
    ensures
        in_order(rows, keys, insert_ordered(rows, keys, s, x)),
    decreases s.len(),
{
    if s.len() > 0 && index_order(rows, keys, s.last(), x) == ValueOrder::Greater {
        let p = s.drop_last();
        assert(in_order(rows, keys, p)) by {
            assert forall|i: int| 0 <= i < p.len() - 1 implies #[trigger] index_order(rows, keys, p[i], p[i + 1])
                != ValueOrder::Greater by {
                assert(index_order(rows, keys, s[i], s[i + 1]) != ValueOrder::Greater);
            }
        }
        lemma_insert_ordered_sorted(rows, keys, p, x);
        lemma_insert_ordered_len(rows, keys, p, x);
        let t0 = insert_ordered(rows, keys, p, x);
        let t = t0.push(s.last());
        if p.len() > 0 {
            let k = p.len() - 1;
            assert(index_order(rows, keys, s[k], s[k + 1]) != ValueOrder::Greater);
            assert(p.last() == s[k]);
        }
        lemma_insert_ordered_last(rows, keys, p, x, s.last());
        assert forall|i: int| 0 <= i < t.len() - 1 implies #[trigger] index_order(rows, keys, t[i], t[i + 1])
            != ValueOrder::Greater by {
            if i < t0.len() - 1 {
                assert(t[i] == t0[i] && t[i + 1] == t0[i + 1]);
            } else {
                assert(t[i] == t0.last() && t[i + 1] == s.last());
            }
        }
    } else if s.len() > 0 {
        let t = s.push(x);
        assert forall|i: int| 0 <= i < t.len() - 1 implies #[trigger] index_order(rows, keys, t[i], t[i + 1])
            != ValueOrder::Greater by {
            if i < s.len() - 1 {
                assert(t[i] == s[i] && t[i + 1] == s[i + 1]);
            }
        }
    }
}

/// Ordering rows puts them in order: no row is followed by a row that the
/// ORDER BY keys put before it.
pub proof fn law_ordering_sorts(rows: Seq<RowMap>, keys: Seq<OrderByItem>, s: Seq<usize>)
    ensures
        in_order(rows, keys, sort_indices_spec(rows, keys, s)),
    decreases s.len(),
{
    if s.len() > 0 {
        law_ordering_sorts(rows, keys, s.drop_last());
        lemma_insert_ordered_sorted(rows, keys, sort_indices_spec(rows, keys, s.drop_last()), s.last());
    }
}


proof fn lemma_first_place_exists(s: Seq<usize>, x: usize, k: int)
    requires
        0 <= k < s.len(),
        s[k] == x,
    ensures
        exists|i: int| first_place(s, x, i),
    decreases k,
{
    if exists|j: int| 0 <= j < k && s[j] == x {
        let j = choose|j: int| 0 <= j < k && s[j] == x;
        lemma_first_place_exists(s, x, j);
    } else {
        assert(first_place(s, x, k));
    }
}

proof fn lemma_place_of(s: Seq<usize>, x: usize)
    requires
        s.contains(x),
    ensures
        0 <= place_of(s, x) < s.len(),
        s[place_of(s, x)] == x,
{
    let k = choose|k: int| 0 <= k < s.len() && s[k] == x;
    lemma_first_place_exists(s, x, k);
}

proof fn lemma_members_len(keys: Seq<Seq<DataValue>>, k: Seq<DataValue>)
    ensures
        partition_members(keys, k).len() <= keys.len(),
    decreases keys.len(),
{
    if keys.len() > 0 {
        lemma_members_len(keys.drop_last(), k);
    }
}

/// ROW_NUMBER, named in any letter case, numbers the rows of a partition
/// from 1 to the partition's size: two rows of one partition get
/// different numbers, each within that range.
pub proof fn law_row_numbers_distinct(w: WindowFunction, rows: Seq<RowMap>, i: int, j: int)
    requires
        spelled(w.function.name@, "ROW_NUMBER"@),
        rows.len() < 0x7fff_ffff_ffff_ffff,
        rows.len() <= usize::MAX,
        0 <= i < rows.len(),
        0 <= j < rows.len(),
        i != j,
        partition_keys(rows, w.partition_by@) matches Ok(keys) && partition_members(keys, keys[i])
            == partition_members(keys, keys[j]),
    ensures
        window_outcome(w, rows, i) matches Ok(AggregateSpec::Value(DataValue::Integer(a))) && window_outcome(
            w,
            rows,
            j,
        ) matches Ok(AggregateSpec::Value(DataValue::Integer(b))) && a != b && 1 <= a <= partition_members(
            partition_keys(rows, w.partition_by@)->Ok_0,
            partition_keys(rows, w.partition_by@)->Ok_0[i],
        ).len(),
{
    broadcast use vstd::seq_lib::group_to_multiset_ensures;

    reveal_strlit("ROW_NUMBER");
    reveal_strlit("RANK");
    let keys = partition_keys(rows, w.partition_by@)->Ok_0;
    lemma_partition_keys_len(rows, w.partition_by@);
    let members = partition_members(keys, keys[i]);
    lemma_members(keys, keys[i], i);
    lemma_members(keys, keys[j], j);
    let ordered = if w.order_by@.len() == 0 {
        members
    } else {
        sort_indices_spec(rows, w.order_by@, members)
    };
    if w.order_by@.len() != 0 {
        law_ordering_keeps_rows(rows, w.order_by@, members);
        assert(ordered.to_multiset().count(i as usize) > 0);
        assert(ordered.to_multiset().count(j as usize) > 0);
        assert(ordered.len() == ordered.to_multiset().len());
        assert(members.len() == members.to_multiset().len());
    }
    assert(ordered.contains(i as usize));
    assert(ordered.contains(j as usize));
    assert(ordered.len() == members.len());
    lemma_place_of(ordered, i as usize);
    lemma_place_of(ordered, j as usize);
    assert(upper_of(w.function.name@) == "ROW_NUMBER"@);
    lemma_members_len(keys, keys[i]);
    let pi = place_of(ordered, i as usize);
    let pj = place_of(ordered, j as usize);
    assert(pi != pj);
    assert(window_outcome(w, rows, i) == Ok::<AggregateSpec, EngineError>(
        AggregateSpec::Value(DataValue::Integer((pi + 1) as i64)),
    ));
    assert(window_outcome(w, rows, j) == Ok::<AggregateSpec, EngineError>(
        AggregateSpec::Value(DataValue::Integer((pj + 1) as i64)),
    ));
}


/// FIRST_VALUE and LAST_VALUE read the ends of the ordered partition: for
/// any row `j` of row `i`'s partition, when ROW_NUMBER (over the same
/// partitioning and ordering) numbers `j` first, FIRST_VALUE at `i` is the
/// argument on `j`; when it numbers `j` last (the partition's size),
/// LAST_VALUE at `i` is the argument on `j`.
pub proof fn law_first_last_value_read_ends(wv: WindowFunction, wn: WindowFunction, rows: Seq<RowMap>, i: int, j: int)
    requires
        wn.partition_by@ == wv.partition_by@,
        wn.order_by@ == wv.order_by@,
        spelled(wn.function.name@, "ROW_NUMBER"@),
        wv.function.arguments@.len() > 0,
        rows.len() < 0x7fff_ffff_ffff_ffff,
        rows.len() <= usize::MAX,
        0 <= i < rows.len(),
        0 <= j < rows.len(),
        partition_keys(rows, wv.partition_by@) matches Ok(keys) && partition_members(keys, keys[i])
            == partition_members(keys, keys[j]),
    ensures
        spelled(wv.function.name@, "LAST_VALUE"@) && window_outcome(wn, rows, j) == Ok::<AggregateSpec, EngineError>(
            AggregateSpec::Value(
                DataValue::Integer(
                    partition_members(
                        partition_keys(rows, wv.partition_by@)->Ok_0,
                        partition_keys(rows, wv.partition_by@)->Ok_0[i],
                    ).len() as i64,
                ),
            ),
        ) ==> window_outcome(wv, rows, i) == Ok::<AggregateSpec, EngineError>(
            AggregateSpec::Value(window_arg(wv.function.arguments@[0], rows[j])),
        ),
        spelled(wv.function.name@, "FIRST_VALUE"@) && window_outcome(wn, rows, j) == Ok::<AggregateSpec, EngineError>(
            AggregateSpec::Value(DataValue::Integer(1)),
        ) ==> window_outcome(wv, rows, i) == Ok::<AggregateSpec, EngineError>(
            AggregateSpec::Value(window_arg(wv.function.arguments@[0], rows[j])),
        ),
{
    broadcast use vstd::seq_lib::group_to_multiset_ensures;

    reveal_strlit("ROW_NUMBER");
    reveal_strlit("RANK");
    reveal_strlit("DENSE_RANK");
    reveal_strlit("LAG");
    reveal_strlit("LEAD");
    reveal_strlit("FIRST_VALUE");
    reveal_strlit("LAST_VALUE");
    let keys = partition_keys(rows, wv.partition_by@)->Ok_0;
    lemma_partition_keys_len(rows, wv.partition_by@);
    let members = partition_members(keys, keys[i]);
    lemma_members(keys, keys[j], j);
    lemma_members_len(keys, keys[i]);
    let ordered = if wv.order_by@.len() == 0 {
        members
    } else {
        sort_indices_spec(rows, wv.order_by@, members)
    };
    if wv.order_by@.len() != 0 {
        law_ordering_keeps_rows(rows, wv.order_by@, members);
        assert(ordered.to_multiset().count(j as usize) > 0);
        assert(ordered.len() == ordered.to_multiset().len());
        assert(members.len() == members.to_multiset().len());
    }
    assert(ordered.contains(j as usize));
    assert(ordered.len() == members.len());
    lemma_place_of(ordered, j as usize);
    let pj = place_of(ordered, j as usize);
    assert(upper_of(wn.function.name@) == "ROW_NUMBER"@);
    assert(window_outcome(wn, rows, j) == Ok::<AggregateSpec, EngineError>(
        AggregateSpec::Value(DataValue::Integer((pj + 1) as i64)),
    ));
    if spelled(wv.function.name@, "LAST_VALUE"@) && window_outcome(wn, rows, j) == Ok::<AggregateSpec, EngineError>(
        AggregateSpec::Value(DataValue::Integer(members.len() as i64)),
    ) {
        assert(upper_of(wv.function.name@) == "LAST_VALUE"@);
        assert(pj + 1 == members.len());
        assert(ordered.last() == j as usize);
        assert(upper_of(wv.function.name@) != "FIRST_VALUE"@);
        assert("LAST_VALUE"@[0] != "ROW_NUMBER"@[0]);
        assert("LAST_VALUE"@[0] != "DENSE_RANK"@[0]);
        assert("LAST_VALUE"@ != "ROW_NUMBER"@);
        assert("LAST_VALUE"@ != "DENSE_RANK"@);
        assert(window_outcome(wv, rows, i) == Ok::<AggregateSpec, EngineError>(
            AggregateSpec::Value(window_arg(wv.function.arguments@[0], rows[ordered.last() as int])),
        ));
    }
    if spelled(wv.function.name@, "FIRST_VALUE"@) && window_outcome(wn, rows, j) == Ok::<AggregateSpec, EngineError>(
        AggregateSpec::Value(DataValue::Integer(1)),
    ) {
        assert(upper_of(wv.function.name@) == "FIRST_VALUE"@);
        assert(pj == 0);
        assert(ordered[0] == j as usize);
    }
}

} // verus!
