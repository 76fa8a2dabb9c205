//! Aggregation: GROUP BY grouping, the aggregate functions COUNT, SUM, AVG,
//! MIN and MAX over a group, the rows of an aggregation query, and HAVING.
//!
//! SUM and AVG add floating-point numbers; the engine hands back the numbers
//! to add, in order, and the caller does the floating-point arithmetic.

use vstd::prelude::*;
use crate::ambient::{to_uppercase, upper_of};
use crate::engine::ast::{BinaryOperator, Expression, FunctionCall, GroupByClause, SelectItem};
use crate::engine::failure::{AggregateFunction, EngineError};
use crate::engine::rows::{
    copy_row, evaluate_group_expression, group_value, row_maps, Row, RowMap,
};
use crate::engine::values::{
    DataValue, literal_to_datavalue, literal_value, max_of_values, min_of_values, real_is_nan, real_less,
    value_eq, value_max, value_min, values_equal,
};
use crate::text::{all_ascii, ascii_upper, owned, str_equal, StringMap};

verus! {

/// The result of an aggregate function over a group.
#[derive(Debug)]
pub enum AggregateValue {
    /// A value computed exactly.
    Value(DataValue),
    /// The floating-point sum of these numbers, added in order from 0.
    Total(Vec<DataValue>),
    /// As `Total`, but null when there are no numbers.
    TotalOrNull(Vec<DataValue>),
    /// The floating-point mean of these numbers (their `Total` divided by
    /// their count), or null when there are none.
    Mean(Vec<DataValue>),
}

/// What an aggregate result stands for.
pub enum AggregateSpec {
    Value(DataValue),
    Total(Seq<DataValue>),
    TotalOrNull(Seq<DataValue>),
    Mean(Seq<DataValue>),
}

impl View for AggregateValue {
    type V = AggregateSpec;

    open spec fn view(&self) -> AggregateSpec {
        match self {
            AggregateValue::Value(v) => AggregateSpec::Value(*v),
            AggregateValue::Total(n) => AggregateSpec::Total(n@),
            AggregateValue::TotalOrNull(n) => AggregateSpec::TotalOrNull(n@),
            AggregateValue::Mean(n) => AggregateSpec::Mean(n@),
        }
    }
}

/// The values an argument has on each row of a group, in order; the first
/// failing evaluation fails.
pub open spec fn arg_values(arg: Expression, rows: Seq<RowMap>) -> Result<Seq<DataValue>, EngineError>
    decreases rows.len(),
{
    if rows.len() == 0 {
        Ok(Seq::empty())
    } else {
        match arg_values(arg, rows.drop_last()) {
            Err(e) => Err(e),
            Ok(vs) => match group_value(arg, rows.last()) {
                Err(e) => Err(e),
                Ok(v) => Ok(vs.push(v)),
            },
        }
    }
}

/// The number of values that are not null.
pub open spec fn non_null_count(vs: Seq<DataValue>) -> nat
    decreases vs.len(),
{
    if vs.len() == 0 {
        0
    } else {
        non_null_count(vs.drop_last()) + if vs.last() is Null {
            0nat
        } else {
            1nat
        }
    }
}

/// The integers and floating-point numbers among the values, in order.
pub open spec fn numbers_of(vs: Seq<DataValue>) -> Seq<DataValue>
    decreases vs.len(),
{
    if vs.len() == 0 {
        Seq::empty()
    } else if vs.last() is Integer || vs.last() is Real {
        numbers_of(vs.drop_last()).push(vs.last())
    } else {
        numbers_of(vs.drop_last())
    }
}

/// The smallest of the values that are not null (folded in order with
/// `value_min`), if any.
pub open spec fn min_fold(vs: Seq<DataValue>) -> Option<DataValue>
    decreases vs.len(),
{
    if vs.len() == 0 {
        None
    } else if vs.last() is Null {
        min_fold(vs.drop_last())
    } else {
        match min_fold(vs.drop_last()) {
            None => Some(vs.last()),
            Some(m) => Some(value_min(m, vs.last())),
        }
    }
}

/// The largest of the values that are not null (folded in order with
/// `value_max`), if any.
pub open spec fn max_fold(vs: Seq<DataValue>) -> Option<DataValue>
    decreases vs.len(),
{
    if vs.len() == 0 {
        None
    } else if vs.last() is Null {
        max_fold(vs.drop_last())
    } else {
        match max_fold(vs.drop_last()) {
            None => Some(vs.last()),
            Some(m) => Some(value_max(m, vs.last())),
        }
    }
}

/// The value of an optional value, null when there is none.
pub open spec fn or_null(v: Option<DataValue>) -> DataValue {
    match v {
        Some(x) => x,
        None => DataValue::Null,
    }
}

/// What an expression of a select list gives for a group of rows.  For a
/// call of COUNT, SUM, AVG, MIN or MAX (named in any case): COUNT() and
/// COUNT(*) count the rows, COUNT(x) the rows where x is not null; SUM and
/// AVG take the numbers among the argument's values, MIN and MAX the
/// smallest and largest value that is not null (null when there is none);
/// SUM, AVG, MIN and MAX without an argument fail, as does any other
/// function.  Any other expression is evaluated on the first row.
pub open spec fn aggregate_outcome(expr: Expression, rows: Seq<RowMap>) -> Result<AggregateSpec, EngineError> {
    match expr {
        Expression::Function(call) => {
            let u = upper_of(call.name@);
            let args = call.arguments@;
            if u == "COUNT"@ {
                if args.len() == 0 || args[0] is Asterisk {
                    Ok(AggregateSpec::Value(DataValue::Integer(rows.len() as i64)))
                } else {
                    match arg_values(args[0], rows) {
                        Err(e) => Err(e),
                        Ok(vs) => Ok(AggregateSpec::Value(DataValue::Integer(non_null_count(vs) as i64))),
                    }
                }
            } else if u == "SUM"@ || u == "AVG"@ || u == "MIN"@ || u == "MAX"@ {
                let f = if u == "SUM"@ {
                    AggregateFunction::Sum
                } else if u == "AVG"@ {
                    AggregateFunction::Avg
                } else if u == "MIN"@ {
                    AggregateFunction::Min
                } else {
                    AggregateFunction::Max
                };
                if args.len() == 0 {
                    Err(EngineError::MissingArgument(f))
                } else {
                    match arg_values(args[0], rows) {
                        Err(e) => Err(e),
                        Ok(vs) => Ok(
                            match f {
                                AggregateFunction::Sum => AggregateSpec::TotalOrNull(numbers_of(vs)),
                                AggregateFunction::Avg => AggregateSpec::Mean(numbers_of(vs)),
                                AggregateFunction::Min => AggregateSpec::Value(or_null(min_fold(vs))),
                                _ => AggregateSpec::Value(or_null(max_fold(vs))),
                            },
                        ),
                    }
                }
            } else {
                Err(EngineError::UnknownAggregate(call.name))
            }
        },
        _ => match group_value(expr, rows[0]) {
            Err(e) => Err(e),
            Ok(v) => Ok(AggregateSpec::Value(v)),
        },
    }
}

proof fn lemma_arg_values_error(arg: Expression, rows: Seq<RowMap>, n: int, e: EngineError)
    requires
        0 <= n <= rows.len(),
        arg_values(arg, rows.take(n)) == Err::<Seq<DataValue>, EngineError>(e),
    ensures
        arg_values(arg, rows) == Err::<Seq<DataValue>, EngineError>(e),
    decreases rows.len(),
{
    if n < rows.len() {
        assert(rows.drop_last().take(n) =~= rows.take(n));
        lemma_arg_values_error(arg, rows.drop_last(), n, e);
    } else {
        assert(rows.take(n) =~= rows);
    }
}

/// The values of an argument on each row of a group (see `arg_values`).
pub fn argument_values(arg: &Expression, rows: &Vec<Row>) -> (r: Result<Vec<DataValue>, EngineError>)
    ensures
        match arg_values(*arg, row_maps(rows@)) {
            Ok(vs) => r is Ok && r->Ok_0@ == vs,
            Err(e) => r == Err::<Vec<DataValue>, EngineError>(e),
        },
{
    let ghost maps = row_maps(rows@);
    let mut out: Vec<DataValue> = Vec::new();
    let mut i: usize = 0;
    while i < rows.len()
        invariant
            i <= rows@.len(),
            maps == row_maps(rows@),
            arg_values(*arg, maps.take(i as int)) == Ok::<Seq<DataValue>, EngineError>(out@),
        decreases rows.len() - i,
    {
        assert(maps.take(i as int + 1).drop_last() =~= maps.take(i as int));
        assert(maps.take(i as int + 1).last() == rows@[i as int]@);
        match evaluate_group_expression(arg, &rows[i]) {
            Ok(v) => {
                out.push(v);
            },
            Err(e) => {
                proof {
                    lemma_arg_values_error(*arg, maps, i as int + 1, e);
                }
                return Err(e);
            },
        }
        i = i + 1;
    }
    assert(maps.take(i as int) =~= maps);
    Ok(out)
}

fn count_non_null(vs: &Vec<DataValue>) -> (r: usize)
    ensures
        r == non_null_count(vs@),
        r <= vs@.len(),
{
    let mut n: usize = 0;
    let mut i: usize = 0;
    while i < vs.len()
        invariant
            i <= vs@.len(),
            n == non_null_count(vs@.take(i as int)),
            n <= i,
        decreases vs.len() - i,
    {
        assert(vs@.take(i as int + 1).drop_last() =~= vs@.take(i as int));
        if !vs[i].is_null() {
            n = n + 1;
        }
        i = i + 1;
    }
    assert(vs@.take(i as int) =~= vs@);
    n
}

fn numbers(vs: &Vec<DataValue>) -> (r: Vec<DataValue>)
    ensures
        r@ == numbers_of(vs@),
{
    let mut out: Vec<DataValue> = Vec::new();
    let mut i: usize = 0;
    while i < vs.len()
        invariant
            i <= vs@.len(),
            out@ == numbers_of(vs@.take(i as int)),
        decreases vs.len() - i,
    {
        assert(vs@.take(i as int + 1).drop_last() =~= vs@.take(i as int));
        match &vs[i] {
            DataValue::Integer(_) | DataValue::Real(_) => {
                out.push(vs[i].duplicate());
            },
            _ => {},
        }
        i = i + 1;
    }
    assert(vs@.take(i as int) =~= vs@);
    out
}

fn fold_min(vs: &Vec<DataValue>) -> (r: DataValue)
    ensures
        r == or_null(min_fold(vs@)),
{
    let mut m: Option<DataValue> = None;
    let mut i: usize = 0;
    while i < vs.len()
        invariant
            i <= vs@.len(),
            m == min_fold(vs@.take(i as int)),
        decreases vs.len() - i,
    {
        assert(vs@.take(i as int + 1).drop_last() =~= vs@.take(i as int));
        if !vs[i].is_null() {
            m = match m {
                None => Some(vs[i].duplicate()),
                Some(cur) => Some(min_of_values(&cur, &vs[i])),
            };
        }
        i = i + 1;
    }
    assert(vs@.take(i as int) =~= vs@);
    match m {
        Some(v) => v,
        None => DataValue::Null,
    }
}

fn fold_max(vs: &Vec<DataValue>) -> (r: DataValue)
    ensures
        r == or_null(max_fold(vs@)),
{
    let mut m: Option<DataValue> = None;
    let mut i: usize = 0;
    while i < vs.len()
        invariant
            i <= vs@.len(),
            m == max_fold(vs@.take(i as int)),
        decreases vs.len() - i,
    {
        assert(vs@.take(i as int + 1).drop_last() =~= vs@.take(i as int));
        if !vs[i].is_null() {
            m = match m {
                None => Some(vs[i].duplicate()),
                Some(cur) => Some(max_of_values(&cur, &vs[i])),
            };
        }
        i = i + 1;
    }
    assert(vs@.take(i as int) =~= vs@);
    match m {
        Some(v) => v,
        None => DataValue::Null,
    }
}

/// What an expression of a select list gives for a group of rows (see
/// `aggregate_outcome`).  An expression that is not a function call is read
/// from the group's first row, so the group must not be empty then.
pub fn evaluate_aggregate_expression(expr: &Expression, group_rows: &Vec<Row>) -> (r: Result<AggregateValue, EngineError>)
    requires
        group_rows@.len() > 0 || expr is Function,
    ensures
        match aggregate_outcome(*expr, row_maps(group_rows@)) {
            Ok(a) => r is Ok && r->Ok_0@ == a,
            Err(e) => r is Err && r->Err_0 == e,
        },
{
    match expr {
        Expression::Function(call) => {
            let u = to_uppercase(call.name.as_str());
            let args = &call.arguments;
            if str_equal(u.as_str(), "COUNT") {
                if args.len() == 0 {
                    return Ok(AggregateValue::Value(DataValue::Integer(group_rows.len() as i64)));
                }
                if let Expression::Asterisk = &args[0] {
                    return Ok(AggregateValue::Value(DataValue::Integer(group_rows.len() as i64)));
                }
                let vs = match argument_values(&args[0], group_rows) {
                    Ok(vs) => vs,
                    Err(e) => return Err(e),
                };
                let n = count_non_null(&vs);
                return Ok(AggregateValue::Value(DataValue::Integer(n as i64)));
            }
            let f = if str_equal(u.as_str(), "SUM") {
                AggregateFunction::Sum
            } else if str_equal(u.as_str(), "AVG") {
                AggregateFunction::Avg
            } else if str_equal(u.as_str(), "MIN") {
                AggregateFunction::Min
            } else if str_equal(u.as_str(), "MAX") {
                AggregateFunction::Max
            } else {
                return Err(EngineError::UnknownAggregate(call.name.clone()));
            };
            if args.len() == 0 {
                return Err(EngineError::MissingArgument(f));
            }
            let vs = match argument_values(&args[0], group_rows) {
                Ok(vs) => vs,
                Err(e) => return Err(e),
            };
            match f {
                AggregateFunction::Sum => Ok(AggregateValue::TotalOrNull(numbers(&vs))),
                AggregateFunction::Avg => Ok(AggregateValue::Mean(numbers(&vs))),
                AggregateFunction::Min => Ok(AggregateValue::Value(fold_min(&vs))),
                _ => Ok(AggregateValue::Value(fold_max(&vs))),
            }
        },
        _ => match evaluate_group_expression(expr, &group_rows[0]) {
            Ok(v) => Ok(AggregateValue::Value(v)),
            Err(e) => Err(e),
        },
    }
}

/// Whether two values fall in one group: two nulls, equal integers, texts or
/// booleans, or floating-point numbers with the same bits (all NaNs alike).
pub open spec fn same_group_value(a: DataValue, b: DataValue) -> bool {
    match a {
        DataValue::Null => b is Null,
        DataValue::Integer(x) => b matches DataValue::Integer(y) && x == y,
        DataValue::Real(x) => b matches DataValue::Real(y) && (x.bits == y.bits || (real_is_nan(x.bits)
            && real_is_nan(y.bits))),
        DataValue::Text(x) => b matches DataValue::Text(y) && x@ == y@,
        DataValue::Boolean(x) => b matches DataValue::Boolean(y) && x == y,
    }
}

/// Whether two grouping keys are alike, value by value.
pub open spec fn same_key(a: Seq<DataValue>, b: Seq<DataValue>) -> bool {
    a.len() == b.len() && forall|i: int| 0 <= i < a.len() ==> #[trigger] same_group_value(a[i], b[i])
}

fn same_value_for_grouping(a: &DataValue, b: &DataValue) -> (r: bool)
    ensures
        r == same_group_value(*a, *b),
{
    match (a, b) {
        (DataValue::Null, DataValue::Null) => true,
        (DataValue::Integer(x), DataValue::Integer(y)) => *x == *y,
        (DataValue::Real(x), DataValue::Real(y)) => {
            let nan_x = (x.bits & 0x7ff0_0000_0000_0000u64) == 0x7ff0_0000_0000_0000u64 && (x.bits
                & 0x000f_ffff_ffff_ffffu64) != 0;
            let nan_y = (y.bits & 0x7ff0_0000_0000_0000u64) == 0x7ff0_0000_0000_0000u64 && (y.bits
                & 0x000f_ffff_ffff_ffffu64) != 0;
            x.bits == y.bits || (nan_x && nan_y)
        },
        (DataValue::Text(x), DataValue::Text(y)) => str_equal(x.as_str(), y.as_str()),
        (DataValue::Boolean(x), DataValue::Boolean(y)) => *x == *y,
        _ => false,
    }
}

pub fn keys_alike(a: &Vec<DataValue>, b: &Vec<DataValue>) -> (r: bool)
    ensures
        r == same_key(a@, b@),
{
    if a.len() != b.len() {
        return false;
    }
    let mut i: usize = 0;
    while i < a.len()
        invariant
            i <= a@.len(),
            a@.len() == b@.len(),
            forall|j: int| 0 <= j < i ==> #[trigger] same_group_value(a@[j], b@[j]),
        decreases a.len() - i,
    {
        if !same_value_for_grouping(&a[i], &b[i]) {
            return false;
        }
        i = i + 1;
    }
    true
}

/// The grouping key of a row: the values of the GROUP BY expressions on it,
/// in order; the first failing evaluation fails.
pub open spec fn key_of(exprs: Seq<Expression>, row: RowMap) -> Result<Seq<DataValue>, EngineError>
    decreases exprs.len(),
{
    if exprs.len() == 0 {
        Ok(Seq::empty())
    } else {
        match key_of(exprs.drop_last(), row) {
            Err(e) => Err(e),
            Ok(k) => match group_value(exprs.last(), row) {
                Err(e) => Err(e),
                Ok(v) => Ok(k.push(v)),
            },
        }
    }
}

proof fn lemma_key_of_error(exprs: Seq<Expression>, row: RowMap, n: int, e: EngineError)
    requires
        0 <= n <= exprs.len(),
        key_of(exprs.take(n), row) == Err::<Seq<DataValue>, EngineError>(e),
    ensures
        key_of(exprs, row) == Err::<Seq<DataValue>, EngineError>(e),
    decreases exprs.len(),
{
    if n < exprs.len() {
        assert(exprs.drop_last().take(n) =~= exprs.take(n));
        lemma_key_of_error(exprs.drop_last(), row, n, e);
    } else {
        assert(exprs.take(n) =~= exprs);
    }
}

pub fn row_key(exprs: &Vec<Expression>, row: &Row) -> (r: Result<Vec<DataValue>, EngineError>)
    ensures
        match key_of(exprs@, row@) {
            Ok(k) => r is Ok && r->Ok_0@ == k,
            Err(e) => r == Err::<Vec<DataValue>, EngineError>(e),
        },
{
    let mut key: Vec<DataValue> = Vec::new();
    let mut i: usize = 0;
    while i < exprs.len()
        invariant
            i <= exprs@.len(),
            key_of(exprs@.take(i as int), row@) == Ok::<Seq<DataValue>, EngineError>(key@),
        decreases exprs.len() - i,
    {
        assert(exprs@.take(i as int + 1).drop_last() =~= exprs@.take(i as int));
        match evaluate_group_expression(&exprs[i], row) {
            Ok(v) => key.push(v),
            Err(e) => {
                proof {
                    lemma_key_of_error(exprs@, row@, i as int + 1, e);
                }
                return Err(e);
            },
        }
        i = i + 1;
    }
    assert(exprs@.take(i as int) =~= exprs@);
    Ok(key)
}

/// A group: its key (that of its first row) and its rows.
pub type Group = (Vec<DataValue>, Vec<Row>);

/// What a list of groups stands for.
pub open spec fn group_views(groups: Seq<Group>) -> Seq<(Seq<DataValue>, Seq<RowMap>)> {
    groups.map_values(|g: Group| (g.0@, row_maps(g.1@)))
}

/// The index of the first group whose key is alike to `key`, if any.
pub open spec fn group_index(groups: Seq<(Seq<DataValue>, Seq<RowMap>)>, key: Seq<DataValue>) -> Option<int>
    decreases groups.len(),
{
    if groups.len() == 0 {
        None
    } else {
        match group_index(groups.drop_last(), key) {
            Some(i) => Some(i),
            None => if same_key(groups.last().0, key) {
                Some(groups.len() - 1)
            } else {
                None
            },
        }
    }
}

/// The groups of rows with alike keys, in the order their first rows come,
/// each with its rows in order; the first failing key evaluation fails.
pub open spec fn grouping(rows: Seq<RowMap>, exprs: Seq<Expression>) -> Result<
    Seq<(Seq<DataValue>, Seq<RowMap>)>,
    EngineError,
>
    decreases rows.len(),
{
    if rows.len() == 0 {
        Ok(Seq::empty())
    } else {
        match grouping(rows.drop_last(), exprs) {
            Err(e) => Err(e),
            Ok(gs) => match key_of(exprs, rows.last()) {
                Err(e) => Err(e),
                Ok(k) => Ok(
                    match group_index(gs, k) {
                        Some(i) => gs.update(i, (gs[i].0, gs[i].1.push(rows.last()))),
                        None => gs.push((k, seq![rows.last()])),
                    },
                ),
            },
        }
    }
}

proof fn lemma_grouping_error(rows: Seq<RowMap>, exprs: Seq<Expression>, n: int, e: EngineError)
    requires
        0 <= n <= rows.len(),
        grouping(rows.take(n), exprs) == Err::<Seq<(Seq<DataValue>, Seq<RowMap>)>, EngineError>(e),
    ensures
        grouping(rows, exprs) == Err::<Seq<(Seq<DataValue>, Seq<RowMap>)>, EngineError>(e),
    decreases rows.len(),
{
    if n < rows.len() {
        assert(rows.drop_last().take(n) =~= rows.take(n));
        lemma_grouping_error(rows.drop_last(), exprs, n, e);
    } else {
        assert(rows.take(n) =~= rows);
    }
}

fn find_group(groups: &Vec<Group>, key: &Vec<DataValue>) -> (r: Option<usize>)
    ensures
        match r {
            Some(j) => group_index(group_views(groups@), key@) == Some(j as int),
            None => group_index(group_views(groups@), key@) is None,
        },
{
    let ghost views = group_views(groups@);
    let mut i: usize = 0;
    while i < groups.len()
        invariant
            i <= groups@.len(),
            views == group_views(groups@),
            group_index(views.take(i as int), key@) is None,
        decreases groups.len() - i,
    {
        assert(views.take(i as int + 1).drop_last() =~= views.take(i as int));
        if keys_alike(&groups[i].0, key) {
            proof {
                lemma_group_index_prefix(views, key@, i as int + 1);
            }
            return Some(i);
        }
        i = i + 1;
    }
    assert(views.take(i as int) =~= views);
    None
}

proof fn lemma_group_index_prefix(groups: Seq<(Seq<DataValue>, Seq<RowMap>)>, key: Seq<DataValue>, n: int)
    requires
        0 <= n <= groups.len(),
        group_index(groups.take(n), key) is Some,
    ensures
        group_index(groups, key) == group_index(groups.take(n), key),
    decreases groups.len(),
{
    if n < groups.len() {
        assert(groups.drop_last().take(n) =~= groups.take(n));
        lemma_group_index_prefix(groups.drop_last(), key, n);
    } else {
        assert(groups.take(n) =~= groups);
    }
}

proof fn lemma_group_index_bound(groups: Seq<(Seq<DataValue>, Seq<RowMap>)>, key: Seq<DataValue>)
    ensures
        group_index(groups, key) matches Some(i) ==> 0 <= i < groups.len(),
    decreases groups.len(),
{
    if groups.len() > 0 {
        lemma_group_index_bound(groups.drop_last(), key);
    }
}

/// Groups rows by the values of GROUP BY expressions (see `grouping`).
pub fn group_rows_by_expressions(rows: &Vec<Row>, group_exprs: &Vec<Expression>) -> (r: Result<Vec<Group>, EngineError>)
    ensures
        match grouping(row_maps(rows@), group_exprs@) {
            Ok(gs) => r is Ok && group_views(r->Ok_0@) == gs,
            Err(e) => r == Err::<Vec<Group>, EngineError>(e),
        },
{
    let ghost maps = row_maps(rows@);
    let mut groups: Vec<Group> = Vec::new();
    let mut i: usize = 0;
    proof {
        assert(group_views(groups@) =~= Seq::<(Seq<DataValue>, Seq<RowMap>)>::empty());
    }
    while i < rows.len()
        invariant
            i <= rows@.len(),
            maps == row_maps(rows@),
            grouping(maps.take(i as int), group_exprs@) == Ok::<Seq<(Seq<DataValue>, Seq<RowMap>)>, EngineError>(
                group_views(groups@),
            ),
        decreases rows.len() - i,
    {
        assert(maps.take(i as int + 1).drop_last() =~= maps.take(i as int));
        assert(maps.take(i as int + 1).last() == rows@[i as int]@);
        let key = match row_key(group_exprs, &rows[i]) {
            Ok(k) => k,
            Err(e) => {
                proof {
                    lemma_grouping_error(maps, group_exprs@, i as int + 1, e);
                }
                return Err(e);
            },
        };
        let row = copy_row(&rows[i]);
        let ghost before = group_views(groups@);
        proof {
            lemma_group_index_bound(before, key@);
            assert(key_of(group_exprs@, maps.take(i as int + 1).last()) == Ok::<Seq<DataValue>, EngineError>(key@));
            assert(grouping(maps.take(i as int + 1).drop_last(), group_exprs@) == Ok::<
                Seq<(Seq<DataValue>, Seq<RowMap>)>,
                EngineError,
            >(before));
        }
        match find_group(&groups, &key) {
            Some(g) => {
                let mut group = groups.remove(g);
                group.1.push(row);
                groups.insert(g, group);
                proof {
                    assert(row_maps(group.1@) =~= before[g as int].1.push(rows@[i as int]@));
                    assert(group_views(groups@) =~= before.update(
                        g as int,
                        (before[g as int].0, before[g as int].1.push(rows@[i as int]@)),
                    ));
                    assert(group_index(before, key@) == Some(g as int));
                    assert(grouping(maps.take(i as int + 1), group_exprs@) == Ok::<
                        Seq<(Seq<DataValue>, Seq<RowMap>)>,
                        EngineError,
                    >(group_views(groups@)));
                }
            },
            None => {
                let members = vec![row];
                proof {
                    assert(row_maps(members@) =~= seq![rows@[i as int]@]);
                }
                groups.push((key, members));
                proof {
                    assert(group_views(groups@) =~= before.push((key@, seq![rows@[i as int]@])));
                    assert(group_index(before, key@) is None);
                    assert(grouping(maps.take(i as int + 1), group_exprs@) == Ok::<
                        Seq<(Seq<DataValue>, Seq<RowMap>)>,
                        EngineError,
                    >(group_views(groups@)));
                }
            },
        }
        i = i + 1;
    }
    assert(maps.take(i as int) =~= maps);
    Ok(groups)
}

/// The column name a select-list expression gets when it has no alias.
pub open spec fn column_name_of(expr: Expression) -> Seq<char> {
    match expr {
        Expression::Identifier(n) => n@,
        Expression::Column(n) => n@,
        Expression::Function(call) => call.name@,
        Expression::WindowFunction(w) => w.function.name@,
        Expression::Literal(_) => "literal"@,
        Expression::BinaryOp { .. } => "expression"@,
        Expression::VectorLiteral(_) => "vector"@,
        Expression::Asterisk => "*"@,
    }
}

/// The column name a select-list expression gets when it has no alias (see
/// `column_name_of`).
pub fn expression_to_column_name(expr: &Expression) -> (r: String)
    ensures
        r@ == column_name_of(*expr),
{
    match expr {
        Expression::Identifier(n) => n.clone(),
        Expression::Column(n) => n.clone(),
        Expression::Function(call) => call.name.clone(),
        Expression::WindowFunction(w) => w.function.name.clone(),
        Expression::Literal(_) => owned("literal"),
        Expression::BinaryOp { .. } => owned("expression"),
        Expression::VectorLiteral(_) => owned("vector"),
        Expression::Asterisk => owned("*"),
    }
}

/// The name of the column a select item fills.
pub open spec fn output_name(expr: Expression, alias: Option<String>) -> Seq<char> {
    match alias {
        Some(a) => a@,
        None => column_name_of(expr),
    }
}

/// What a row of aggregate results stands for.
pub open spec fn aggregate_row_view(row: Map<Seq<char>, AggregateValue>) -> Map<Seq<char>, AggregateSpec> {
    row.map_values(|a: AggregateValue| a@)
}

/// The result row of one group: each expression of the select list in order
/// (`*` adds nothing) under its alias or its column name; a later item of
/// the same name wins.  The first failing item fails.
pub open spec fn aggregate_row(items: Seq<SelectItem>, group: Seq<RowMap>) -> Result<
    Map<Seq<char>, AggregateSpec>,
    EngineError,
>
    decreases items.len(),
{
    if items.len() == 0 {
        Ok(Map::empty())
    } else {
        match aggregate_row(items.drop_last(), group) {
            Err(e) => Err(e),
            Ok(row) => match items.last() {
                SelectItem::Wildcard => Ok(row),
                SelectItem::Expression { expr, alias } => match aggregate_outcome(expr, group) {
                    Err(e) => Err(e),
                    Ok(a) => Ok(row.insert(output_name(expr, alias), a)),
                },
            },
        }
    }
}

/// The result rows of the groups, in order; the first failing group fails.
pub open spec fn aggregate_rows(items: Seq<SelectItem>, groups: Seq<Seq<RowMap>>) -> Result<
    Seq<Map<Seq<char>, AggregateSpec>>,
    EngineError,
>
    decreases groups.len(),
{
    if groups.len() == 0 {
        Ok(Seq::empty())
    } else {
        match aggregate_rows(items, groups.drop_last()) {
            Err(e) => Err(e),
            Ok(done) => match aggregate_row(items, groups.last()) {
                Err(e) => Err(e),
                Ok(row) => Ok(done.push(row)),
            },
        }
    }
}

/// Whether a select list has an item that is evaluated on a group's first
/// row (an expression that is not a function call).
pub open spec fn reads_first_row(items: Seq<SelectItem>) -> bool {
    exists|i: int| 0 <= i < items.len() && #[trigger] item_reads_first_row(items[i])
}

/// Whether a select item is an expression that is not a function call.
pub open spec fn item_reads_first_row(item: SelectItem) -> bool {
    item matches SelectItem::Expression { expr, .. } && !(expr is Function)
}

/// The groups an aggregation query works on: those of its GROUP BY clause,
/// or, without one, all rows as one group.
pub open spec fn query_groups(rows: Seq<RowMap>, group_by: Option<GroupByClause>) -> Result<
    Seq<Seq<RowMap>>,
    EngineError,
> {
    match group_by {
        Some(g) => match grouping(rows, g.expressions@) {
            Err(e) => Err(e),
            Ok(gs) => Ok(gs.map_values(|p: (Seq<DataValue>, Seq<RowMap>)| p.1)),
        },
        None => Ok(seq![rows]),
    }
}

/// What the rows of an aggregation query stand for.
pub open spec fn aggregate_row_views(rows: Seq<StringMap<AggregateValue>>) -> Seq<Map<Seq<char>, AggregateSpec>> {
    rows.map_values(|r: StringMap<AggregateValue>| aggregate_row_view(r@))
}

proof fn lemma_grouping_nonempty(rows: Seq<RowMap>, exprs: Seq<Expression>)
    ensures
        grouping(rows, exprs) matches Ok(gs) ==> forall|i: int| 0 <= i < gs.len() ==> #[trigger] gs[i].1.len() > 0,
    decreases rows.len(),
{
    if rows.len() > 0 {
        lemma_grouping_nonempty(rows.drop_last(), exprs);
        match grouping(rows.drop_last(), exprs) {
            Ok(gs) => match key_of(exprs, rows.last()) {
                Ok(k) => {
                    lemma_group_index_bound(gs, k);
                    let g2 = grouping(rows, exprs)->Ok_0;
                    assert forall|i: int| 0 <= i < g2.len() implies #[trigger] g2[i].1.len() > 0 by {
                        match group_index(gs, k) {
                            Some(j) => {
                                if i != j {
                                    assert(g2[i] == gs[i]);
                                }
                            },
                            None => {
                                if i < gs.len() {
                                    assert(g2[i] == gs[i]);
                                }
                            },
                        }
                    }
                },
                Err(_) => {},
            },
            Err(_) => {},
        }
    }
}

fn aggregate_group(items: &Vec<SelectItem>, group: &Vec<Row>) -> (r: Result<StringMap<AggregateValue>, EngineError>)
    requires
        group@.len() > 0 || !reads_first_row(items@),
    ensures
        match aggregate_row(items@, row_maps(group@)) {
            Ok(row) => r is Ok && aggregate_row_view(r->Ok_0@) == row,
            Err(e) => r is Err && r->Err_0 == e,
        },
{
    let ghost maps = row_maps(group@);
    let mut out: StringMap<AggregateValue> = StringMap::new();
    let mut i: usize = 0;
    proof {
        assert(aggregate_row_view(out@) =~= Map::<Seq<char>, AggregateSpec>::empty());
    }
    while i < items.len()
        invariant
            i <= items@.len(),
            maps == row_maps(group@),
            group@.len() > 0 || !reads_first_row(items@),
            aggregate_row(items@.take(i as int), maps) == Ok::<Map<Seq<char>, AggregateSpec>, EngineError>(
                aggregate_row_view(out@),
            ),
        decreases items.len() - i,
    {
        assert(items@.take(i as int + 1).drop_last() =~= items@.take(i as int));
        assert(items@.take(i as int + 1).last() == items@[i as int]);
        match &items[i] {
            SelectItem::Wildcard => {},
            SelectItem::Expression { expr, alias } => {
                proof {
                    if !(*expr is Function) {
                        assert(reads_first_row(items@) ==> group@.len() > 0);
                        assert(item_reads_first_row(items@[i as int]));
                    }
                }
                match evaluate_aggregate_expression(expr, group) {
                    Ok(a) => {
                        let name = match alias {
                            Some(a) => a.clone(),
                            None => expression_to_column_name(expr),
                        };
                        let ghost before = out@;
                        let ghost av = a@;
                        let ghost key = name@;
                        out.insert(name, a);
                        proof {
                            assert(aggregate_row_view(out@) =~= aggregate_row_view(before).insert(key, av));
                        }
                    },
                    Err(e) => {
                        proof {
                            lemma_aggregate_row_error(items@, maps, i as int + 1, e);
                        }
                        return Err(e);
                    },
                }
            },
        }
        i = i + 1;
    }
    assert(items@.take(i as int) =~= items@);
    Ok(out)
}

proof fn lemma_aggregate_row_error(items: Seq<SelectItem>, group: Seq<RowMap>, n: int, e: EngineError)
    requires
        0 <= n <= items.len(),
        aggregate_row(items.take(n), group) == Err::<Map<Seq<char>, AggregateSpec>, EngineError>(e),
    ensures
        aggregate_row(items, group) == Err::<Map<Seq<char>, AggregateSpec>, EngineError>(e),
    decreases items.len(),
{
    if n < items.len() {
        assert(items.drop_last().take(n) =~= items.take(n));
        lemma_aggregate_row_error(items.drop_last(), group, n, e);
    } else {
        assert(items.take(n) =~= items);
    }
}

proof fn lemma_aggregate_rows_error(items: Seq<SelectItem>, groups: Seq<Seq<RowMap>>, n: int, e: EngineError)
    requires
        0 <= n <= groups.len(),
        aggregate_rows(items, groups.take(n)) == Err::<Seq<Map<Seq<char>, AggregateSpec>>, EngineError>(e),
    ensures
        aggregate_rows(items, groups) == Err::<Seq<Map<Seq<char>, AggregateSpec>>, EngineError>(e),
    decreases groups.len(),
{
    if n < groups.len() {
        assert(groups.drop_last().take(n) =~= groups.take(n));
        lemma_aggregate_rows_error(items, groups.drop_last(), n, e);
    } else {
        assert(groups.take(n) =~= groups);
    }
}

/// The rows of an aggregation query before HAVING: the rows are grouped by
/// the GROUP BY expressions (all rows form one group without GROUP BY), and
/// each group gives one row of the select list's aggregates.  A select item
/// that is not a function call is read from its group's first row, so an
/// aggregation without GROUP BY over no rows may not have such an item.
pub fn execute_aggregation(select_list: &Vec<SelectItem>, group_by: &Option<GroupByClause>, rows: Vec<Row>) -> (r: Result<
    Vec<StringMap<AggregateValue>>,
    EngineError,
>)
    requires
        group_by is Some || rows@.len() > 0 || !reads_first_row(select_list@),
    ensures
        match query_groups(row_maps(rows@), *group_by) {
            Err(e) => r is Err && r->Err_0 == e,
            Ok(groups) => match aggregate_rows(select_list@, groups) {
                Ok(out) => r is Ok && aggregate_row_views(r->Ok_0@) == out,
                Err(e) => r is Err && r->Err_0 == e,
            },
        },
{
    let ghost maps = row_maps(rows@);
    let groups: Vec<Vec<Row>> = match group_by {
        Some(g) => {
            let gs = match group_rows_by_expressions(&rows, &g.expressions) {
                Ok(gs) => gs,
                Err(e) => return Err(e),
            };
            proof {
                lemma_grouping_nonempty(maps, g.expressions@);
            }
            let ghost views = group_views(gs@);
            let mut gs = gs;
            let mut members: Vec<Vec<Row>> = Vec::new();
            let mut k: usize = 0;
            let total: usize = gs.len();
            let ghost orig = gs@;
            while gs.len() > 0
                invariant
                    k + gs@.len() == total,
                    total == orig.len(),
                    views == group_views(orig),
                    gs@ == orig.skip(k as int),
                    members@.len() == k,
                    forall|j: int| 0 <= j < k ==> #[trigger] row_maps(members@[j]@) == views[j].1,
                decreases gs.len(),
            {
                let (_, m) = gs.remove(0);
                assert(row_maps(m@) == views[k as int].1);
                members.push(m);
                k = k + 1;
                assert(gs@ =~= orig.skip(k as int));
            }
            proof {
                let want = views.map_values(|p: (Seq<DataValue>, Seq<RowMap>)| p.1);
                assert(members@.map_values(|m: Vec<Row>| row_maps(m@)) =~= want);
                assert forall|j: int| 0 <= j < members@.len() implies #[trigger] members@[j]@.len() > 0 by {
                    assert(row_maps(members@[j]@) == views[j].1);
                    assert(row_maps(members@[j]@).len() == members@[j]@.len());
                }
            }
            members
        },
        None => {
            let v = vec![rows];
            proof {
                assert(v@.map_values(|m: Vec<Row>| row_maps(m@)) =~= seq![maps]);
            }
            v
        },
    };
    let ghost group_maps = groups@.map_values(|m: Vec<Row>| row_maps(m@));
    assert(query_groups(maps, *group_by) == Ok::<Seq<Seq<RowMap>>, EngineError>(group_maps));
    assert(forall|j: int| 0 <= j < groups@.len() ==> #[trigger] groups@[j]@.len() > 0 || !reads_first_row(select_list@));
    let mut out: Vec<StringMap<AggregateValue>> = Vec::new();
    let mut i: usize = 0;
    proof {
        assert(aggregate_row_views(out@) =~= Seq::<Map<Seq<char>, AggregateSpec>>::empty());
    }
    while i < groups.len()
        invariant
            i <= groups@.len(),
            group_maps == groups@.map_values(|m: Vec<Row>| row_maps(m@)),
            query_groups(maps, *group_by) == Ok::<Seq<Seq<RowMap>>, EngineError>(group_maps),
            maps == row_maps(rows@),
            forall|j: int| 0 <= j < groups@.len() ==> #[trigger] groups@[j]@.len() > 0 || !reads_first_row(select_list@),
            aggregate_rows(select_list@, group_maps.take(i as int)) == Ok::<
                Seq<Map<Seq<char>, AggregateSpec>>,
                EngineError,
            >(aggregate_row_views(out@)),
        decreases groups.len() - i,
    {
        assert(group_maps.take(i as int + 1).drop_last() =~= group_maps.take(i as int));
        assert(group_maps.take(i as int + 1).last() == row_maps(groups@[i as int]@));
        match aggregate_group(select_list, &groups[i]) {
            Ok(row) => {
                let ghost before = aggregate_row_views(out@);
                out.push(row);
                proof {
                    assert(aggregate_row_views(out@) =~= before.push(aggregate_row_view(row@)));
                }
            },
            Err(e) => {
                proof {
                    lemma_aggregate_rows_error(select_list@, group_maps, i as int + 1, e);
                }
                return Err(e);
            },
        }
        i = i + 1;
    }
    assert(group_maps.take(i as int) =~= group_maps);
    Ok(out)
}

/// Whether `a > b` for two numbers of one kind (false for any other pair).
pub open spec fn greater_than(a: DataValue, b: DataValue) -> bool {
    match (a, b) {
        (DataValue::Integer(x), DataValue::Integer(y)) => x > y,
        (DataValue::Real(x), DataValue::Real(y)) => real_less(y.bits, x.bits),
        _ => false,
    }
}

fn is_greater(a: &DataValue, b: &DataValue) -> (r: bool)
    ensures
        r == greater_than(*a, *b),
{
    match (a, b) {
        (DataValue::Integer(x), DataValue::Integer(y)) => *x > *y,
        (DataValue::Real(_), DataValue::Real(_)) => crate::engine::values::compare_values(b, a)
            == crate::engine::values::ValueOrder::Less,
        _ => false,
    }
}

/// The value of a HAVING expression on a result row: `=` gives whether the
/// two sides are equal, `>` and `<` compare numbers of one kind, any other
/// operator gives false; a column gives its value (null when missing), a
/// literal its value, any other expression false.
pub open spec fn having_value(expr: Expression, row: RowMap) -> DataValue
    decreases expr,
{
    match expr {
        Expression::BinaryOp { left, op, right } => {
            let a = having_value(*left, row);
            let b = having_value(*right, row);
            if op == BinaryOperator::Equal {
                DataValue::Boolean(value_eq(a, b))
            } else if op == BinaryOperator::GreaterThan {
                DataValue::Boolean(greater_than(a, b))
            } else if op == BinaryOperator::LessThan {
                DataValue::Boolean(greater_than(b, a))
            } else {
                DataValue::Boolean(false)
            }
        },
        Expression::Identifier(c) => if row.contains_key(c@) {
            row[c@]
        } else {
            DataValue::Null
        },
        Expression::Literal(lit) => literal_value(lit),
        _ => DataValue::Boolean(false),
    }
}

/// Evaluates a HAVING expression on a result row (see `having_value`).
pub fn evaluate_having_expression(expr: &Expression, row: &Row) -> (r: DataValue)
    ensures
        r == having_value(*expr, row@),
    decreases expr,
{
    match expr {
        Expression::BinaryOp { left, op, right } => {
            let a = evaluate_having_expression(&**left, row);
            let b = evaluate_having_expression(&**right, row);
            if *op == BinaryOperator::Equal {
                DataValue::Boolean(values_equal(&a, &b))
            } else if *op == BinaryOperator::GreaterThan {
                DataValue::Boolean(is_greater(&a, &b))
            } else if *op == BinaryOperator::LessThan {
                DataValue::Boolean(is_greater(&b, &a))
            } else {
                DataValue::Boolean(false)
            }
        },
        Expression::Identifier(c) => match row.get(c.as_str()) {
            Some(v) => v.duplicate(),
            None => DataValue::Null,
        },
        Expression::Literal(lit) => literal_to_datavalue(lit),
        _ => DataValue::Boolean(false),
    }
}

/// The result rows that a HAVING expression holds for (its value is `true`),
/// in their order.
pub open spec fn rows_having(rows: Seq<RowMap>, having: Expression) -> Seq<RowMap>
    decreases rows.len(),
{
    if rows.len() == 0 {
        Seq::empty()
    } else if having_value(having, rows.last()) == DataValue::Boolean(true) {
        rows_having(rows.drop_last(), having).push(rows.last())
    } else {
        rows_having(rows.drop_last(), having)
    }
}

/// Keeps the result rows a HAVING expression holds for (see `rows_having`).
pub fn apply_having(rows: Vec<Row>, having: &Expression) -> (r: Vec<Row>)
    ensures
        row_maps(r@) == rows_having(row_maps(rows@), *having),
{
    let ghost maps = row_maps(rows@);
    let mut out: Vec<Row> = Vec::new();
    let mut i: usize = 0;
    while i < rows.len()
        invariant
            i <= rows@.len(),
            maps == row_maps(rows@),
            row_maps(out@) == rows_having(maps.take(i as int), *having),
        decreases rows.len() - i,
    {
        assert(maps.take(i as int + 1).drop_last() =~= maps.take(i as int));
        assert(maps.take(i as int + 1).last() == rows@[i as int]@);
        let v = evaluate_having_expression(having, &rows[i]);
        if let DataValue::Boolean(true) = v {
            let c = copy_row(&rows[i]);
            let ghost before = row_maps(out@);
            out.push(c);
            assert(row_maps(out@) =~= before.push(rows@[i as int]@));
        }
        i = i + 1;
    }
    assert(maps.take(i as int) =~= maps);
    out
}


/// Whether an ASCII name, with its letters in upper case, reads `upper`.
pub open spec fn spelled(name: Seq<char>, upper: Seq<char>) -> bool {
    all_ascii(name) && name.map_values(|c: char| ascii_upper(c)) == upper
}

/// Every value is an integer or null.
pub open spec fn integers_or_nulls(vs: Seq<DataValue>) -> bool {
    forall|i: int| 0 <= i < vs.len() ==> (#[trigger] vs[i] is Integer || vs[i] is Null)
}

/// COUNT named in any letter case counts the rows when it has no argument
/// or `*`, and otherwise the rows where its argument is not null.
pub proof fn law_count_in_any_case(call: FunctionCall, rows: Seq<RowMap>)
    requires
        spelled(call.name@, "COUNT"@),
    ensures
        (call.arguments@.len() == 0 || call.arguments@[0] is Asterisk) ==> aggregate_outcome(
            Expression::Function(call),
            rows,
        ) == Ok::<AggregateSpec, EngineError>(AggregateSpec::Value(DataValue::Integer(rows.len() as i64))),
        !(call.arguments@.len() == 0 || call.arguments@[0] is Asterisk) ==> aggregate_outcome(
            Expression::Function(call),
            rows,
        ) == match arg_values(call.arguments@[0], rows) {
            Err(e) => Err(e),
            Ok(vs) => Ok::<AggregateSpec, EngineError>(AggregateSpec::Value(DataValue::Integer(non_null_count(vs) as i64))),
        },
{
}

/// SUM, AVG, MIN and MAX named in any letter case fail without an
/// argument; an ASCII name that is none of COUNT, SUM, AVG, MIN and MAX in
/// any letter case is an unknown aggregate.
pub proof fn law_aggregate_name_errors(call: FunctionCall, rows: Seq<RowMap>)
    requires
        all_ascii(call.name@),
    ensures
        (spelled(call.name@, "SUM"@) || spelled(call.name@, "AVG"@) || spelled(call.name@, "MIN"@) || spelled(
            call.name@,
            "MAX"@,
        )) && call.arguments@.len() == 0 ==> aggregate_outcome(Expression::Function(call), rows) matches Err(
            EngineError::MissingArgument(_),
        ),
        !(spelled(call.name@, "COUNT"@) || spelled(call.name@, "SUM"@) || spelled(call.name@, "AVG"@) || spelled(
            call.name@,
            "MIN"@,
        ) || spelled(call.name@, "MAX"@)) ==> aggregate_outcome(Expression::Function(call), rows) == Err::<
            AggregateSpec,
            EngineError,
        >(EngineError::UnknownAggregate(call.name)),
{
    reveal_strlit("COUNT");
    reveal_strlit("SUM");
    reveal_strlit("AVG");
    reveal_strlit("MIN");
    reveal_strlit("MAX");
    let u = upper_of(call.name@);
    assert(u == call.name@.map_values(|c: char| ascii_upper(c)));
    if call.arguments@.len() == 0 && (u == "SUM"@ || u == "AVG"@ || u == "MIN"@ || u == "MAX"@) {
        assert(u.len() == 3);
        assert(u != "COUNT"@);
    }
}

/// Over integers and nulls, MIN gives null when there is no integer, and
/// else one of the integers, no larger than any other.
pub proof fn law_min_of_integers(vs: Seq<DataValue>)
    requires
        integers_or_nulls(vs),
    ensures
        (forall|i: int| 0 <= i < vs.len() ==> #[trigger] vs[i] is Null) ==> min_fold(vs) is None,
        min_fold(vs) matches Some(m) ==> {
            &&& m is Integer
            &&& vs.contains(m)
            &&& forall|i: int| 0 <= i < vs.len() && #[trigger] vs[i] is Integer ==> m->Integer_0 <= vs[i]->Integer_0
        },
        (exists|i: int| 0 <= i < vs.len() && #[trigger] vs[i] is Integer) ==> min_fold(vs) is Some,
    decreases vs.len(),
{
    if vs.len() > 0 {
        let d = vs.drop_last();
        let x = vs.last();
        assert(vs[vs.len() - 1] == x);
        assert forall|i: int| 0 <= i < d.len() implies (#[trigger] d[i] is Integer || d[i] is Null) by {
            assert(d[i] == vs[i]);
        }
        law_min_of_integers(d);
        assert forall|i: int| 0 <= i < d.len() implies #[trigger] vs[i] == d[i] by {}
        if exists|i: int| 0 <= i < vs.len() && #[trigger] vs[i] is Integer {
            let i = choose|i: int| 0 <= i < vs.len() && #[trigger] vs[i] is Integer;
            if i < vs.len() - 1 {
                assert(d[i] is Integer);
            }
        }
        if forall|i: int| 0 <= i < vs.len() ==> #[trigger] vs[i] is Null {
            assert(vs[vs.len() - 1] is Null);
            assert forall|i: int| 0 <= i < d.len() implies #[trigger] d[i] is Null by {
                assert(vs[i] is Null);
            }
        }
        if let Some(m) = min_fold(vs) {
            if x is Null {
                let p = min_fold(d)->Some_0;
                assert(m == p);
                let j = choose|j: int| 0 <= j < d.len() && d[j] == p;
                assert(vs[j] == p);
                assert forall|i: int| 0 <= i < vs.len() && #[trigger] vs[i] is Integer implies m->Integer_0 <= vs[i]->Integer_0 by {
                    if i < vs.len() - 1 {
                        assert(d[i] is Integer);
                    }
                }
            } else {
                match min_fold(d) {
                    None => {
                        assert(m == x);
                        assert forall|i: int| 0 <= i < vs.len() && #[trigger] vs[i] is Integer implies m->Integer_0 <= vs[i]->Integer_0 by {
                            if i < vs.len() - 1 {
                                assert(d[i] is Integer);
                            }
                        }
                    },
                    Some(p) => {
                        let j = choose|j: int| 0 <= j < d.len() && d[j] == p;
                        assert(vs[j] == p);
                        assert(m is Integer);
                        assert(m == p || m == x);
                        assert forall|i: int| 0 <= i < vs.len() && #[trigger] vs[i] is Integer implies m->Integer_0 <= vs[i]->Integer_0 by {
                            if i < vs.len() - 1 {
                                assert(d[i] is Integer);
                            }
                        }
                    },
                }
            }
        }
    }
}

/// Over integers and nulls, MAX gives null when there is no integer, and
/// else one of the integers, no smaller than any other.
pub proof fn law_max_of_integers(vs: Seq<DataValue>)
    requires
        integers_or_nulls(vs),
    ensures
        (forall|i: int| 0 <= i < vs.len() ==> #[trigger] vs[i] is Null) ==> max_fold(vs) is None,
        max_fold(vs) matches Some(m) ==> {
            &&& m is Integer
            &&& vs.contains(m)
            &&& forall|i: int| 0 <= i < vs.len() && #[trigger] vs[i] is Integer ==> m->Integer_0 >= vs[i]->Integer_0
        },
        (exists|i: int| 0 <= i < vs.len() && #[trigger] vs[i] is Integer) ==> max_fold(vs) is Some,
    decreases vs.len(),
{
    if vs.len() > 0 {
        let d = vs.drop_last();
        let x = vs.last();
        assert(vs[vs.len() - 1] == x);
        assert forall|i: int| 0 <= i < d.len() implies (#[trigger] d[i] is Integer || d[i] is Null) by {
            assert(d[i] == vs[i]);
        }
        law_max_of_integers(d);
        assert forall|i: int| 0 <= i < d.len() implies #[trigger] vs[i] == d[i] by {}
        if exists|i: int| 0 <= i < vs.len() && #[trigger] vs[i] is Integer {
            let i = choose|i: int| 0 <= i < vs.len() && #[trigger] vs[i] is Integer;
            if i < vs.len() - 1 {
                assert(d[i] is Integer);
            }
        }
        if forall|i: int| 0 <= i < vs.len() ==> #[trigger] vs[i] is Null {
            assert(vs[vs.len() - 1] is Null);
            assert forall|i: int| 0 <= i < d.len() implies #[trigger] d[i] is Null by {
                assert(vs[i] is Null);
            }
        }
        if let Some(m) = max_fold(vs) {
            if x is Null {
                let p = max_fold(d)->Some_0;
                assert(m == p);
                let j = choose|j: int| 0 <= j < d.len() && d[j] == p;
                assert(vs[j] == p);
                assert forall|i: int| 0 <= i < vs.len() && #[trigger] vs[i] is Integer implies m->Integer_0 >= vs[i]->Integer_0 by {
                    if i < vs.len() - 1 {
                        assert(d[i] is Integer);
                    }
                }
            } else {
                match max_fold(d) {
                    None => {
                        assert(m == x);
                        assert forall|i: int| 0 <= i < vs.len() && #[trigger] vs[i] is Integer implies m->Integer_0 >= vs[i]->Integer_0 by {
                            if i < vs.len() - 1 {
                                assert(d[i] is Integer);
                            }
                        }
                    },
                    Some(p) => {
                        let j = choose|j: int| 0 <= j < d.len() && d[j] == p;
                        assert(vs[j] == p);
                        assert(m is Integer);
                        assert(m == p || m == x);
                        assert forall|i: int| 0 <= i < vs.len() && #[trigger] vs[i] is Integer implies m->Integer_0 >= vs[i]->Integer_0 by {
                            if i < vs.len() - 1 {
                                assert(d[i] is Integer);
                            }
                        }
                    },
                }
            }
        }
    }
}


/// HAVING compares integers as integers: with both sides integers, `l < r`
/// is true exactly when the left one is smaller, `l > r` exactly when it is
/// larger, and never both; `l < r` is `r > l`.
pub proof fn law_having_compares_integers(l: Expression, r: Expression, row: RowMap, x: i64, y: i64)
    requires
        having_value(l, row) == DataValue::Integer(x),
        having_value(r, row) == DataValue::Integer(y),
    ensures
        having_value(
            Expression::BinaryOp { left: Box::new(l), op: BinaryOperator::LessThan, right: Box::new(r) },
            row,
        ) == DataValue::Boolean(x < y),
        having_value(
            Expression::BinaryOp { left: Box::new(l), op: BinaryOperator::GreaterThan, right: Box::new(r) },
            row,
        ) == DataValue::Boolean(x > y),
        having_value(
            Expression::BinaryOp { left: Box::new(l), op: BinaryOperator::LessThan, right: Box::new(r) },
            row,
        ) == having_value(
            Expression::BinaryOp { left: Box::new(r), op: BinaryOperator::GreaterThan, right: Box::new(l) },
            row,
        ),
        !(x < y && x > y),
{
}

} // verus!
