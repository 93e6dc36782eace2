//! What the queries of this library mean.
//!
//! A `SELECT` statement is read as what it picks, from which table, under which
//! conditions, in which order and up to which number of rows. Its text is given
//! by its parts, and its answer by the rows of the table. Numbers are compared by
//! their values; of texts and blobs it is only said whether they are equal.

use vstd::prelude::*;

use crate::sql::SqlValueView;
use crate::text::decimal;

verus! {

/// A value in a table.
pub enum Datum {
    Null,
    Integer(int),
    Text(Seq<char>),
    Blob(Seq<u8>),
}

/// A row, by the names of its columns. The number of a row is its `rowid`.
pub type TableRow = Map<Seq<char>, Datum>;

/// What a row holds in a column.
pub open spec fn in_column(row: TableRow, column: Seq<char>) -> Datum {
    if row.contains_key(column) {
        row[column]
    } else {
        Datum::Null
    }
}

/// A side of a comparison.
pub enum Term {
    Column(Seq<char>),
    /// What is left of a column's number when it is divided.
    Remainder { column: Seq<char>, by: nat },
    /// A numbered parameter.
    Param(nat),
    Quoted(Seq<char>),
}

/// The text of a side of a comparison.
pub open spec fn term_text(term: Term) -> Seq<char> {
    match term {
        Term::Column(name) => name,
        Term::Remainder { column, by } => column + " % "@ + decimal(by),
        Term::Param(n) => "?"@ + decimal(n),
        Term::Quoted(text) => "'"@ + text + "'"@,
    }
}

/// What is left of a number when it is divided, with the sign of the number.
pub open spec fn remainder(n: int, by: int) -> int {
    if n >= 0 {
        n % by
    } else {
        -((-n) % by)
    }
}

/// The value of a side of a comparison.
pub open spec fn term_value(term: Term, row: TableRow, params: Seq<SqlValueView>) -> Datum {
    match term {
        Term::Column(name) => in_column(row, name),
        Term::Remainder { column, by } => match in_column(row, column) {
            Datum::Integer(n) => Datum::Integer(remainder(n, by as int)),
            _ => Datum::Null,
        },
        Term::Param(n) => match params[n - 1] {
            SqlValueView::Integer(n) => Datum::Integer(n),
            SqlValueView::Text(text) => Datum::Text(text),
        },
        Term::Quoted(text) => Datum::Text(text),
    }
}

/// A comparison of two values. What stands between them is the sign, with the
/// same gap before and behind it.
pub struct Comparison {
    pub left: Term,
    pub gap: Seq<char>,
    pub sign: Seq<char>,
    pub right: Term,
}

/// The text of a comparison.
pub open spec fn comparison_text(c: Comparison) -> Seq<char> {
    term_text(c.left) + c.gap + c.sign + c.gap + term_text(c.right)
}

/// How values of different kinds are ordered.
pub open spec fn rank(value: Datum) -> int {
    match value {
        Datum::Null => 0,
        Datum::Integer(_) => 1,
        Datum::Text(_) => 2,
        Datum::Blob(_) => 3,
    }
}

/// A value comes before another one.
pub open spec fn less(a: Datum, b: Datum) -> bool {
    match (a, b) {
        (Datum::Integer(x), Datum::Integer(y)) => x < y,
        _ => rank(a) < rank(b),
    }
}

/// A sign holds between two values where one of its marks does.
pub open spec fn sign_holds(sign: Seq<char>, a: Datum, b: Datum) -> bool {
    ||| sign.contains('=') && a == b
    ||| sign.contains('<') && less(a, b)
    ||| sign.contains('>') && less(b, a)
}

/// The sign `=` stands for equality, and for nothing more.
pub proof fn law_equals_sign(a: Datum, b: Datum)
    ensures
        sign_holds("="@, a, b) <==> a == b,
{
    reveal_strlit("=");
    assert("="@[0] == '=');
}

/// A comparison holds in a row. With `NULL` none does.
pub open spec fn holds(c: Comparison, row: TableRow, params: Seq<SqlValueView>) -> bool {
    let a = term_value(c.left, row, params);
    let b = term_value(c.right, row, params);
    !(a is Null) && !(b is Null) && sign_holds(c.sign, a, b)
}

/// Texts, one behind the other, with a text between them.
pub open spec fn joined_by(parts: Seq<Seq<char>>, between: Seq<char>) -> Seq<char>
    decreases parts.len(),
{
    if parts.len() == 0 {
        Seq::empty()
    } else if parts.len() == 1 {
        parts[0]
    } else {
        joined_by(parts.drop_last(), between) + between + parts.last()
    }
}

/// The text of comparisons of which one must hold.
pub open spec fn any_text(any: Seq<Comparison>) -> Seq<char> {
    if any.len() == 1 {
        comparison_text(any[0])
    } else {
        "("@ + joined_by(any.map_values(|c: Comparison| comparison_text(c)), " OR "@) + ")"@
    }
}

/// What is picked from a row.
pub enum Picked {
    Column(Seq<char>),
    Number(nat),
    Null,
    /// A column as a whole number; a missing one counts as this number.
    WholeNumber { column: Seq<char>, missing: nat },
}

/// The text of what is picked.
pub open spec fn picked_text(picked: Picked) -> Seq<char> {
    match picked {
        Picked::Column(name) => name,
        Picked::Number(n) => decimal(n),
        Picked::Null => "NULL"@,
        Picked::WholeNumber { column, missing } => {
            "CAST(COALESCE("@ + column + ", '"@ + decimal(missing) + "') AS INTEGER)"@
        },
    }
}

/// What is picked from a row. A text or a blob is not read as a number here.
pub open spec fn picked_value(picked: Picked, row: TableRow) -> Datum {
    match picked {
        Picked::Column(name) => in_column(row, name),
        Picked::Number(n) => Datum::Integer(n as int),
        Picked::Null => Datum::Null,
        Picked::WholeNumber { column, missing } => match in_column(row, column) {
            Datum::Null => Datum::Integer(missing as int),
            value => value,
        },
    }
}

/// What is picked, and its name in the answer, if it has another.
pub struct Pick {
    pub picked: Picked,
    pub name: Option<Seq<char>>,
}

pub open spec fn pick_text(pick: Pick) -> Seq<char> {
    match pick.name {
        Some(name) => picked_text(pick.picked) + " AS "@ + name,
        None => picked_text(pick.picked),
    }
}

/// What the rows are ordered by.
pub struct OrderKey {
    pub name: Seq<char>,
    pub descending: bool,
}

pub open spec fn order_text(key: OrderKey) -> Seq<char> {
    if key.descending {
        key.name + " DESC"@
    } else {
        key.name
    }
}

/// A statement. Of each of its conditions, one comparison must hold.
pub struct Select {
    pub picks: Seq<Pick>,
    pub table: Seq<char>,
    pub conditions: Seq<Seq<Comparison>>,
    pub order: Seq<OrderKey>,
    pub limit: Option<nat>,
}

/// The text of a statement.
pub open spec fn select_text(s: Select) -> Seq<char> {
    "SELECT "@ + joined_by(s.picks.map_values(|p: Pick| pick_text(p)), ", "@) + " FROM "@ + s.table
        + " WHERE "@ + joined_by(
        s.conditions.map_values(|any: Seq<Comparison>| any_text(any)),
        " AND "@,
    ) + (if s.order.len() > 0 {
        " ORDER BY "@ + joined_by(s.order.map_values(|k: OrderKey| order_text(k)), ", "@)
    } else {
        Seq::empty()
    }) + (match s.limit {
        Some(n) => " LIMIT "@ + decimal(n),
        None => Seq::empty(),
    })
}

/// One of the comparisons holds in a row.
pub open spec fn one_holds(any: Seq<Comparison>, row: TableRow, params: Seq<SqlValueView>) -> bool {
    exists|i: int| 0 <= i < any.len() && holds(#[trigger] any[i], row, params)
}

/// A row meets all conditions of a statement.
pub open spec fn meets(s: Select, row: TableRow, params: Seq<SqlValueView>) -> bool {
    forall|i: int| 0 <= i < s.conditions.len() ==> one_holds(#[trigger] s.conditions[i], row, params)
}

/// What a statement has under a name: what it picks under that name, and else what
/// the row holds in that column.
pub open spec fn under_name(picks: Seq<Pick>, row: TableRow, name: Seq<char>) -> Datum
    decreases picks.len(),
{
    if picks.len() == 0 {
        in_column(row, name)
    } else if picks.last().name == Some(name) {
        picked_value(picks.last().picked, row)
    } else {
        under_name(picks.drop_last(), row, name)
    }
}

/// A row comes before another one in an order, from the key `from` on.
pub open spec fn comes_before(s: Select, a: TableRow, b: TableRow, from: int) -> bool
    decreases s.order.len() - from,
{
    if from < 0 || from >= s.order.len() {
        false
    } else {
        let key = s.order[from];
        let x = under_name(s.picks, a, key.name);
        let y = under_name(s.picks, b, key.name);
        if key.descending {
            less(y, x) || !less(x, y) && comes_before(s, a, b, from + 1)
        } else {
            less(x, y) || !less(y, x) && comes_before(s, a, b, from + 1)
        }
    }
}

/// The rows of a table at these places answer a statement: they meet its
/// conditions, each is there once, none stands before one that comes before it,
/// and no row is left out but behind as many as are wanted.
pub open spec fn is_answer(
    s: Select,
    params: Seq<SqlValueView>,
    table: Seq<TableRow>,
    places: Seq<int>,
) -> bool {
    &&& forall|i: int|
        0 <= i < places.len() ==> 0 <= #[trigger] places[i] < table.len() && meets(
            s,
            table[places[i]],
            params,
        )
    &&& places.no_duplicates()
    &&& forall|i: int, j: int|
        0 <= i < j < places.len() ==> !comes_before(
            s,
            table[#[trigger] places[j]],
            table[#[trigger] places[i]],
            0,
        )
    &&& s.limit matches Some(n) ==> places.len() <= n
    &&& forall|k: int|
        #![trigger table[k]]
        0 <= k < table.len() && meets(s, table[k], params) && !places.contains(k) ==> {
            &&& s.limit == Some(places.len())
            &&& forall|i: int|
                0 <= i < places.len() ==> !comes_before(
                    s,
                    table[k],
                    table[#[trigger] places[i]],
                    0,
                )
        }
}

/// A comparison of a column with a numbered parameter.
pub open spec fn column_is(column: Seq<char>, n: nat) -> Seq<Comparison> {
    seq![
        Comparison { left: Term::Column(column), gap: " "@, sign: "="@, right: Term::Param(n) },
    ]
}

/// A column that is compared with a parameter by `=` holds the parameter.
pub proof fn lemma_column_is(
    column: Seq<char>,
    n: nat,
    row: TableRow,
    params: Seq<SqlValueView>,
)
    ensures
        one_holds(column_is(column, n), row, params) <==> match params[n - 1] {
            SqlValueView::Integer(v) => in_column(row, column) == Datum::Integer(v),
            SqlValueView::Text(v) => in_column(row, column) == Datum::Text(v),
        },
{
    let c = column_is(column, n)[0];
    law_equals_sign(
        term_value(Term::Column(column), row, params),
        term_value(Term::Param(n), row, params),
    );
    assert(holds(c, row, params) ==> one_holds(column_is(column, n), row, params));
}

/// Up to four texts, one behind the other.
pub proof fn lemma_joined_by(parts: Seq<Seq<char>>, between: Seq<char>)
    ensures
        parts.len() == 1 ==> joined_by(parts, between) == parts[0],
        parts.len() == 2 ==> joined_by(parts, between) == parts[0] + between + parts[1],
        parts.len() == 3 ==> joined_by(parts, between) == parts[0] + between + parts[1] + between
            + parts[2],
        parts.len() == 4 ==> joined_by(parts, between) == parts[0] + between + parts[1] + between
            + parts[2] + between + parts[3],
{
    reveal_with_fuel(joined_by, 5);
}

/// The text of a statement whose parts are up to four each.
pub proof fn lemma_select_text(s: Select)
    ensures
        ({
            let picks = s.picks.map_values(|p: Pick| pick_text(p));
            let conditions = s.conditions.map_values(|any: Seq<Comparison>| any_text(any));
            let order = s.order.map_values(|k: OrderKey| order_text(k));
            &&& s.picks.len() == 1 ==> joined_by(picks, ", "@) == pick_text(s.picks[0])
            &&& s.picks.len() == 3 ==> joined_by(picks, ", "@) == pick_text(s.picks[0]) + ", "@
                + pick_text(s.picks[1]) + ", "@ + pick_text(s.picks[2])
            &&& s.conditions.len() == 1 ==> joined_by(conditions, " AND "@) == any_text(
                s.conditions[0],
            )
            &&& s.conditions.len() == 2 ==> joined_by(conditions, " AND "@) == any_text(
                s.conditions[0],
            ) + " AND "@ + any_text(s.conditions[1])
            &&& s.conditions.len() == 3 ==> joined_by(conditions, " AND "@) == any_text(
                s.conditions[0],
            ) + " AND "@ + any_text(s.conditions[1]) + " AND "@ + any_text(s.conditions[2])
            &&& s.conditions.len() == 4 ==> joined_by(conditions, " AND "@) == any_text(
                s.conditions[0],
            ) + " AND "@ + any_text(s.conditions[1]) + " AND "@ + any_text(s.conditions[2])
                + " AND "@ + any_text(s.conditions[3])
            &&& s.order.len() == 1 ==> joined_by(order, ", "@) == order_text(s.order[0])
            &&& s.order.len() == 2 ==> joined_by(order, ", "@) == order_text(s.order[0]) + ", "@
                + order_text(s.order[1])
        }),
{
    lemma_joined_by(s.picks.map_values(|p: Pick| pick_text(p)), ", "@);
    lemma_joined_by(s.conditions.map_values(|any: Seq<Comparison>| any_text(any)), " AND "@);
    lemma_joined_by(s.order.map_values(|k: OrderKey| order_text(k)), ", "@);
}

/// The text of two comparisons of which one must hold.
pub proof fn lemma_any_text(any: Seq<Comparison>)
    ensures
        any.len() == 2 ==> any_text(any) == "("@ + (comparison_text(any[0]) + " OR "@
            + comparison_text(any[1])) + ")"@,
{
    lemma_joined_by(any.map_values(|c: Comparison| comparison_text(c)), " OR "@);
}

/// What is left of a number has its sign and is smaller than the divisor, and the
/// rest is divided without remainder.
pub proof fn law_remainder(n: int, by: int)
    requires
        by > 0,
    ensures
        (n - remainder(n, by)) % by == 0,
        n >= 0 ==> 0 <= remainder(n, by) < by,
        n < 0 ==> -by < remainder(n, by) <= 0,
{
    if n >= 0 {
        assert((n - n % by) % by == 0) by {
            vstd::arithmetic::div_mod::lemma_fundamental_div_mod(n, by);
            vstd::arithmetic::div_mod::lemma_mod_multiples_basic(n / by, by);
            assert(n - n % by == by * (n / by));
            assert(by * (n / by) == (n / by) * by) by (nonlinear_arith);
        }
        vstd::arithmetic::div_mod::lemma_mod_bound(n, by);
    } else {
        let m = -n;
        let q = m / by;
        vstd::arithmetic::div_mod::lemma_fundamental_div_mod(m, by);
        vstd::arithmetic::div_mod::lemma_mod_bound(m, by);
        assert(n - remainder(n, by) == -(by * q));
        assert(-(by * q) == (-q) * by) by (nonlinear_arith);
        vstd::arithmetic::div_mod::lemma_mod_multiples_basic(-q, by);
    }
}

/// The marks of a sign add up: `>=` holds where `>` or `=` does, and so on.
pub proof fn law_signs(x: int, y: int)
    ensures
        ({
            let a = Datum::Integer(x);
            let b = Datum::Integer(y);
            &&& sign_holds("="@, a, b) <==> x == y
            &&& sign_holds("<"@, a, b) <==> x < y
            &&& sign_holds(">"@, a, b) <==> x > y
            &&& sign_holds("<="@, a, b) <==> x <= y
            &&& sign_holds(">="@, a, b) <==> x >= y
            &&& sign_holds("<>"@, a, b) <==> x != y
        }),
{
    reveal_strlit("=");
    reveal_strlit("<");
    reveal_strlit(">");
    reveal_strlit("<=");
    reveal_strlit(">=");
    reveal_strlit("<>");
    assert("="@[0] == '=');
    assert("<"@[0] == '<');
    assert(">"@[0] == '>');
    assert("<="@[0] == '<' && "<="@[1] == '=');
    assert(">="@[0] == '>' && ">="@[1] == '=');
    assert("<>"@[0] == '<' && "<>"@[1] == '>');
}

/// The row, among the first `n`, that a statement for one row gives.
proof fn lemma_one_row(
    s: Select,
    params: Seq<SqlValueView>,
    table: Seq<TableRow>,
    n: int,
) -> (best: Option<int>)
    requires
        0 <= n <= table.len(),
        s.picks.len() == 1,
        s.picks[0].name is None,
        s.order.len() == 1,
        s.order[0].descending,
    ensures
        match best {
            None => forall|k: int| 0 <= k < n ==> !meets(s, #[trigger] table[k], params),
            Some(i) => {
                &&& 0 <= i < n
                &&& meets(s, table[i], params)
                &&& forall|k: int|
                    0 <= k < n && meets(s, #[trigger] table[k], params) ==> !comes_before(
                        s,
                        table[k],
                        table[i],
                        0,
                    )
            },
        },
    decreases n,
{
    reveal_with_fuel(comes_before, 2);
    reveal_with_fuel(under_name, 2);
    if n == 0 {
        None
    } else {
        let before = lemma_one_row(s, params, table, n - 1);
        let last = n - 1;
        if !meets(s, table[last], params) {
            before
        } else {
            match before {
                None => Some(last),
                Some(i) => if comes_before(s, table[last], table[i], 0) {
                    Some(last)
                } else {
                    Some(i)
                },
            }
        }
    }
}

/// Every table has an answer to a statement for one row with one falling key.
pub proof fn law_one_row_is_answered(
    s: Select,
    params: Seq<SqlValueView>,
    table: Seq<TableRow>,
)
    requires
        s.picks.len() == 1,
        s.picks[0].name is None,
        s.order.len() == 1,
        s.order[0].descending,
        s.limit == Some(1nat),
    ensures
        exists|places: Seq<int>| is_answer(s, params, table, places),
{
    match lemma_one_row(s, params, table, table.len() as int) {
        None => {
            let none = Seq::<int>::empty();
            assert(is_answer(s, params, table, none));
        },
        Some(i) => {
            let one = seq![i];
            assert forall|k: int|
                #![trigger table[k]]
                0 <= k < table.len() && meets(s, table[k], params) && !one.contains(k) implies {
                &&& s.limit == Some(one.len())
                &&& forall|j: int|
                    0 <= j < one.len() ==> !comes_before(s, table[k], table[#[trigger] one[j]], 0)
            } by {}
            assert(is_answer(s, params, table, one));
        },
    }
}

} // verus!
