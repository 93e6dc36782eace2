//! Queries for a database that the caller holds.

use vstd::prelude::*;

verus! {

/// A value for a numbered parameter.
#[derive(Debug)]
pub enum SqlValue {
    Integer(i64),
    Text(String),
}

/// What a parameter says.
pub enum SqlValueView {
    Integer(int),
    Text(Seq<char>),
}

impl View for SqlValue {
    type V = SqlValueView;

    open spec fn view(&self) -> SqlValueView {
        match self {
            SqlValue::Integer(n) => SqlValueView::Integer(*n as int),
            SqlValue::Text(text) => SqlValueView::Text(text@),
        }
    }
}

/// A query and the values of its parameters `?1`, `?2` and so on.
#[derive(Debug)]
pub struct SqlQuery {
    pub text: String,
    pub params: Vec<SqlValue>,
}

/// What a query says.
pub struct SqlQueryView {
    pub text: Seq<char>,
    pub params: Seq<SqlValueView>,
}

impl View for SqlQuery {
    type V = SqlQueryView;

    open spec fn view(&self) -> SqlQueryView {
        SqlQueryView { text: self.text@, params: self.params@.map_values(|p: SqlValue| p@) }
    }
}

/// A query says its text and its parameters, in their order.
pub proof fn law_query_view(query: SqlQuery, i: int)
    requires
        0 <= i < query.params@.len(),
    ensures
        query@.text == query.text@,
        query@.params.len() == query.params@.len(),
        query.params@[i] matches SqlValue::Integer(n) ==> query@.params[i]
            == SqlValueView::Integer(n as int),
        query.params@[i] matches SqlValue::Text(text) ==> query@.params[i] == SqlValueView::Text(
            text@,
        ),
{
}

} // verus!
