//! Statements written out as text.
//!
//! Every statement can be written in one plain way: one blank between
//! words, a comma and a blank between items, no blank inside parentheses.
//! For a well-formed statement this text parses back to the statement.

use crate::ast::{ConditionView, SelectItemView, SelectQueryView, TableView, ValueView};
use crate::number::decimal;
use vstd::prelude::*;

verus! {

/// `n` in decimal digits, after a `-` if it is negative.
pub open spec fn signed_decimal(n: int) -> Seq<char> {
    if n < 0 {
        seq!['-'] + decimal((-n) as nat)
    } else {
        decimal(n as nat)
    }
}

/// A literal as text: a number in decimal, a string between single quotes,
/// a boolean as `true` or `false`.
pub open spec fn render_value(value: ValueView) -> Seq<char> {
    match value {
        ValueView::Number(n) => signed_decimal(n as int),
        ValueView::String(text) => seq!['\''] + text + seq!['\''],
        ValueView::Boolean(b) => if b {
            "true"@
        } else {
            "false"@
        },
    }
}

/// A comparison as text: operand, operator and value with a blank between.
pub open spec fn render_condition(condition: ConditionView) -> Seq<char> {
    condition.left + seq![' '] + condition.operator + seq![' '] + render_value(condition.right)
}

/// An item as text: a column by its name, a call by its name and its
/// arguments in parentheses.
pub open spec fn render_item(item: SelectItemView) -> Seq<char>
    decreases item,
{
    match item {
        SelectItemView::Column(name) => name,
        SelectItemView::Function { name, arguments } => name + seq!['('] + render_items(arguments)
            + seq![')'],
    }
}

/// Items as text, with a comma and a blank between one and the next.
pub open spec fn render_items(items: Seq<SelectItemView>) -> Seq<char>
    decreases items,
{
    if items.len() == 0 {
        Seq::empty()
    } else {
        render_item(items.first()) + render_more_items(items.drop_first())
    }
}

/// Items as text, each after a comma and a blank.
pub open spec fn render_more_items(items: Seq<SelectItemView>) -> Seq<char>
    decreases items,
{
    if items.len() == 0 {
        Seq::empty()
    } else {
        seq![',', ' '] + render_item(items.first()) + render_more_items(items.drop_first())
    }
}

/// A table as text: its name, or its statement in parentheses.
pub open spec fn render_table(table: TableView) -> Seq<char>
    decreases table,
{
    match table {
        TableView::Simple(name) => name,
        TableView::Subquery(query) => seq!['('] + render_query(*query) + seq![')'],
    }
}

/// The comparison of a statement as text, after a blank, `WHERE` and a
/// blank; empty if the statement has no comparison.
pub open spec fn render_filter(query: SelectQueryView) -> Seq<char> {
    match query.where_clause {
        Some(condition) => " WHERE "@ + render_condition(condition),
        None => Seq::empty(),
    }
}

/// A statement as text: `SELECT`, the items, `FROM`, the table, and
/// `WHERE` with the comparison if there is one.
pub open spec fn render_query(query: SelectQueryView) -> Seq<char>
    decreases query,
{
    "SELECT "@ + render_items(query.columns) + " FROM "@ + render_table(query.table)
        + render_filter(query)
}

} // verus!
