//! The typed syntax tree of a `SELECT` statement.

use crate::text::{is_comparison, is_identifier};
use vstd::prelude::*;

verus! {

/// A literal on the right-hand side of a comparison.
#[derive(Debug, PartialEq, Eq)]
pub enum Value {
    /// A signed 64-bit integer.
    Number(i64),
    /// The text between the quotes of a string literal, taken verbatim.
    String(String),
    /// `true` or `false`.
    Boolean(bool),
}

/// The single comparison of a `WHERE` clause.
#[derive(Debug, PartialEq, Eq)]
pub struct Condition {
    /// The left operand, such as a column name.
    pub left: String,
    /// The comparison operator, such as `=` or `>`.
    pub operator: String,
    /// The value compared against.
    pub right: Value,
}

/// One projected item of the select list.
#[derive(Debug, PartialEq, Eq)]
pub enum SelectItem {
    /// A column by name; the wildcard is the column named `*`.
    Column(String),
    /// A function call with its arguments in source order.
    Function { name: String, arguments: Vec<SelectItem> },
}

/// The target of `FROM`.
#[derive(Debug, PartialEq, Eq)]
pub enum Table {
    /// A table by name.
    Simple(String),
    /// A nested statement, owned by this table.
    Subquery(Box<SelectQuery>),
}

/// A parsed `SELECT` statement.
#[derive(Debug, PartialEq, Eq)]
pub struct SelectQuery {
    /// The projected items, in source order.
    pub columns: Vec<SelectItem>,
    /// The target of `FROM`.
    pub table: Table,
    /// The comparison of the `WHERE` clause, if the statement has one.
    pub where_clause: Option<Condition>,
}

/// The mathematical value of a [`Value`].
pub ghost enum ValueView {
    Number(i64),
    String(Seq<char>),
    Boolean(bool),
}

/// The mathematical value of a [`Condition`].
pub ghost struct ConditionView {
    pub left: Seq<char>,
    pub operator: Seq<char>,
    pub right: ValueView,
}

/// The mathematical value of a [`SelectItem`].
pub ghost enum SelectItemView {
    Column(Seq<char>),
    Function { name: Seq<char>, arguments: Seq<SelectItemView> },
}

/// The mathematical value of a [`Table`].
pub ghost enum TableView {
    Simple(Seq<char>),
    Subquery(Box<SelectQueryView>),
}

/// The mathematical value of a [`SelectQuery`].
pub ghost struct SelectQueryView {
    pub columns: Seq<SelectItemView>,
    pub table: TableView,
    pub where_clause: Option<ConditionView>,
}

impl View for Value {
    type V = ValueView;

    open spec fn view(&self) -> ValueView {
        match self {
            Value::Number(n) => ValueView::Number(*n),
            Value::String(s) => ValueView::String(s@),
            Value::Boolean(b) => ValueView::Boolean(*b),
        }
    }
}

impl View for Condition {
    type V = ConditionView;

    open spec fn view(&self) -> ConditionView {
        ConditionView { left: self.left@, operator: self.operator@, right: self.right@ }
    }
}

/// The value of an item; the arguments of a call are taken by their values.
pub open spec fn item_view(item: SelectItem) -> SelectItemView
    decreases item,
{
    match item {
        SelectItem::Column(name) => SelectItemView::Column(name@),
        SelectItem::Function { name, arguments } => SelectItemView::Function {
            name: name@,
            arguments: items_view(arguments@),
        },
    }
}

/// The values of a sequence of items, in order.
pub open spec fn items_view(items: Seq<SelectItem>) -> Seq<SelectItemView>
    decreases items,
{
    if items.len() == 0 {
        Seq::empty()
    } else {
        items_view(items.drop_last()).push(item_view(items.last()))
    }
}

impl View for SelectItem {
    type V = SelectItemView;

    open spec fn view(&self) -> SelectItemView {
        item_view(*self)
    }
}

/// The values of a sequence of items are as many as the items, and the value
/// at each index is that of the item there.
pub broadcast proof fn lemma_items_view(items: Seq<SelectItem>)
    ensures
        #![trigger items_view(items)]
        items_view(items).len() == items.len(),
        forall|i: int| 0 <= i < items.len() ==> (#[trigger] items_view(items)[i]) == items[i]@,
    decreases items.len(),
{
    if items.len() > 0 {
        lemma_items_view(items.drop_last());
    }
}

/// Appending an item appends its value.
pub proof fn lemma_items_view_push(items: Seq<SelectItem>, item: SelectItem)
    ensures
        items_view(items.push(item)) == items_view(items).push(item@),
{
    assert(items.push(item).drop_last() =~= items);
}

/// The value of a table; a subquery is taken by the value of its statement.
pub open spec fn table_view(table: Table) -> TableView
    decreases table,
{
    match table {
        Table::Simple(name) => TableView::Simple(name@),
        Table::Subquery(query) => TableView::Subquery(Box::new(query_view(*query))),
    }
}

/// The value of a statement.
pub open spec fn query_view(query: SelectQuery) -> SelectQueryView
    decreases query,
{
    SelectQueryView {
        columns: items_view(query.columns@),
        table: table_view(query.table),
        where_clause: match query.where_clause {
            Some(c) => Some(c@),
            None => None,
        },
    }
}

impl View for Table {
    type V = TableView;

    open spec fn view(&self) -> TableView {
        table_view(*self)
    }
}

impl View for SelectQuery {
    type V = SelectQueryView;

    open spec fn view(&self) -> SelectQueryView {
        query_view(*self)
    }
}

impl ValueView {
    /// Whether the value is one that a text can denote: a string holds no
    /// single quote.
    pub open spec fn well_formed(self) -> bool {
        self matches ValueView::String(text) ==> forall|i: int|
            0 <= i < text.len() ==> #[trigger] text[i] != '\''
    }
}

impl ConditionView {
    /// Whether the comparison is one that a text can denote: the operand is a
    /// name, the operator is one of the six, and the value is well formed.
    pub open spec fn well_formed(self) -> bool {
        is_identifier(self.left) && is_comparison(self.operator) && self.right.well_formed()
    }
}

/// Whether an item is one that a text can denote: a column is a name or
/// the wildcard, and a call has a name and one or more such items as
/// arguments.
pub open spec fn item_well_formed(item: SelectItemView) -> bool
    decreases item,
{
    match item {
        SelectItemView::Column(name) => name == seq!['*'] || is_identifier(name),
        SelectItemView::Function { name, arguments } => is_identifier(name) && arguments.len() >= 1
            && items_well_formed(arguments),
    }
}

/// Whether every item of a sequence is well formed.
pub open spec fn items_well_formed(items: Seq<SelectItemView>) -> bool
    decreases items,
{
    items.len() == 0 || (items_well_formed(items.drop_last()) && item_well_formed(items.last()))
}

/// Whether a table is one that a text can denote: a name, or a well-formed
/// statement.
pub open spec fn table_well_formed(table: TableView) -> bool
    decreases table,
{
    match table {
        TableView::Simple(name) => is_identifier(name),
        TableView::Subquery(query) => query_well_formed(*query),
    }
}

/// Whether a statement is one that a text can denote: it has one or more
/// well-formed items, a well-formed table, and a well-formed comparison if
/// it has one. This holds in turn of every statement nested in it.
pub open spec fn query_well_formed(query: SelectQueryView) -> bool
    decreases query,
{
    &&& query.columns.len() >= 1
    &&& items_well_formed(query.columns)
    &&& table_well_formed(query.table)
    &&& query.where_clause matches Some(condition) ==> condition.well_formed()
}

impl SelectQueryView {
    /// See [`query_well_formed`].
    pub open spec fn well_formed(self) -> bool {
        query_well_formed(self)
    }
}

/// The items of a sequence are well formed exactly when each of them is.
pub proof fn lemma_items_well_formed(items: Seq<SelectItemView>)
    ensures
        items_well_formed(items) <==> forall|i: int|
            0 <= i < items.len() ==> item_well_formed(#[trigger] items[i]),
    decreases items.len(),
{
    if items.len() > 0 {
        lemma_items_well_formed(items.drop_last());
        if items_well_formed(items) {
            assert forall|i: int| 0 <= i < items.len() implies item_well_formed(
                #[trigger] items[i],
            ) by {
                if i < items.len() - 1 {
                    assert(items.drop_last()[i] == items[i]);
                }
            }
        }
        if forall|i: int| 0 <= i < items.len() ==> item_well_formed(#[trigger] items[i]) {
            assert forall|i: int| 0 <= i < items.drop_last().len() implies item_well_formed(
                #[trigger] items.drop_last()[i],
            ) by {
                assert(items.drop_last()[i] == items[i]);
            }
        }
    }
}

} // verus!
