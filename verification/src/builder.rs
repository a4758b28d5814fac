//! From the concrete parse tree to the typed syntax tree.
//!
//! Each builder reads one kind of node and stops at the first thing that is
//! missing or out of place. The spec functions say, for every tree, what is
//! built or which error is reported; the executable builders are proved to
//! return exactly that. The builders take any tree, also one made by hand;
//! from a tree of the shape that the grammar gives they build well-formed
//! values only: a statement, for one, has one column or more.

use crate::ast::{
    item_well_formed, items_view, items_well_formed, lemma_items_view_push, table_well_formed,
    Condition, ConditionView, SelectItem, SelectItemView, SelectQuery, SelectQueryView, Table,
    TableView, Value, ValueView,
};
use crate::error::{result_view, ParseError, ParseErrorView};
use crate::invariants::{
    lemma_condition_well_formed, lemma_item_well_formed, lemma_list_well_formed,
    lemma_query_well_formed, lemma_table_well_formed, lemma_value_well_formed,
    lemma_where_well_formed,
};
use crate::shape::grammatical;
use crate::number::{i64_literal, parse_i64};
use crate::text::{eq_ignore_ascii_case, str_eq_ignore_ascii_case};
use crate::tree::{lemma_pair_view, Pair, PairView, Rule};
use vstd::prelude::*;
use vstd::string::{StrSliceExecFns, StringExecFns};

verus! {

broadcast use lemma_pair_view;

/// `text` without its first and last character; empty when it has fewer than two.
pub open spec fn strip_delimiters(text: Seq<char>) -> Seq<char> {
    if text.len() >= 2 {
        text.subrange(1, text.len() - 1)
    } else {
        Seq::empty()
    }
}

/// What a value node denotes.
pub open spec fn value_of(pair: PairView) -> Result<ValueView, ParseErrorView> {
    if pair.children.len() == 0 {
        Err(ParseErrorView::ExpectedInnerRuleForValue)
    } else {
        let inner = pair.children[0];
        match inner.rule {
            Rule::Number => match i64_literal(inner.text) {
                Some(n) => Ok(ValueView::Number(n)),
                None => Err(ParseErrorView::InvalidNumber),
            },
            Rule::StringLiteral => Ok(ValueView::String(strip_delimiters(inner.text))),
            Rule::Boolean => Ok(ValueView::Boolean(eq_ignore_ascii_case(inner.text, "true"@))),
            _ => Err(ParseErrorView::UnexpectedRuleInValue),
        }
    }
}

/// What a condition node denotes: its first three children are the left
/// operand, the operator and the value, in that order.
pub open spec fn condition_of(pair: PairView) -> Result<ConditionView, ParseErrorView> {
    if pair.children.len() < 1 {
        Err(ParseErrorView::MissingLeftOperand)
    } else if pair.children.len() < 2 {
        Err(ParseErrorView::MissingOperator)
    } else if pair.children.len() < 3 {
        Err(ParseErrorView::MissingRightOperand)
    } else {
        match value_of(pair.children[2]) {
            Ok(right) => Ok(
                ConditionView {
                    left: pair.children[0].text,
                    operator: pair.children[1].text,
                    right,
                },
            ),
            Err(e) => Err(e),
        }
    }
}

/// The index of the first node of kind `rule` among `pairs`, from `from` on.
pub open spec fn first_of_rule(pairs: Seq<PairView>, rule: Rule, from: int) -> Option<int>
    decreases pairs.len() - from,
{
    if from < 0 || from >= pairs.len() {
        None
    } else if pairs[from].rule == rule {
        Some(from)
    } else {
        first_of_rule(pairs, rule, from + 1)
    }
}

/// What a `WHERE` clause denotes: its first condition.
pub open spec fn where_of(pair: PairView) -> Result<ConditionView, ParseErrorView> {
    match first_of_rule(pair.children, Rule::Condition, 0) {
        Some(i) => condition_of(pair.children[i]),
        None => Err(ParseErrorView::NoConditionInWhereClause),
    }
}

/// Builds the literal of a value node.
pub fn parse_value(pair: &Pair) -> (r: Result<Value, ParseError>)
    ensures
        result_view(r) == value_of(pair@),
        grammatical(pair@) && pair@.rule == Rule::Value ==> (r matches Ok(v) ==> v@.well_formed()),
{
    proof {
        if grammatical(pair@) && pair@.rule == Rule::Value {
            lemma_value_well_formed(pair@);
        }
    }
    if pair.children.len() == 0 {
        return Err(ParseError::ExpectedInnerRuleForValue);
    }
    let inner = &pair.children[0];
    match inner.rule {
        Rule::Number => match parse_i64(inner.text.as_str()) {
            Ok(n) => Ok(Value::Number(n)),
            Err(e) => Err(ParseError::InvalidNumber(e)),
        },
        Rule::StringLiteral => {
            let text = inner.text.as_str();
            let n: usize = text.unicode_len();
            if n >= 2 {
                Ok(Value::String(String::from_str(text.substring_char(1, n - 1))))
            } else {
                Ok(Value::String(String::new()))
            }
        },
        Rule::Boolean => Ok(Value::Boolean(str_eq_ignore_ascii_case(inner.text.as_str(), "true"))),
        _ => Err(ParseError::UnexpectedRuleInValue),
    }
}

/// Builds the comparison of a condition node.
pub fn parse_condition(pair: &Pair) -> (r: Result<Condition, ParseError>)
    ensures
        result_view(r) == condition_of(pair@),
        grammatical(pair@) && pair@.rule == Rule::Condition ==> (r matches Ok(c)
            ==> c@.well_formed()),
{
    proof {
        if grammatical(pair@) && pair@.rule == Rule::Condition {
            lemma_condition_well_formed(pair@);
        }
    }
    let n: usize = pair.children.len();
    if n < 1 {
        return Err(ParseError::MissingLeftOperand);
    }
    if n < 2 {
        return Err(ParseError::MissingOperator);
    }
    if n < 3 {
        return Err(ParseError::MissingRightOperand);
    }
    let left = pair.children[0].text.clone();
    let operator = pair.children[1].text.clone();
    match parse_value(&pair.children[2]) {
        Ok(right) => Ok(Condition { left, operator, right }),
        Err(e) => Err(e),
    }
}

/// Builds the comparison of a `WHERE` clause from its first condition node.
#[verifier::loop_isolation(false)]
pub fn where_parser(pair: &Pair) -> (r: Result<Condition, ParseError>)
    ensures
        result_view(r) == where_of(pair@),
        grammatical(pair@) && pair@.rule == Rule::WhereClause ==> (r matches Ok(c)
            ==> c@.well_formed()),
{
    proof {
        if grammatical(pair@) && pair@.rule == Rule::WhereClause {
            lemma_where_well_formed(pair@);
        }
    }
    let n: usize = pair.children.len();
    let mut i: usize = 0;
    while i < n
        invariant
            i <= n,
            n == pair.children.len(),
            first_of_rule(pair@.children, Rule::Condition, 0) == first_of_rule(
                pair@.children,
                Rule::Condition,
                i as int,
            ),
        decreases n - i,
    {
        assert(pair@.children[i as int] == pair.children[i as int]@);
        match pair.children[i].rule {
            Rule::Condition => {
                return parse_condition(&pair.children[i]);
            },
            _ => {},
        }
        i += 1;
    }
    Err(ParseError::NoConditionInWhereClause)
}

/// What a select item node denotes. A name is a column, the wildcard is the
/// column `*`, and a call has the text of its first child as its name and
/// what its other children denote as its arguments.
pub open spec fn select_item_of(pair: PairView) -> Result<SelectItemView, ParseErrorView>
    decreases pair,
{
    if pair.children.len() == 0 {
        Err(ParseErrorView::MissingSelectItem)
    } else {
        let inner = pair.children[0];
        match inner.rule {
            Rule::Identifier => Ok(SelectItemView::Column(inner.text)),
            Rule::FunctionCall => if inner.children.len() == 0 {
                Err(ParseErrorView::FunctionNameMissing)
            } else {
                match select_items_of(inner.children.subrange(1, inner.children.len() as int)) {
                    Ok(arguments) => Ok(
                        SelectItemView::Function { name: inner.children[0].text, arguments },
                    ),
                    Err(e) => Err(e),
                }
            },
            Rule::Star => Ok(SelectItemView::Column(seq!['*'])),
            _ => Err(ParseErrorView::UnexpectedRuleInSelectItem),
        }
    }
}

/// What a sequence of select item nodes denotes: the items in order, or the
/// error of the first node that denotes none.
pub open spec fn select_items_of(pairs: Seq<PairView>) -> Result<
    Seq<SelectItemView>,
    ParseErrorView,
>
    decreases pairs,
{
    if pairs.len() == 0 {
        Ok(Seq::empty())
    } else {
        match select_items_of(pairs.drop_last()) {
            Ok(items) => match select_item_of(pairs.last()) {
                Ok(item) => Ok(items.push(item)),
                Err(e) => Err(e),
            },
            Err(e) => Err(e),
        }
    }
}

/// An error among the first `k` nodes is the error of the whole sequence.
pub proof fn lemma_select_items_error(pairs: Seq<PairView>, k: int)
    requires
        0 <= k <= pairs.len(),
        select_items_of(pairs.take(k)) is Err,
    ensures
        select_items_of(pairs) == select_items_of(pairs.take(k)),
    decreases pairs.len() - k,
{
    if k == pairs.len() {
        assert(pairs.take(k) =~= pairs);
    } else {
        assert(pairs.take(k + 1).drop_last() =~= pairs.take(k));
        lemma_select_items_error(pairs, k + 1);
    }
}

/// Builds the item of a select item node.
#[verifier::loop_isolation(false)]
pub fn parse_select_item(pair: &Pair) -> (r: Result<SelectItem, ParseError>)
    ensures
        result_view(r) == select_item_of(pair@),
        grammatical(pair@) && pair@.rule == Rule::SelectItem ==> (r matches Ok(item)
            ==> item_well_formed(item@)),
    decreases pair,
{
    proof {
        if grammatical(pair@) && pair@.rule == Rule::SelectItem {
            lemma_item_well_formed(pair@);
        }
    }
    if pair.children.len() == 0 {
        return Err(ParseError::MissingSelectItem);
    }
    let inner = &pair.children[0];
    match inner.rule {
        Rule::Identifier => Ok(SelectItem::Column(inner.text.clone())),
        Rule::FunctionCall => {
            let n: usize = inner.children.len();
            if n == 0 {
                return Err(ParseError::FunctionNameMissing);
            }
            let name = inner.children[0].text.clone();
            let ghost rest = inner@.children.subrange(1, n as int);
            let mut arguments: Vec<SelectItem> = Vec::new();
            let mut i: usize = 1;
            while i < n
                invariant
                    1 <= i <= n,
                    select_items_of(rest.take(i - 1)) == Ok::<Seq<SelectItemView>, ParseErrorView>(
                        items_view(arguments@),
                    ),
                decreases n - i,
            {
                proof {
                    assert(rest.take(i as int).drop_last() =~= rest.take(i - 1));
                    assert(rest.take(i as int).last() == inner.children[i as int]@);
                }
                match parse_select_item(&inner.children[i]) {
                    Ok(item) => {
                        proof {
                            lemma_items_view_push(arguments@, item);
                        }
                        arguments.push(item);
                    },
                    Err(e) => {
                        proof {
                            lemma_select_items_error(rest, i as int);
                        }
                        return Err(e);
                    },
                }
                i += 1;
            }
            proof {
                assert(rest.take(n - 1) =~= rest);
            }
            Ok(SelectItem::Function { name, arguments })
        },
        Rule::Star => {
            proof {
                reveal_strlit("*");
                assert("*"@ =~= seq!['*']);
            }
            Ok(SelectItem::Column(String::from_str("*")))
        },
        _ => Err(ParseError::UnexpectedRuleInSelectItem),
    }
}

/// What the children of a select list denote: every child must be a
/// select item node, and the first child that is none, or that denotes no
/// item, gives the error.
pub open spec fn select_list_items(children: Seq<PairView>) -> Result<
    Seq<SelectItemView>,
    ParseErrorView,
>
    decreases children.len(),
{
    if children.len() == 0 {
        Ok(Seq::empty())
    } else {
        match select_list_items(children.drop_last()) {
            Ok(items) => if children.last().rule != Rule::SelectItem {
                Err(ParseErrorView::UnexpectedRuleInSelectList)
            } else {
                match select_item_of(children.last()) {
                    Ok(item) => Ok(items.push(item)),
                    Err(e) => Err(e),
                }
            },
            Err(e) => Err(e),
        }
    }
}

/// What a select list node denotes.
pub open spec fn select_list_of(pair: PairView) -> Result<Seq<SelectItemView>, ParseErrorView> {
    select_list_items(pair.children)
}

/// An error among the first `k` children is the error of the whole list.
pub proof fn lemma_select_list_error(children: Seq<PairView>, k: int)
    requires
        0 <= k <= children.len(),
        select_list_items(children.take(k)) is Err,
    ensures
        select_list_items(children) == select_list_items(children.take(k)),
    decreases children.len() - k,
{
    if k == children.len() {
        assert(children.take(k) =~= children);
    } else {
        assert(children.take(k + 1).drop_last() =~= children.take(k));
        lemma_select_list_error(children, k + 1);
    }
}

/// Builds the items of a select list node, in source order.
#[verifier::loop_isolation(false)]
pub fn selected_rows_parser(pair: &Pair) -> (r: Result<Vec<SelectItem>, ParseError>)
    ensures
        r matches Ok(items) ==> select_list_of(pair@) == Ok::<Seq<SelectItemView>, ParseErrorView>(
            items_view(items@),
        ),
        r matches Err(e) ==> select_list_of(pair@) == Err::<Seq<SelectItemView>, ParseErrorView>(
            e@,
        ),
        grammatical(pair@) && pair@.rule == Rule::SelectList ==> (r matches Ok(items)
            ==> items@.len() >= 1 && items_well_formed(items_view(items@))),
{
    proof {
        if grammatical(pair@) && pair@.rule == Rule::SelectList {
            lemma_list_well_formed(pair@);
        }
    }
    let n: usize = pair.children.len();
    let mut selected_rows: Vec<SelectItem> = Vec::new();
    let mut i: usize = 0;
    while i < n
        invariant
            i <= n,
            select_list_items(pair@.children.take(i as int)) == Ok::<
                Seq<SelectItemView>,
                ParseErrorView,
            >(items_view(selected_rows@)),
        decreases n - i,
    {
        let inner = &pair.children[i];
        proof {
            assert(pair@.children.take(i + 1).drop_last() =~= pair@.children.take(i as int));
            assert(pair@.children.take(i + 1).last() == inner@);
        }
        match inner.rule {
            Rule::SelectItem => match parse_select_item(inner) {
                Ok(row) => {
                    proof {
                        lemma_items_view_push(selected_rows@, row);
                    }
                    selected_rows.push(row);
                },
                Err(e) => {
                    proof {
                        lemma_select_list_error(pair@.children, i + 1);
                    }
                    return Err(e);
                },
            },
            _ => {
                proof {
                    lemma_select_list_error(pair@.children, i + 1);
                }
                return Err(ParseError::UnexpectedRuleInSelectList);
            },
        }
        i += 1;
    }
    proof {
        assert(pair@.children.take(n as int) =~= pair@.children);
    }
    Ok(selected_rows)
}

/// What has been gathered from the children of a statement node.
pub ghost struct QueryParts {
    pub columns: Seq<SelectItemView>,
    pub table: Option<TableView>,
    pub where_clause: Option<ConditionView>,
}

/// What a table node denotes: a name is a simple table, a statement is a subquery.
pub open spec fn table_of(pair: PairView) -> Result<TableView, ParseErrorView>
    decreases pair,
{
    if pair.children.len() == 0 {
        Err(ParseErrorView::MissingTableName)
    } else {
        let inner = pair.children[0];
        match inner.rule {
            Rule::Identifier => Ok(TableView::Simple(inner.text)),
            Rule::SelectQuery => match query_of(inner) {
                Ok(query) => Ok(TableView::Subquery(Box::new(query))),
                Err(e) => Err(e),
            },
            _ => Err(ParseErrorView::UnexpectedRuleInTable),
        }
    }
}

/// What the children of a statement node give, read in order: a select
/// list sets the columns, a table node sets the table, a `WHERE` clause sets
/// the condition, and any other child is passed over. The first child that
/// denotes nothing gives the error.
pub open spec fn query_parts(children: Seq<PairView>) -> Result<QueryParts, ParseErrorView>
    decreases children,
{
    if children.len() == 0 {
        Ok(QueryParts { columns: Seq::empty(), table: None, where_clause: None })
    } else {
        match query_parts(children.drop_last()) {
            Ok(parts) => match children.last().rule {
                Rule::SelectList => match select_list_of(children.last()) {
                    Ok(columns) => Ok(QueryParts { columns, ..parts }),
                    Err(e) => Err(e),
                },
                Rule::Table => match table_of(children.last()) {
                    Ok(table) => Ok(QueryParts { table: Some(table), ..parts }),
                    Err(e) => Err(e),
                },
                Rule::WhereClause => match where_of(children.last()) {
                    Ok(condition) => Ok(QueryParts { where_clause: Some(condition), ..parts }),
                    Err(e) => Err(e),
                },
                _ => Ok(parts),
            },
            Err(e) => Err(e),
        }
    }
}

/// What a statement node denotes. A statement without a table node is an error.
pub open spec fn query_of(pair: PairView) -> Result<SelectQueryView, ParseErrorView>
    decreases pair,
{
    match query_parts(pair.children) {
        Ok(parts) => match parts.table {
            Some(table) => Ok(
                SelectQueryView { columns: parts.columns, table, where_clause: parts.where_clause },
            ),
            None => Err(ParseErrorView::TableNotSpecified),
        },
        Err(e) => Err(e),
    }
}

/// An error among the first `k` children is the error of the whole statement.
pub proof fn lemma_query_parts_error(children: Seq<PairView>, k: int)
    requires
        0 <= k <= children.len(),
        query_parts(children.take(k)) is Err,
    ensures
        query_parts(children) == query_parts(children.take(k)),
    decreases children.len() - k,
{
    if k == children.len() {
        assert(children.take(k) =~= children);
    } else {
        assert(children.take(k + 1).drop_last() =~= children.take(k));
        lemma_query_parts_error(children, k + 1);
    }
}

/// Where the whole statement denotes parts, so do its first `k` children.
pub proof fn lemma_query_parts_ok_prefix(children: Seq<PairView>, k: int)
    requires
        0 <= k <= children.len(),
        query_parts(children) is Ok,
    ensures
        query_parts(children.take(k)) is Ok,
{
    if query_parts(children.take(k)) is Err {
        lemma_query_parts_error(children, k);
    }
}

/// The value of a table that may be absent.
pub open spec fn table_option_view(table: Option<Table>) -> Option<TableView> {
    match table {
        Some(t) => Some(t@),
        None => None,
    }
}

/// The value of a condition that may be absent.
pub open spec fn condition_option_view(condition: Option<Condition>) -> Option<ConditionView> {
    match condition {
        Some(c) => Some(c@),
        None => None,
    }
}

/// Builds the table of a table node; a nested statement is built in turn.
pub fn table_parser(pair: &Pair) -> (r: Result<Table, ParseError>)
    ensures
        result_view(r) == table_of(pair@),
        grammatical(pair@) && pair@.rule == Rule::Table ==> (r matches Ok(table)
            ==> table_well_formed(table@)),
    decreases pair,
{
    proof {
        if grammatical(pair@) && pair@.rule == Rule::Table {
            lemma_table_well_formed(pair@);
        }
    }
    if pair.children.len() == 0 {
        return Err(ParseError::MissingTableName);
    }
    let inner = &pair.children[0];
    match inner.rule {
        Rule::Identifier => Ok(Table::Simple(inner.text.clone())),
        Rule::SelectQuery => match build_query_structure(inner) {
            Ok(subquery) => Ok(Table::Subquery(Box::new(subquery))),
            Err(e) => Err(e),
        },
        _ => Err(ParseError::UnexpectedRuleInTable),
    }
}

/// Builds the statement of a statement node.
#[verifier::loop_isolation(false)]
pub fn build_query_structure(pair: &Pair) -> (r: Result<SelectQuery, ParseError>)
    ensures
        result_view(r) == query_of(pair@),
        grammatical(pair@) && pair@.rule == Rule::SelectQuery ==> (r matches Ok(query)
            ==> query@.well_formed() && query.columns@.len() >= 1),
    decreases pair,
{
    proof {
        if grammatical(pair@) && pair@.rule == Rule::SelectQuery {
            lemma_query_well_formed(pair@);
        }
    }
    let n: usize = pair.children.len();
    let mut columns: Vec<SelectItem> = Vec::new();
    let mut table: Option<Table> = None;
    let mut where_clause: Option<Condition> = None;
    let mut i: usize = 0;
    while i < n
        invariant
            i <= n,
            query_parts(pair@.children.take(i as int)) == Ok::<QueryParts, ParseErrorView>(
                QueryParts {
                    columns: items_view(columns@),
                    table: table_option_view(table),
                    where_clause: condition_option_view(where_clause),
                },
            ),
        decreases n - i,
    {
        let inner = &pair.children[i];
        proof {
            assert(pair@.children.take(i + 1).drop_last() =~= pair@.children.take(i as int));
            assert(pair@.children.take(i + 1).last() == inner@);
        }
        match inner.rule {
            Rule::SelectList => match selected_rows_parser(inner) {
                Ok(items) => {
                    columns = items;
                },
                Err(e) => {
                    proof {
                        lemma_query_parts_error(pair@.children, i + 1);
                    }
                    return Err(e);
                },
            },
            Rule::Table => match table_parser(inner) {
                Ok(t) => {
                    table = Some(t);
                },
                Err(e) => {
                    proof {
                        lemma_query_parts_error(pair@.children, i + 1);
                    }
                    return Err(e);
                },
            },
            Rule::WhereClause => match where_parser(inner) {
                Ok(c) => {
                    where_clause = Some(c);
                },
                Err(e) => {
                    proof {
                        lemma_query_parts_error(pair@.children, i + 1);
                    }
                    return Err(e);
                },
            },
            _ => {},
        }
        i += 1;
    }
    proof {
        assert(pair@.children.take(n as int) =~= pair@.children);
    }
    match table {
        Some(table) => Ok(SelectQuery { columns, table, where_clause }),
        None => Err(ParseError::TableNotSpecified),
    }
}

} // verus!
