//! What holds of everything that is built from a tree of the grammar.
//!
//! The builder takes any tree. On the trees that the grammar gives it can
//! only fail for want of a part or for a number that does not fit, it
//! succeeds exactly on the trees that lack nothing, and what it builds is
//! well formed.

use crate::ast::{
    item_well_formed, items_well_formed, query_well_formed, table_well_formed, SelectItemView,
};
use crate::builder::{
    condition_of, first_of_rule, query_of, query_parts, select_item_of, select_items_of,
    select_list_items, select_list_of, strip_delimiters, table_of, value_of, where_of,
};
use crate::error::ParseErrorView;
use crate::shape::{
    all_complete, all_grammatical, all_of_rule, complete, grammatical, lemma_all_complete,
    lemma_all_grammatical,
};
use crate::tree::{PairView, Rule};
use vstd::prelude::*;

verus! {

/// Whether an error says that a part of the statement is missing or that a
/// number does not fit. Nodes that are out of place give other errors.
pub open spec fn is_gap(e: ParseErrorView) -> bool {
    e is TableNotSpecified || e is MissingSelectItem || e is MissingTableName
        || e is NoConditionInWhereClause || e is MissingOperator || e is MissingRightOperand
        || e is InvalidNumber
}

/// Whether a node of kind `rule` is among `pairs`.
pub open spec fn has_rule(pairs: Seq<PairView>, rule: Rule) -> bool {
    exists|i: int| 0 <= i < pairs.len() && (#[trigger] pairs[i]).rule == rule
}

/// A value of the grammar denotes a well-formed literal, unless its number
/// does not fit. It denotes one exactly if it lacks nothing.
pub proof fn lemma_value_well_formed(pair: PairView)
    requires
        grammatical(pair),
        pair.rule == Rule::Value,
    ensures
        value_of(pair) matches Ok(v) ==> v.well_formed(),
        value_of(pair) matches Err(e) ==> e is InvalidNumber,
        value_of(pair) is Ok <==> complete(pair),
{
    lemma_all_grammatical(pair.children);
    lemma_all_complete(pair.children);
    let inner = pair.children[0];
    assert(grammatical(inner));
    assert(all_complete(inner.children));
    if inner.rule == Rule::StringLiteral {
        let text = strip_delimiters(inner.text);
        assert forall|i: int| 0 <= i < text.len() implies #[trigger] text[i] != '\'' by {
            assert(text[i] == inner.text[i + 1]);
        }
    }
}

/// A condition of the grammar denotes a well-formed comparison, unless it
/// stops short or its number does not fit. It denotes one exactly if it
/// lacks nothing.
pub proof fn lemma_condition_well_formed(pair: PairView)
    requires
        grammatical(pair),
        pair.rule == Rule::Condition,
    ensures
        condition_of(pair) matches Ok(c) ==> c.well_formed(),
        condition_of(pair) matches Err(e) ==> e is MissingOperator || e is MissingRightOperand
            || e is InvalidNumber,
        condition_of(pair) is Ok <==> complete(pair),
{
    lemma_all_grammatical(pair.children);
    lemma_all_complete(pair.children);
    assert(grammatical(pair.children[0]));
    assert(complete(pair.children[0])) by {
        assert(all_complete(pair.children[0].children));
    }
    if pair.children.len() >= 2 {
        assert(grammatical(pair.children[1]));
        assert(complete(pair.children[1])) by {
            assert(all_complete(pair.children[1].children));
        }
    }
    if pair.children.len() >= 3 {
        assert(grammatical(pair.children[2]));
        lemma_value_well_formed(pair.children[2]);
    }
}

/// A `WHERE` clause of the grammar denotes a well-formed comparison, unless
/// the condition is missing, stops short or holds a number that does not
/// fit. It denotes one exactly if it lacks nothing.
pub proof fn lemma_where_well_formed(pair: PairView)
    requires
        grammatical(pair),
        pair.rule == Rule::WhereClause,
    ensures
        where_of(pair) matches Ok(c) ==> c.well_formed(),
        where_of(pair) matches Err(e) ==> is_gap(e),
        where_of(pair) is Ok <==> complete(pair),
{
    lemma_all_grammatical(pair.children);
    lemma_all_complete(pair.children);
    assert(grammatical(pair.children[0]));
    assert(complete(pair.children[0])) by {
        assert(all_complete(pair.children[0].children));
    }
    assert(first_of_rule(pair.children, Rule::Condition, 1) == if pair.children.len() == 2 {
        Some(1int)
    } else {
        None
    }) by {
        if pair.children.len() == 2 {
            assert(first_of_rule(pair.children, Rule::Condition, 2) is None);
        }
    }
    if pair.children.len() == 2 {
        assert(grammatical(pair.children[1]));
        lemma_condition_well_formed(pair.children[1]);
    }
}

/// A select item of the grammar denotes a well-formed item, unless it or
/// one of the arguments in it is empty. It denotes one exactly if it lacks
/// nothing.
pub proof fn lemma_item_well_formed(pair: PairView)
    requires
        grammatical(pair),
        pair.rule == Rule::SelectItem,
    ensures
        select_item_of(pair) matches Ok(item) ==> item_well_formed(item),
        select_item_of(pair) matches Err(e) ==> e is MissingSelectItem,
        select_item_of(pair) is Ok <==> complete(pair),
    decreases pair,
{
    lemma_all_grammatical(pair.children);
    lemma_all_complete(pair.children);
    if pair.children.len() == 1 {
        let inner = pair.children[0];
        assert(grammatical(inner));
        if inner.rule == Rule::FunctionCall {
            lemma_all_grammatical(inner.children);
            lemma_all_complete(inner.children);
            assert(grammatical(inner.children[0]));
            assert(complete(inner.children[0])) by {
                assert(all_complete(inner.children[0].children));
            }
            let arguments = inner.children.subrange(1, inner.children.len() as int);
            assert forall|i: int| 0 <= i < arguments.len() implies grammatical(
                #[trigger] arguments[i],
            ) && arguments[i].rule == Rule::SelectItem by {
                assert(arguments[i] == inner.children[i + 1]);
            }
            lemma_all_grammatical(arguments);
            lemma_all_complete(arguments);
            lemma_items_well_formed_of(arguments);
            if all_complete(arguments) {
                assert forall|i: int| 0 <= i < inner.children.len() implies complete(
                    #[trigger] inner.children[i],
                ) by {
                    if i > 0 {
                        assert(arguments[i - 1] == inner.children[i]);
                    }
                }
            }
            if all_complete(inner.children) {
                assert forall|i: int| 0 <= i < arguments.len() implies complete(
                    #[trigger] arguments[i],
                ) by {
                    assert(arguments[i] == inner.children[i + 1]);
                }
            }
        } else {
            assert(all_complete(inner.children));
        }
    }
}

/// Select items of the grammar denote as many well-formed items, unless one
/// of them is empty. They denote items exactly if none of them lacks
/// anything.
pub proof fn lemma_items_well_formed_of(pairs: Seq<PairView>)
    requires
        all_grammatical(pairs),
        all_of_rule(pairs, 0, Rule::SelectItem),
    ensures
        select_items_of(pairs) matches Ok(items) ==> items.len() == pairs.len()
            && items_well_formed(items),
        select_items_of(pairs) matches Err(e) ==> e is MissingSelectItem,
        select_items_of(pairs) is Ok <==> all_complete(pairs),
    decreases pairs,
{
    if pairs.len() > 0 {
        lemma_all_grammatical(pairs);
        let front = pairs.drop_last();
        assert forall|i: int| 0 <= i < front.len() implies grammatical(#[trigger] front[i])
            && front[i].rule == Rule::SelectItem by {
            assert(front[i] == pairs[i]);
        }
        lemma_all_grammatical(front);
        lemma_items_well_formed_of(front);
        lemma_item_well_formed(pairs.last());
        match select_items_of(pairs) {
            Ok(items) => {
                assert(items.drop_last() =~= select_items_of(front)->Ok_0);
            },
            Err(e) => {},
        }
    }
}

/// A select list of the grammar denotes one well-formed item for each of its
/// children, unless one of them is empty. It denotes items exactly if it
/// lacks nothing.
pub proof fn lemma_list_well_formed(pair: PairView)
    requires
        grammatical(pair),
        pair.rule == Rule::SelectList,
    ensures
        select_list_of(pair) matches Ok(items) ==> items.len() == pair.children.len()
            && items.len() >= 1 && items_well_formed(items),
        select_list_of(pair) matches Err(e) ==> e is MissingSelectItem,
        select_list_of(pair) is Ok <==> complete(pair),
{
    lemma_list_items(pair.children);
}

/// In a select list, select item nodes denote what they denote as the
/// arguments of a call.
pub proof fn lemma_list_items(children: Seq<PairView>)
    requires
        all_grammatical(children),
        all_of_rule(children, 0, Rule::SelectItem),
    ensures
        select_list_items(children) == select_items_of(children),
        select_items_of(children) matches Ok(items) ==> items.len() == children.len()
            && items_well_formed(items),
        select_items_of(children) matches Err(e) ==> e is MissingSelectItem,
        select_items_of(children) is Ok <==> all_complete(children),
    decreases children.len(),
{
    lemma_items_well_formed_of(children);
    if children.len() > 0 {
        lemma_all_grammatical(children);
        let front = children.drop_last();
        assert forall|i: int| 0 <= i < front.len() implies grammatical(#[trigger] front[i])
            && front[i].rule == Rule::SelectItem by {
            assert(front[i] == children[i]);
        }
        lemma_all_grammatical(front);
        lemma_list_items(front);
    }
}

/// A table of the grammar denotes a well-formed table, unless it is empty
/// or the statement in it denotes none. It denotes one exactly if it lacks
/// nothing.
pub proof fn lemma_table_well_formed(pair: PairView)
    requires
        grammatical(pair),
        pair.rule == Rule::Table,
    ensures
        table_of(pair) matches Ok(t) ==> table_well_formed(t),
        table_of(pair) matches Err(e) ==> is_gap(e),
        table_of(pair) is Ok <==> complete(pair),
    decreases pair,
{
    lemma_all_grammatical(pair.children);
    lemma_all_complete(pair.children);
    if pair.children.len() == 1 {
        let inner = pair.children[0];
        assert(grammatical(inner));
        if inner.rule == Rule::SelectQuery {
            lemma_query_well_formed(inner);
        } else {
            assert(all_complete(inner.children));
        }
    }
}

/// Whether a node of kind `rule` can stand directly in a statement.
pub open spec fn is_statement_part(rule: Rule) -> bool {
    rule == Rule::Select || rule == Rule::SelectList || rule == Rule::From || rule == Rule::Table
        || rule == Rule::WhereClause
}

/// Whether every node of a sequence can stand directly in a statement.
pub open spec fn statement_parts(children: Seq<PairView>) -> bool {
    forall|i: int| 0 <= i < children.len() ==> is_statement_part((#[trigger] children[i]).rule)
}

/// What is gathered from children of the grammar is well formed: there are
/// items if there is a select list, a table exactly if there is a table
/// node, and a comparison exactly if there is a `WHERE` clause. The parts of
/// a statement give something exactly if none of them lacks anything.
pub proof fn lemma_parts_well_formed(children: Seq<PairView>)
    requires
        all_grammatical(children),
    ensures
        query_parts(children) matches Ok(parts) ==> {
            &&& items_well_formed(parts.columns)
            &&& has_rule(children, Rule::SelectList) ==> parts.columns.len() >= 1
            &&& parts.table is Some <==> has_rule(children, Rule::Table)
            &&& parts.table matches Some(t) ==> table_well_formed(t)
            &&& parts.where_clause is Some <==> has_rule(children, Rule::WhereClause)
            &&& parts.where_clause matches Some(c) ==> c.well_formed()
        },
        query_parts(children) matches Err(e) ==> is_gap(e),
        statement_parts(children) ==> (query_parts(children) is Ok <==> all_complete(children)),
    decreases children,
{
    if children.len() > 0 {
        lemma_all_grammatical(children);
        let front = children.drop_last();
        let last = children.last();
        assert forall|i: int| 0 <= i < front.len() implies grammatical(#[trigger] front[i]) by {
            assert(front[i] == children[i]);
        }
        lemma_all_grammatical(front);
        lemma_parts_well_formed(front);
        assert(grammatical(last));
        if last.rule == Rule::SelectList {
            lemma_list_well_formed(last);
        } else if last.rule == Rule::Table {
            lemma_table_well_formed(last);
        } else if last.rule == Rule::WhereClause {
            lemma_where_well_formed(last);
        } else if statement_parts(children) {
            assert(is_statement_part(children[children.len() - 1].rule));
            lemma_keyword_complete(last);
        }
        if statement_parts(children) {
            assert forall|i: int| 0 <= i < front.len() implies is_statement_part(
                (#[trigger] front[i]).rule,
            ) by {
                assert(front[i] == children[i]);
            }
        }
        assert forall|rule: Rule| #[trigger]
            has_rule(children, rule) <==> has_rule(front, rule) || last.rule == rule by {
            if has_rule(children, rule) {
                let i = choose|i: int| 0 <= i < children.len() && (#[trigger] children[i]).rule
                    == rule;
                if i < front.len() {
                    assert(front[i].rule == rule);
                }
            }
            if has_rule(front, rule) {
                let i = choose|i: int| 0 <= i < front.len() && (#[trigger] front[i]).rule
                    == rule;
                assert(children[i].rule == rule);
            }
            if last.rule == rule {
                assert(children[children.len() - 1].rule == rule);
            }
        }
    } else {
        assert(items_well_formed(Seq::<SelectItemView>::empty()));
    }
}

/// A statement of the grammar denotes a well-formed statement, with a
/// comparison exactly if it has a `WHERE` clause, unless a part of it is
/// missing or a number in it does not fit. It denotes one exactly if it
/// lacks nothing.
pub proof fn lemma_query_well_formed(pair: PairView)
    requires
        grammatical(pair),
        pair.rule == Rule::SelectQuery,
    ensures
        query_of(pair) matches Ok(query) ==> query_well_formed(query) && (
        query.where_clause is Some <==> has_rule(pair.children, Rule::WhereClause)),
        query_of(pair) matches Err(e) ==> is_gap(e),
        query_of(pair) is Ok <==> complete(pair),
    decreases pair,
{
    lemma_parts_well_formed(pair.children);
    assert(pair.children[1].rule == Rule::SelectList);
    assert(statement_parts(pair.children)) by {
        let c = pair.children;
        assert forall|i: int| 0 <= i < c.len() implies is_statement_part(
            (#[trigger] c[i]).rule,
        ) by {
            if i == 0 {
            } else if i == 1 {
            } else if i == 2 {
            } else if i == 3 {
            } else {
                assert(i == 4);
            }
        }
    }
    if pair.children.len() >= 4 {
        assert(pair.children[3].rule == Rule::Table);
    }
    if has_rule(pair.children, Rule::Table) {
        let i = choose|i: int|
            0 <= i < pair.children.len() && (#[trigger] pair.children[i]).rule == Rule::Table;
        assert(i == 3);
    }
}

/// A keyword of the grammar lacks nothing.
pub proof fn lemma_keyword_complete(pair: PairView)
    requires
        grammatical(pair),
        pair.rule == Rule::Select || pair.rule == Rule::From || pair.rule == Rule::Where,
    ensures
        complete(pair),
{
    assert(all_complete(pair.children));
}

} // verus!
