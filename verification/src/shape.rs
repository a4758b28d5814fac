//! The shape of the trees that the grammar gives.
//!
//! The builder is defined on every tree. The trees that come out of the
//! grammar are of a narrower kind, described here: each node has the
//! children that its rule allows, and each token has the text that its rule
//! allows.

use crate::grammar::{
    boolean, comparison_op, condition, function_call, identifier, keyword, lemma_head_bounds,
    lemma_item_bounds, lemma_list_bounds, lemma_run_end_bounds, lemma_run_end_holds,
    lemma_table_bounds, lemma_token_bounds, more_items, number, query_head, rule_at, select_item,
    select_list, select_query, skip_whitespace, star, string_literal, symbol, table, value,
    where_clause, CharClass,
};
use crate::number::{all_digits, i64_literal};
use crate::text::{eq_ignore_ascii_case, is_comparison, is_identifier, is_name};
use crate::tree::{PairView, Rule};
use vstd::prelude::*;

verus! {

/// Whether `text` is an integer literal of the grammar: an optional `-`, then
/// one or more digits.
pub open spec fn is_number_text(text: Seq<char>) -> bool {
    let digits = if text.len() > 0 && text[0] == '-' {
        text.subrange(1, text.len() as int)
    } else {
        text
    };
    digits.len() > 0 && all_digits(digits)
}

/// Whether `text` is a string literal: two single quotes with no single
/// quote between them.
pub open spec fn is_string_text(text: Seq<char>) -> bool {
    &&& text.len() >= 2
    &&& text[0] == '\''
    &&& text[text.len() - 1] == '\''
    &&& forall|i: int| 1 <= i < text.len() - 1 ==> #[trigger] text[i] != '\''
}

/// Whether `text` is what a token of kind `rule` may hold.
pub open spec fn token_text(rule: Rule, text: Seq<char>) -> bool {
    match rule {
        Rule::Select => eq_ignore_ascii_case(text, "select"@),
        Rule::From => eq_ignore_ascii_case(text, "from"@),
        Rule::Where => eq_ignore_ascii_case(text, "where"@),
        Rule::Identifier => is_identifier(text),
        Rule::Star => text == seq!['*'],
        Rule::ComparisonOp => is_comparison(text),
        Rule::Number => is_number_text(text),
        Rule::StringLiteral => is_string_text(text),
        Rule::Boolean => eq_ignore_ascii_case(text, "true"@) || eq_ignore_ascii_case(
            text,
            "false"@,
        ),
        _ => false,
    }
}

/// Whether every node from index `from` on is of kind `rule`.
pub open spec fn all_of_rule(pairs: Seq<PairView>, from: int, rule: Rule) -> bool {
    forall|i: int| from <= i < pairs.len() ==> (#[trigger] pairs[i]).rule == rule
}

/// Whether the children of a node are those that its rule allows, by
/// number and by kind.
pub open spec fn children_allowed(rule: Rule, children: Seq<PairView>) -> bool {
    let n = children.len();
    match rule {
        Rule::Value => n == 1 && (children[0].rule == Rule::Number || children[0].rule
            == Rule::StringLiteral || children[0].rule == Rule::Boolean),
        Rule::Condition => {
            &&& 1 <= n <= 3
            &&& children[0].rule == Rule::Identifier
            &&& n >= 2 ==> children[1].rule == Rule::ComparisonOp
            &&& n >= 3 ==> children[2].rule == Rule::Value
        },
        Rule::WhereClause => {
            &&& 1 <= n <= 2
            &&& children[0].rule == Rule::Where
            &&& n >= 2 ==> children[1].rule == Rule::Condition
        },
        Rule::SelectItem => n <= 1 && (n == 1 ==> children[0].rule == Rule::FunctionCall
            || children[0].rule == Rule::Identifier || children[0].rule == Rule::Star),
        Rule::FunctionCall => n >= 2 && children[0].rule == Rule::Identifier && all_of_rule(
            children,
            1,
            Rule::SelectItem,
        ),
        Rule::SelectList => n >= 1 && all_of_rule(children, 0, Rule::SelectItem),
        Rule::Table => n <= 1 && (n == 1 ==> children[0].rule == Rule::Identifier
            || children[0].rule == Rule::SelectQuery),
        Rule::SelectQuery => {
            &&& 2 <= n <= 5
            &&& children[0].rule == Rule::Select
            &&& children[1].rule == Rule::SelectList
            &&& n == 3 ==> children[2].rule == Rule::WhereClause
            &&& n >= 4 ==> children[2].rule == Rule::From && children[3].rule == Rule::Table
            &&& n == 5 ==> children[4].rule == Rule::WhereClause
        },
        _ => n == 0,
    }
}

/// Whether a tree is one that the grammar can give: at every node the
/// children are those that the rule allows, a token holds the text of its
/// kind, and the children are such trees themselves.
pub open spec fn grammatical(pair: PairView) -> bool
    decreases pair,
{
    &&& children_allowed(pair.rule, pair.children)
    &&& pair.children.len() == 0 ==> pair.rule == Rule::SelectItem || pair.rule == Rule::Table
        || token_text(pair.rule, pair.text)
    &&& all_grammatical(pair.children)
}

/// Whether every tree of a sequence is one that the grammar can give.
pub open spec fn all_grammatical(pairs: Seq<PairView>) -> bool
    decreases pairs,
{
    pairs.len() == 0 || (all_grammatical(pairs.drop_last()) && grammatical(pairs.last()))
}

/// Whether a tree lacks nothing: every select item and every table holds
/// something, every condition goes as far as its value, every `WHERE`
/// clause holds a condition, every statement has its table, and every number
/// fits in 64 bits.
pub open spec fn complete(pair: PairView) -> bool
    decreases pair,
{
    &&& all_complete(pair.children)
    &&& match pair.rule {
        Rule::SelectItem => pair.children.len() == 1,
        Rule::Table => pair.children.len() == 1,
        Rule::Condition => pair.children.len() == 3,
        Rule::WhereClause => pair.children.len() == 2,
        Rule::SelectQuery => pair.children.len() >= 4,
        Rule::Number => i64_literal(pair.text) is Some,
        _ => true,
    }
}

/// Whether every tree of a sequence lacks nothing.
pub open spec fn all_complete(pairs: Seq<PairView>) -> bool
    decreases pairs,
{
    pairs.len() == 0 || (all_complete(pairs.drop_last()) && complete(pairs.last()))
}

/// The trees of a sequence lack nothing exactly when none of them does.
pub proof fn lemma_all_complete(pairs: Seq<PairView>)
    ensures
        all_complete(pairs) <==> forall|i: int|
            0 <= i < pairs.len() ==> complete(#[trigger] pairs[i]),
    decreases pairs.len(),
{
    if pairs.len() > 0 {
        lemma_all_complete(pairs.drop_last());
        if all_complete(pairs) {
            assert forall|i: int| 0 <= i < pairs.len() implies complete(#[trigger] pairs[i]) by {
                if i < pairs.len() - 1 {
                    assert(pairs.drop_last()[i] == pairs[i]);
                }
            }
        }
        if forall|i: int| 0 <= i < pairs.len() ==> complete(#[trigger] pairs[i]) {
            assert forall|i: int| 0 <= i < pairs.drop_last().len() implies complete(
                #[trigger] pairs.drop_last()[i],
            ) by {
                assert(pairs.drop_last()[i] == pairs[i]);
            }
        }
    }
}

/// A sequence of trees is of the grammar exactly when each of them is.
pub proof fn lemma_all_grammatical(pairs: Seq<PairView>)
    ensures
        all_grammatical(pairs) <==> forall|i: int|
            0 <= i < pairs.len() ==> grammatical(#[trigger] pairs[i]),
    decreases pairs.len(),
{
    if pairs.len() > 0 {
        lemma_all_grammatical(pairs.drop_last());
        if all_grammatical(pairs) {
            assert forall|i: int| 0 <= i < pairs.len() implies grammatical(
                #[trigger] pairs[i],
            ) by {
                if i < pairs.len() - 1 {
                    assert(pairs.drop_last()[i] == pairs[i]);
                }
            }
        }
        if forall|i: int| 0 <= i < pairs.len() ==> grammatical(#[trigger] pairs[i]) {
            assert forall|i: int| 0 <= i < pairs.drop_last().len() implies grammatical(
                #[trigger] pairs.drop_last()[i],
            ) by {
                assert(pairs.drop_last()[i] == pairs[i]);
            }
        }
    }
}

/// A token that the grammar gives holds the text of its kind.
pub proof fn lemma_tokens_grammatical(s: Seq<char>, pos: int)
    requires
        0 <= pos <= s.len(),
    ensures
        keyword(s, pos, Rule::Select, "select"@) matches Some((pair, _)) ==> grammatical(pair),
        keyword(s, pos, Rule::From, "from"@) matches Some((pair, _)) ==> grammatical(pair),
        keyword(s, pos, Rule::Where, "where"@) matches Some((pair, _)) ==> grammatical(pair),
        identifier(s, pos) matches Some((pair, _)) ==> grammatical(pair) && pair.rule
            == Rule::Identifier,
        star(s, pos) matches Some((pair, _)) ==> grammatical(pair) && pair.rule == Rule::Star,
        comparison_op(s, pos) matches Some((pair, _)) ==> grammatical(pair) && pair.rule
            == Rule::ComparisonOp,
        number(s, pos) matches Some((pair, _)) ==> grammatical(pair) && pair.rule == Rule::Number,
        string_literal(s, pos) matches Some((pair, _)) ==> grammatical(pair) && pair.rule
            == Rule::StringLiteral,
        boolean(s, pos) matches Some((pair, _)) ==> grammatical(pair) && pair.rule
            == Rule::Boolean,
{
    lemma_run_end_bounds(s, pos, CharClass::Whitespace);
    let start = skip_whitespace(s, pos);
    if start < s.len() {
        lemma_run_end_bounds(s, start + 1, CharClass::NamePart);
        lemma_run_end_holds(s, start + 1, CharClass::NamePart);
        lemma_run_end_bounds(s, start + 1, CharClass::NotQuote);
        lemma_run_end_holds(s, start + 1, CharClass::NotQuote);
        lemma_run_end_bounds(s, start + 1, CharClass::Digit);
        lemma_run_end_holds(s, start + 1, CharClass::Digit);
        lemma_run_end_bounds(s, start, CharClass::Digit);
        lemma_run_end_holds(s, start, CharClass::Digit);
    }
    match identifier(s, pos) {
        Some((pair, end)) => {
            assert(is_name(pair.text));
        },
        None => {},
    }
    match star(s, pos) {
        Some((pair, end)) => {
            assert(pair.text =~= seq!['*']);
        },
        None => {},
    }
    match comparison_op(s, pos) {
        Some((pair, end)) => {
            if end == start + 2 {
                assert(pair.text =~= seq![s[start], '=']);
            } else {
                assert(pair.text =~= seq![s[start]]);
            }
        },
        None => {},
    }
    match number(s, pos) {
        Some((pair, end)) => {
            if s[start] == '-' {
                assert(pair.text.subrange(1, pair.text.len() as int) =~= s.subrange(
                    start + 1,
                    end,
                ));
            }
        },
        None => {},
    }
}

/// A value, a condition and a `WHERE` clause that the grammar gives are of
/// the shape that their rules allow.
pub proof fn lemma_clauses_grammatical(s: Seq<char>, pos: int, nested: bool)
    requires
        0 <= pos <= s.len(),
    ensures
        value(s, pos) matches Some((pair, _)) ==> grammatical(pair) && pair.rule == Rule::Value,
        condition(s, pos, nested) matches Some((pair, _)) ==> grammatical(pair) && pair.rule
            == Rule::Condition,
        where_clause(s, pos, nested) matches Some((pair, _)) ==> grammatical(pair) && pair.rule
            == Rule::WhereClause,
{
    lemma_value_grammatical(s, pos);
    lemma_condition_grammatical(s, pos, nested);
    lemma_token_bounds(s, pos);
    lemma_tokens_grammatical(s, pos);
    match keyword(s, pos, Rule::Where, "where"@) {
        Some((word, e1)) => {
            lemma_condition_grammatical(s, e1, nested);
            match where_clause(s, pos, nested) {
                Some((pair, _)) => {
                    lemma_all_grammatical(pair.children);
                },
                None => {},
            }
        },
        None => {},
    }
}

/// A value that the grammar gives holds one literal.
pub proof fn lemma_value_grammatical(s: Seq<char>, pos: int)
    requires
        0 <= pos <= s.len(),
    ensures
        value(s, pos) matches Some((pair, _)) ==> grammatical(pair) && pair.rule == Rule::Value,
{
    lemma_tokens_grammatical(s, pos);
    match value(s, pos) {
        Some((pair, _)) => {
            lemma_all_grammatical(pair.children);
        },
        None => {},
    }
}

/// A condition that the grammar gives holds an operand, then an operator,
/// then a value, as far as it goes.
pub proof fn lemma_condition_grammatical(s: Seq<char>, pos: int, nested: bool)
    requires
        0 <= pos <= s.len(),
    ensures
        condition(s, pos, nested) matches Some((pair, _)) ==> grammatical(pair) && pair.rule
            == Rule::Condition,
{
    lemma_token_bounds(s, pos);
    lemma_tokens_grammatical(s, pos);
    match identifier(s, pos) {
        Some((left, e1)) => {
            lemma_token_bounds(s, e1);
            lemma_tokens_grammatical(s, e1);
            match comparison_op(s, e1) {
                Some((operator, e2)) => {
                    lemma_value_grammatical(s, e2);
                },
                None => {},
            }
            match condition(s, pos, nested) {
                Some((pair, _)) => {
                    lemma_all_grammatical(pair.children);
                },
                None => {},
            }
        },
        None => {},
    }
}

/// A select item that the grammar gives is empty or holds a call, a name or
/// the wildcard.
pub proof fn lemma_item_grammatical(s: Seq<char>, pos: int)
    requires
        0 <= pos <= s.len(),
    ensures
        grammatical(select_item(s, pos).0),
        select_item(s, pos).0.rule == Rule::SelectItem,
    decreases s.len() - pos, 1int,
{
    lemma_tokens_grammatical(s, pos);
    lemma_call_grammatical(s, pos);
    lemma_all_grammatical(select_item(s, pos).0.children);
}

/// The select items that the grammar adds to a sequence leave what the
/// sequence held in place, and they are select items of the grammar.
pub proof fn lemma_more_items_grammatical(s: Seq<char>, pos: int, items: Seq<PairView>, from: int)
    requires
        0 <= pos <= s.len(),
        0 <= from <= items.len(),
        all_grammatical(items),
        all_of_rule(items, from, Rule::SelectItem),
    ensures
        all_grammatical(more_items(s, pos, items).0),
        all_of_rule(more_items(s, pos, items).0, from, Rule::SelectItem),
        more_items(s, pos, items).0.len() >= items.len(),
        forall|i: int| 0 <= i < items.len() ==> more_items(s, pos, items).0[i] == items[i],
    decreases s.len() - pos, 0int,
{
    lemma_token_bounds(s, pos);
    match symbol(s, pos, ',') {
        Some(e1) => {
            lemma_item_bounds(s, e1);
            lemma_item_grammatical(s, e1);
            let (item, e2) = select_item(s, e1);
            let longer = items.push(item);
            assert(longer.drop_last() =~= items);
            lemma_more_items_grammatical(s, e2, longer, from);
            assert forall|i: int| 0 <= i < items.len() implies more_items(s, pos, items).0[i]
                == items[i] by {
                assert(longer[i] == items[i]);
            }
        },
        None => {},
    }
}

/// A function call that the grammar gives holds a name and one or more
/// select items.
pub proof fn lemma_call_grammatical(s: Seq<char>, pos: int)
    requires
        0 <= pos <= s.len(),
    ensures
        function_call(s, pos) matches Some((pair, _)) ==> grammatical(pair) && pair.rule
            == Rule::FunctionCall,
    decreases s.len() - pos, 0int,
{
    lemma_token_bounds(s, pos);
    lemma_tokens_grammatical(s, pos);
    match identifier(s, pos) {
        Some((name, e1)) => {
            lemma_token_bounds(s, e1);
            match symbol(s, e1, '(') {
                Some(e2) => {
                    lemma_item_bounds(s, e2);
                    lemma_item_grammatical(s, e2);
                    let (first, e3) = select_item(s, e2);
                    let head = seq![name, first];
                    lemma_all_grammatical(head);
                    lemma_more_items_grammatical(s, e3, head, 1);
                    let children = more_items(s, e3, head).0;
                    assert(children[0] == head[0]);
                },
                None => {},
            }
        },
        None => {},
    }
}

/// A select list that the grammar gives holds one or more select items.
pub proof fn lemma_list_grammatical(s: Seq<char>, pos: int)
    requires
        0 <= pos <= s.len(),
    ensures
        grammatical(select_list(s, pos).0),
        select_list(s, pos).0.rule == Rule::SelectList,
{
    lemma_item_bounds(s, pos);
    lemma_item_grammatical(s, pos);
    let (first, e1) = select_item(s, pos);
    lemma_all_grammatical(seq![first]);
    lemma_more_items_grammatical(s, e1, seq![first], 0);
}

/// A table that the grammar gives is empty or holds a name or a statement.
pub proof fn lemma_table_grammatical(s: Seq<char>, pos: int, nested: bool)
    requires
        0 <= pos <= s.len(),
    ensures
        table(s, pos, nested) matches Some((pair, _)) ==> grammatical(pair) && pair.rule
            == Rule::Table,
    decreases s.len() - pos, 0int,
{
    lemma_token_bounds(s, pos);
    lemma_tokens_grammatical(s, pos);
    match symbol(s, pos, '(') {
        Some(e1) => {
            lemma_query_grammatical(s, e1, true);
        },
        None => {},
    }
    match table(s, pos, nested) {
        Some((pair, _)) => {
            lemma_all_grammatical(pair.children);
        },
        None => {},
    }
}

/// The head of a statement that the grammar gives holds `SELECT` and a
/// select list, then `FROM` and a table where the keyword stands.
pub proof fn lemma_head_grammatical(s: Seq<char>, pos: int, nested: bool)
    requires
        0 <= pos <= s.len(),
    ensures
        query_head(s, pos, nested) matches Some((head, _)) ==> {
            &&& all_grammatical(head)
            &&& head.len() == 2 || head.len() == 4
            &&& head[0].rule == Rule::Select
            &&& head[1].rule == Rule::SelectList
            &&& head.len() == 4 ==> head[2].rule == Rule::From && head[3].rule == Rule::Table
        },
    decreases s.len() - pos, 0int,
{
    lemma_token_bounds(s, pos);
    lemma_tokens_grammatical(s, pos);
    match keyword(s, pos, Rule::Select, "select"@) {
        Some((word, e1)) => {
            lemma_list_bounds(s, e1);
            lemma_list_grammatical(s, e1);
            let (list, e2) = select_list(s, e1);
            lemma_token_bounds(s, e2);
            lemma_tokens_grammatical(s, e2);
            match keyword(s, e2, Rule::From, "from"@) {
                Some((from, e)) => {
                    lemma_table_bounds(s, e, nested);
                    lemma_table_grammatical(s, e, nested);
                },
                None => {},
            }
            match query_head(s, pos, nested) {
                Some((head, _)) => {
                    lemma_all_grammatical(head);
                },
                None => {},
            }
        },
        None => {},
    }
}

/// A statement that the grammar gives holds `SELECT` and a select list, then
/// `FROM` and a table where the keyword stands, then a `WHERE` clause
/// where one stands.
pub proof fn lemma_query_grammatical(s: Seq<char>, pos: int, nested: bool)
    requires
        0 <= pos <= s.len(),
    ensures
        select_query(s, pos, nested) matches Some((pair, _)) ==> grammatical(pair) && pair.rule
            == Rule::SelectQuery,
    decreases s.len() - pos, 1int,
{
    lemma_head_grammatical(s, pos, nested);
    match query_head(s, pos, nested) {
        Some((head, e1)) => {
            lemma_head_bounds(s, pos, nested);
            lemma_clauses_grammatical(s, e1, nested);
            lemma_all_grammatical(head);
            match select_query(s, pos, nested) {
                Some((pair, _)) => {
                    lemma_all_grammatical(pair.children);
                },
                None => {},
            }
        },
        None => {},
    }
}

/// Every tree that the grammar gives is of the shape that the rules allow.
pub proof fn lemma_rule_grammatical(rule: Rule, s: Seq<char>)
    ensures
        rule_at(rule, s, 0) matches Some((pair, _)) ==> grammatical(pair) && pair.rule == rule,
{
    lemma_tokens_grammatical(s, 0);
    lemma_clauses_grammatical(s, 0, false);
    lemma_item_grammatical(s, 0);
    lemma_call_grammatical(s, 0);
    lemma_list_grammatical(s, 0);
    lemma_table_grammatical(s, 0, false);
    lemma_query_grammatical(s, 0, false);
}

} // verus!
