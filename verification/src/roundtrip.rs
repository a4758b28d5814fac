//! Writing a statement out and parsing it back.
//!
//! The lemmas follow the grammar rule by rule: where the text of a part
//! stands in a text, and what follows it cannot be taken for more of the
//! part, the rule gives a tree that denotes the part. With them the law is
//! proved that a well-formed statement, written out, parses to itself.

use crate::ast::{
    item_well_formed, items_well_formed, lemma_items_well_formed, query_well_formed,
    table_well_formed, ConditionView, SelectItemView, SelectQueryView, TableView, ValueView,
};
use crate::builder::{
    condition_of, first_of_rule, query_of, query_parts, select_item_of, select_items_of,
    select_list_items, select_list_of, strip_delimiters, table_of, value_of, where_of,
};
use crate::error::ParseErrorView;
use crate::grammar::{
    alias_end, boolean, comparison_op, condition, function_call, identifier, keyword, leaf,
    more_items, node, number, query_head, run_end, select_item, select_list, select_query,
    skip_whitespace, star, string_literal, symbol, table, value, where_clause, word_end,
    CharClass,
};
use crate::number::{decimal, i64_literal, integer_literal, lemma_decimal_denotes};
use crate::render::{
    render_condition, render_filter, render_item, render_items, render_more_items, render_query,
    render_table, render_value, signed_decimal,
};
use crate::text::{
    eq_ignore_ascii_case, is_comparison, is_digit, is_identifier, is_name, is_name_part,
    is_whitespace,
};
use crate::tree::{PairView, Rule};
use vstd::prelude::*;

verus! {

/// Whether `text` stands in `s` at `pos`.
pub open spec fn stands_at(s: Seq<char>, pos: int, text: Seq<char>) -> bool {
    0 <= pos && pos + text.len() <= s.len() && s.subrange(pos, pos + text.len()) == text
}

/// A scan that meets characters of its class up to `end`, and there the end
/// of the text or a character that is not of the class, ends at `end`.
pub proof fn lemma_run_end_is(s: Seq<char>, pos: int, end: int, class: CharClass)
    requires
        0 <= pos <= end <= s.len(),
        forall|i: int| pos <= i < end ==> class.holds(#[trigger] s[i]),
        end < s.len() ==> !class.holds(s[end]),
    ensures
        run_end(s, pos, class) == end,
    decreases end - pos,
{
    if pos < end {
        lemma_run_end_is(s, pos + 1, end, class);
    }
}

/// A name that stands at `pos` and is not continued is the word at `pos`.
pub proof fn lemma_word_at(s: Seq<char>, pos: int, name: Seq<char>)
    requires
        stands_at(s, pos, name),
        is_name(name),
        pos + name.len() < s.len() ==> !is_name_part(s[pos + name.len()]),
    ensures
        skip_whitespace(s, pos) == pos,
        word_end(s, pos) == Some(pos + name.len()),
{
    let end = pos + name.len();
    assert forall|i: int| pos <= i < end implies is_name_part(#[trigger] s[i]) by {
        assert(s[i] == s.subrange(pos, end)[i - pos]);
    }
    assert(s[pos] == name[0]);
    lemma_run_end_is(s, pos + 1, end, CharClass::NamePart);
    lemma_run_end_is(s, pos, pos, CharClass::Whitespace);
}

/// Where a text of two parts stands, the first part stands, and the second
/// stands after it.
pub proof fn lemma_stands_at_parts(s: Seq<char>, pos: int, first: Seq<char>, second: Seq<char>)
    requires
        stands_at(s, pos, first + second),
    ensures
        stands_at(s, pos, first),
        stands_at(s, pos + first.len(), second),
{
    let whole = first + second;
    let end = pos + whole.len();
    assert(s.subrange(pos, pos + first.len()) =~= s.subrange(pos, end).subrange(
        0,
        first.len() as int,
    ));
    assert(s.subrange(pos + first.len(), end) =~= s.subrange(pos, end).subrange(
        first.len() as int,
        whole.len() as int,
    ));
    assert(whole.subrange(0, first.len() as int) =~= first);
    assert(whole.subrange(first.len() as int, whole.len() as int) =~= second);
}

/// Where a text stands, each of its characters stands.
pub proof fn lemma_stands_at_char(s: Seq<char>, pos: int, text: Seq<char>, i: int)
    requires
        stands_at(s, pos, text),
        0 <= i < text.len(),
    ensures
        s[pos + i] == text[i],
{
    assert(s[pos + i] == s.subrange(pos, pos + text.len())[i]);
}

/// A rule that is tried at a blank gives what it gives after the blank.
pub proof fn lemma_after_blank(s: Seq<char>, pos: int)
    requires
        0 <= pos < s.len(),
        is_whitespace(s[pos]),
    ensures
        skip_whitespace(s, pos) == skip_whitespace(s, pos + 1),
        forall|rule: Rule, word: Seq<char>| #[trigger]
            keyword(s, pos, rule, word) == keyword(s, pos + 1, rule, word),
        forall|c: char| #[trigger] symbol(s, pos, c) == symbol(s, pos + 1, c),
        identifier(s, pos) == identifier(s, pos + 1),
        comparison_op(s, pos) == comparison_op(s, pos + 1),
        value(s, pos) == value(s, pos + 1),
        forall|nested: bool| #[trigger] condition(s, pos, nested) == condition(s, pos + 1, nested),
        select_item(s, pos) == select_item(s, pos + 1),
        select_list(s, pos) == select_list(s, pos + 1),
        forall|nested: bool| #[trigger] table(s, pos, nested) == table(s, pos + 1, nested),
{
    assert(skip_whitespace(s, pos) == skip_whitespace(s, pos + 1));
    assert(identifier(s, pos) == identifier(s, pos + 1));
    assert(star(s, pos) == star(s, pos + 1));
    assert(symbol(s, pos, '*') == symbol(s, pos + 1, '*'));
    assert(symbol(s, pos, '(') == symbol(s, pos + 1, '('));
    assert(number(s, pos) == number(s, pos + 1));
    assert(string_literal(s, pos) == string_literal(s, pos + 1));
    assert(boolean(s, pos) == boolean(s, pos + 1));
    assert(function_call(s, pos) == function_call(s, pos + 1));
    assert(select_item(s, pos) == select_item(s, pos + 1));
}

/// Whether a word cannot go on at `pos`: the text ends there, or holds there
/// a character that no name holds.
pub open spec fn word_stops(s: Seq<char>, pos: int) -> bool {
    pos == s.len() || (0 <= pos < s.len() && !is_name_part(s[pos]))
}

/// A name that stands at `pos` and stops there is the identifier at `pos`.
pub proof fn lemma_identifier_at(s: Seq<char>, pos: int, name: Seq<char>)
    requires
        stands_at(s, pos, name),
        is_identifier(name),
        word_stops(s, pos + name.len()),
    ensures
        identifier(s, pos) == Some(
            (leaf(Rule::Identifier, s, pos, pos + name.len()), pos + name.len()),
        ),
        leaf(Rule::Identifier, s, pos, pos + name.len()).text == name,
{
    lemma_word_at(s, pos, name);
}

/// Written out, an integer denotes itself, and is made of digits after its
/// sign.
pub proof fn lemma_signed_decimal(n: int)
    ensures
        integer_literal(signed_decimal(n)) == Some(n),
        n < 0 ==> signed_decimal(n) == seq!['-'] + decimal((-n) as nat),
        n >= 0 ==> signed_decimal(n) == decimal(n as nat),
        n >= 0 ==> is_digit(signed_decimal(n)[0]),
{
    if n < 0 {
        let digits = decimal((-n) as nat);
        lemma_decimal_denotes((-n) as nat);
        let text = signed_decimal(n);
        assert(text.subrange(1, text.len() as int) =~= digits);
    } else {
        lemma_decimal_denotes(n as nat);
        assert(is_digit(decimal(n as nat)[0]));
    }
}

/// A number that stands at `pos`, with no digit after it, is the number at
/// `pos`, and denotes itself.
pub proof fn lemma_number_at(s: Seq<char>, pos: int, n: i64)
    requires
        stands_at(s, pos, signed_decimal(n as int)),
        pos + signed_decimal(n as int).len() < s.len() ==> !is_digit(
            s[pos + signed_decimal(n as int).len()],
        ),
    ensures
        number(s, pos) == Some(
            (
                leaf(Rule::Number, s, pos, pos + signed_decimal(n as int).len()),
                pos + signed_decimal(n as int).len(),
            ),
        ),
        i64_literal(leaf(Rule::Number, s, pos, pos + signed_decimal(n as int).len()).text)
            == Some(n),
{
    let text = signed_decimal(n as int);
    let end = pos + text.len();
    lemma_signed_decimal(n as int);
    lemma_decimal_denotes((-n) as nat);
    lemma_decimal_denotes(n as nat);
    lemma_stands_at_char(s, pos, text, 0);
    lemma_run_end_is(s, pos, pos, CharClass::Whitespace);
    let digits = if n < 0 {
        pos + 1
    } else {
        pos
    };
    assert forall|i: int| digits <= i < end implies is_digit(#[trigger] s[i]) by {
        lemma_stands_at_char(s, pos, text, i - pos);
        if n < 0 {
            assert(text[i - pos] == decimal((-n) as nat)[i - pos - 1]);
        }
    }
    lemma_run_end_is(s, digits, end, CharClass::Digit);
}

/// A string between quotes that stands at `pos` is the string literal at
/// `pos`, and what is between the quotes is what it denotes.
pub proof fn lemma_string_at(s: Seq<char>, pos: int, text: Seq<char>)
    requires
        stands_at(s, pos, seq!['\''] + text + seq!['\'']),
        forall|i: int| 0 <= i < text.len() ==> #[trigger] text[i] != '\'',
    ensures
        string_literal(s, pos) == Some(
            (leaf(Rule::StringLiteral, s, pos, pos + text.len() + 2), pos + text.len() + 2),
        ),
        strip_delimiters(leaf(Rule::StringLiteral, s, pos, pos + text.len() + 2).text) == text,
        number(s, pos) is None,
{
    let quoted = seq!['\''] + text + seq!['\''];
    let end = pos + text.len() + 2;
    lemma_stands_at_char(s, pos, quoted, 0);
    lemma_stands_at_char(s, pos, quoted, text.len() as int + 1);
    assert forall|i: int| pos + 1 <= i < end - 1 implies CharClass::NotQuote.holds(
        #[trigger] s[i],
    ) by {
        lemma_stands_at_char(s, pos, quoted, i - pos);
        assert(quoted[i - pos] == text[i - pos - 1]);
    }
    lemma_run_end_is(s, pos, pos, CharClass::Whitespace);
    lemma_run_end_is(s, pos + 1, end - 1, CharClass::NotQuote);
    lemma_run_end_is(s, pos, pos, CharClass::Digit);
    assert(strip_delimiters(s.subrange(pos, end)) =~= text);
}

/// The word `true` or `false` that stands at `pos` and stops there is the
/// boolean at `pos`, and denotes itself.
pub proof fn lemma_boolean_at(s: Seq<char>, pos: int, b: bool)
    requires
        stands_at(s, pos, render_value(ValueView::Boolean(b))),
        word_stops(s, pos + render_value(ValueView::Boolean(b)).len()),
    ensures
        boolean(s, pos) == Some(
            (
                leaf(Rule::Boolean, s, pos, pos + render_value(ValueView::Boolean(b)).len()),
                pos + render_value(ValueView::Boolean(b)).len(),
            ),
        ),
        eq_ignore_ascii_case(
            leaf(Rule::Boolean, s, pos, pos + render_value(ValueView::Boolean(b)).len()).text,
            "true"@,
        ) == b,
        number(s, pos) is None,
        string_literal(s, pos) is None,
{
    reveal_strlit("true");
    reveal_strlit("false");
    let word = render_value(ValueView::Boolean(b));
    lemma_stands_at_char(s, pos, word, 0);
    assert(is_name(word));
    lemma_word_at(s, pos, word);
    lemma_run_end_is(s, pos, pos, CharClass::Digit);
}

/// Whether the text ends at `pos` or goes on with a closing parenthesis.
pub open spec fn closes(s: Seq<char>, pos: int) -> bool {
    pos == s.len() || (0 <= pos < s.len() && s[pos] == ')')
}

/// A literal that stands at `pos`, before the end of the text or a closing
/// parenthesis, is the value at `pos`, and denotes itself.
pub proof fn lemma_value_at(s: Seq<char>, pos: int, v: ValueView)
    requires
        stands_at(s, pos, render_value(v)),
        v.well_formed(),
        closes(s, pos + render_value(v).len()),
    ensures
        value(s, pos) matches Some((tree, end)) && end == pos + render_value(v).len()
            && tree.rule == Rule::Value && value_of(tree) == Ok::<ValueView, ParseErrorView>(v),
{
    match v {
        ValueView::Number(n) => {
            lemma_number_at(s, pos, n);
        },
        ValueView::String(text) => {
            lemma_string_at(s, pos, text);
        },
        ValueView::Boolean(b) => {
            lemma_boolean_at(s, pos, b);
        },
    }
}

/// An operator that stands at `pos`, before a blank, is the comparison
/// operator at `pos`.
pub proof fn lemma_operator_at(s: Seq<char>, pos: int, operator: Seq<char>)
    requires
        stands_at(s, pos, operator),
        is_comparison(operator),
        pos + operator.len() < s.len(),
        s[pos + operator.len()] == ' ',
    ensures
        comparison_op(s, pos) == Some(
            (leaf(Rule::ComparisonOp, s, pos, pos + operator.len()), pos + operator.len()),
        ),
        leaf(Rule::ComparisonOp, s, pos, pos + operator.len()).text == operator,
{
    lemma_stands_at_char(s, pos, operator, 0);
    if operator.len() == 2 {
        lemma_stands_at_char(s, pos, operator, 1);
    }
    lemma_run_end_is(s, pos, pos, CharClass::Whitespace);
}

/// A comparison that stands at `pos`, before the end of the text or a
/// closing parenthesis, is the condition at `pos`, and denotes itself.
pub proof fn lemma_condition_at(s: Seq<char>, pos: int, c: ConditionView, nested: bool)
    requires
        stands_at(s, pos, render_condition(c)),
        c.well_formed(),
        closes(s, pos + render_condition(c).len()),
    ensures
        condition(s, pos, nested) matches Some((tree, end)) && end == pos + render_condition(
            c,
        ).len()
            && tree.rule == Rule::Condition && condition_of(tree) == Ok::<
            ConditionView,
            ParseErrorView,
        >(c),
{
    let blank = seq![' '];
    let value_text = render_value(c.right);
    let e1 = pos + c.left.len();
    let e2 = e1 + 1 + c.operator.len();
    let e3 = e2 + 1 + value_text.len();
    assert(render_condition(c) == c.left + (blank + (c.operator + (blank + value_text)))) by {
        assert(render_condition(c) =~= c.left + (blank + (c.operator + (blank + value_text))));
    }
    lemma_stands_at_parts(s, pos, c.left, blank + (c.operator + (blank + value_text)));
    lemma_stands_at_parts(s, e1, blank, c.operator + (blank + value_text));
    lemma_stands_at_parts(s, e1 + 1, c.operator, blank + value_text);
    lemma_stands_at_parts(s, e2, blank, value_text);
    lemma_stands_at_char(s, e1, blank, 0);
    lemma_stands_at_char(s, e2, blank, 0);
    lemma_identifier_at(s, pos, c.left);
    lemma_after_blank(s, e1);
    lemma_operator_at(s, e1 + 1, c.operator);
    lemma_after_blank(s, e2);
    lemma_value_at(s, e2 + 1, c.right);
}

/// A blank, `WHERE`, a blank and a comparison that stand at `pos`, before
/// the end of the text or a closing parenthesis, are the `WHERE` clause at
/// `pos`, which denotes the comparison.
pub proof fn lemma_where_at(s: Seq<char>, pos: int, c: ConditionView, nested: bool)
    requires
        stands_at(s, pos, " WHERE "@ + render_condition(c)),
        c.well_formed(),
        closes(s, pos + 7 + render_condition(c).len()),
    ensures
        where_clause(s, pos, nested) matches Some((tree, end)) && end == pos + 7 + render_condition(
            c,
        ).len() && tree.rule == Rule::WhereClause && where_of(tree) == Ok::<
            ConditionView,
            ParseErrorView,
        >(c),
{
    reveal_strlit(" WHERE ");
    reveal_strlit("where");
    let word = " WHERE "@;
    lemma_stands_at_parts(s, pos, word, render_condition(c));
    lemma_stands_at_char(s, pos, word, 0);
    lemma_stands_at_char(s, pos, word, 1);
    lemma_stands_at_char(s, pos, word, 2);
    lemma_stands_at_char(s, pos, word, 3);
    lemma_stands_at_char(s, pos, word, 4);
    lemma_stands_at_char(s, pos, word, 5);
    lemma_stands_at_char(s, pos, word, 6);
    lemma_run_end_is(s, pos, pos + 1, CharClass::Whitespace);
    lemma_run_end_is(s, pos + 2, pos + 6, CharClass::NamePart);
    assert(eq_ignore_ascii_case(s.subrange(pos + 1, pos + 6), "where"@));
    assert(keyword(s, pos, Rule::Where, "where"@) == Some(
        (leaf(Rule::Where, s, pos + 1, pos + 6), pos + 6),
    ));
    lemma_after_blank(s, pos + 6);
    lemma_condition_at(s, pos + 7, c, nested);
    let tree = where_clause(s, pos, nested).unwrap().0;
    assert(first_of_rule(tree.children, Rule::Condition, 1) == Some(1int));
}

/// Whether a list of items can end at `pos`: the text goes on with a
/// closing parenthesis, or with a blank and the letter `F`.
pub open spec fn list_stops(s: Seq<char>, pos: int) -> bool {
    0 <= pos < s.len() && (s[pos] == ')' || (s[pos] == ' ' && pos + 1 < s.len() && s[pos + 1]
        == 'F'))
}

/// Whether an item can end at `pos`: the text goes on with a comma, or the
/// list of items can end there.
pub open spec fn item_stops(s: Seq<char>, pos: int) -> bool {
    (0 <= pos < s.len() && s[pos] == ',') || list_stops(s, pos)
}

/// Where an item can end, no name goes on, and neither an opening
/// parenthesis nor, at the end of a list, a comma follows.
pub proof fn lemma_item_stops(s: Seq<char>, pos: int)
    requires
        item_stops(s, pos),
    ensures
        word_stops(s, pos),
        symbol(s, pos, '(') is None,
        list_stops(s, pos) ==> symbol(s, pos, ',') is None,
        s[pos] == ',' ==> symbol(s, pos, ',') == Some(pos + 1),
{
    if s[pos] == ' ' {
        lemma_run_end_is(s, pos, pos + 1, CharClass::Whitespace);
    } else {
        lemma_run_end_is(s, pos, pos, CharClass::Whitespace);
    }
}

/// Nodes that denote items one by one denote the items together.
pub proof fn lemma_items_of_each(pairs: Seq<PairView>, items: Seq<SelectItemView>)
    requires
        pairs.len() == items.len(),
        forall|i: int|
            0 <= i < pairs.len() ==> select_item_of(#[trigger] pairs[i]) == Ok::<
                SelectItemView,
                ParseErrorView,
            >(items[i]),
    ensures
        select_items_of(pairs) == Ok::<Seq<SelectItemView>, ParseErrorView>(items),
    decreases pairs.len(),
{
    if pairs.len() > 0 {
        let front = pairs.drop_last();
        assert forall|i: int| 0 <= i < front.len() implies select_item_of(#[trigger] front[i])
            == Ok::<SelectItemView, ParseErrorView>(items.drop_last()[i]) by {
            assert(front[i] == pairs[i]);
        }
        lemma_items_of_each(front, items.drop_last());
        assert(select_item_of(pairs[pairs.len() - 1]) == Ok::<SelectItemView, ParseErrorView>(
            items[pairs.len() - 1],
        ));
        assert(items.drop_last().push(items.last()) =~= items);
    } else {
        assert(items =~= Seq::empty());
    }
}

/// An item that stands at `pos`, where an item can end after it, is the
/// select item at `pos`, and denotes itself.
pub proof fn lemma_item_at(s: Seq<char>, pos: int, item: SelectItemView)
    requires
        stands_at(s, pos, render_item(item)),
        item_well_formed(item),
        item_stops(s, pos + render_item(item).len()),
    ensures
        select_item(s, pos).1 == pos + render_item(item).len(),
        select_item(s, pos).0.rule == Rule::SelectItem,
        select_item_of(select_item(s, pos).0) == Ok::<SelectItemView, ParseErrorView>(item),
    decreases item,
{
    let end = pos + render_item(item).len();
    lemma_item_stops(s, end);
    match item {
        SelectItemView::Column(name) => {
            if is_identifier(name) {
                lemma_identifier_at(s, pos, name);
                assert(function_call(s, pos) is None);
            } else {
                lemma_stands_at_char(s, pos, name, 0);
                lemma_run_end_is(s, pos, pos, CharClass::Whitespace);
                assert(identifier(s, pos) is None);
                assert(function_call(s, pos) is None);
                assert(star(s, pos) == Some((leaf(Rule::Star, s, pos, end), end)));
            }
        },
        SelectItemView::Function { name, arguments } => {
            let open = seq!['('];
            let close = seq![')'];
            let first = arguments.first();
            let rest = arguments.drop_first();
            let inner = render_items(arguments);
            let e1 = pos + name.len();
            let e2 = e1 + 1;
            let e3 = e2 + render_item(first).len();
            let e4 = e2 + inner.len();
            assert(render_item(item) == name + (open + (inner + close))) by {
                assert(render_item(item) =~= name + (open + (inner + close)));
            }
            lemma_stands_at_parts(s, pos, name, open + (inner + close));
            lemma_stands_at_parts(s, e1, open, inner + close);
            lemma_stands_at_parts(s, e2, inner, close);
            lemma_stands_at_parts(s, e2, render_item(first), render_more_items(rest));
            lemma_stands_at_char(s, e1, open, 0);
            lemma_stands_at_char(s, e4, close, 0);
            lemma_identifier_at(s, pos, name);
            lemma_run_end_is(s, e1, e1, CharClass::Whitespace);
            assert(symbol(s, e1, '(') == Some(e2));
            lemma_items_well_formed(arguments);
            assert(item_well_formed(first));
            assert forall|i: int| 0 <= i < rest.len() implies item_well_formed(
                #[trigger] rest[i],
            ) by {
                assert(rest[i] == arguments[i + 1]);
            }
            lemma_items_well_formed(rest);
            assert(item_stops(s, e3)) by {
                if rest.len() > 0 {
                    lemma_stands_at_char(s, e3, render_more_items(rest), 0);
                }
            }
            lemma_item_at(s, e2, first);
            let name_leaf = leaf(Rule::Identifier, s, pos, e1);
            let (first_tree, f3) = select_item(s, e2);
            let head = seq![name_leaf, first_tree];
            lemma_more_items_at(s, e3, rest, head);
            let (children, f4) = more_items(s, e3, head);
            lemma_run_end_is(s, e4, e4, CharClass::Whitespace);
            assert(symbol(s, e4, ')') == Some(e4 + 1));
            let call = node(Rule::FunctionCall, s, pos, end, children);
            assert(function_call(s, pos) == Some((call, end)));
            lemma_stands_at_char(s, pos, name, 0);
            lemma_run_end_is(s, pos, pos, CharClass::Whitespace);
            let trees = children.subrange(1, children.len() as int);
            assert forall|i: int| 0 <= i < trees.len() implies select_item_of(
                #[trigger] trees[i],
            ) == Ok::<SelectItemView, ParseErrorView>(arguments[i]) by {
                if i == 0 {
                    assert(trees[0] == children[1]);
                    assert(children[1] == head[1]);
                } else {
                    assert(trees[i] == children[head.len() + (i - 1)]);
                    assert(rest[i - 1] == arguments[i]);
                }
            }
            assert(children[0] == head[0]);
            lemma_items_of_each(trees, arguments);
        },
    }
}

/// The items that stand at `pos`, each after a comma and a blank, where a
/// list can end after them, are the select items that the grammar adds
/// there, and each denotes itself.
pub proof fn lemma_more_items_at(
    s: Seq<char>,
    pos: int,
    items: Seq<SelectItemView>,
    before: Seq<PairView>,
)
    requires
        stands_at(s, pos, render_more_items(items)),
        items_well_formed(items),
        list_stops(s, pos + render_more_items(items).len()),
    ensures
        more_items(s, pos, before).1 == pos + render_more_items(items).len(),
        more_items(s, pos, before).0.len() == before.len() + items.len(),
        forall|i: int| 0 <= i < before.len() ==> more_items(s, pos, before).0[i] == before[i],
        forall|i: int|
            0 <= i < items.len() ==> (#[trigger] more_items(s, pos, before).0[before.len()
                + i]).rule == Rule::SelectItem && select_item_of(
                more_items(s, pos, before).0[before.len() + i],
            ) == Ok::<SelectItemView, ParseErrorView>(items[i]),
    decreases items,
{
    let end = pos + render_more_items(items).len();
    if items.len() == 0 {
        lemma_item_stops(s, pos);
    } else {
        let comma = seq![',', ' '];
        let first = items.first();
        let rest = items.drop_first();
        let e1 = pos + 2;
        let e2 = e1 + render_item(first).len();
        assert(render_more_items(items) == comma + (render_item(first) + render_more_items(rest)))
            by {
            assert(render_more_items(items) =~= comma + (render_item(first) + render_more_items(
                rest,
            )));
        }
        lemma_stands_at_parts(s, pos, comma, render_item(first) + render_more_items(rest));
        lemma_stands_at_parts(s, e1, render_item(first), render_more_items(rest));
        lemma_stands_at_char(s, pos, comma, 0);
        lemma_stands_at_char(s, pos, comma, 1);
        lemma_run_end_is(s, pos, pos, CharClass::Whitespace);
        assert(symbol(s, pos, ',') == Some(pos + 1));
        lemma_items_well_formed(items);
        assert(item_well_formed(first));
        assert forall|i: int| 0 <= i < rest.len() implies item_well_formed(#[trigger] rest[i]) by {
            assert(rest[i] == items[i + 1]);
        }
        lemma_items_well_formed(rest);
        assert(item_stops(s, e2)) by {
            if rest.len() > 0 {
                lemma_stands_at_char(s, e2, render_more_items(rest), 0);
            }
        }
        lemma_after_blank(s, pos + 1);
        lemma_item_at(s, e1, first);
        let (tree, f2) = select_item(s, pos + 1);
        let longer = before.push(tree);
        lemma_more_items_at(s, e2, rest, longer);
        assert forall|i: int| 0 <= i < before.len() implies more_items(s, pos, before).0[i]
            == before[i] by {
            assert(longer[i] == before[i]);
        }
        assert forall|i: int| 0 <= i < items.len() implies (#[trigger] more_items(
            s,
            pos,
            before,
        ).0[before.len() + i]).rule == Rule::SelectItem && select_item_of(
            more_items(s, pos, before).0[before.len() + i],
        ) == Ok::<SelectItemView, ParseErrorView>(items[i]) by {
            if i == 0 {
                assert(longer[before.len() as int] == tree);
            } else {
                assert(rest[i - 1] == items[i]);
                assert(before.len() + i == longer.len() + (i - 1));
            }
        }
    }
}

/// Select item nodes that denote items one by one make a select list
/// that denotes the items.
pub proof fn lemma_list_of_each(pairs: Seq<PairView>, items: Seq<SelectItemView>)
    requires
        pairs.len() == items.len(),
        forall|i: int|
            0 <= i < pairs.len() ==> (#[trigger] pairs[i]).rule == Rule::SelectItem
                && select_item_of(pairs[i]) == Ok::<SelectItemView, ParseErrorView>(items[i]),
    ensures
        select_list_items(pairs) == Ok::<Seq<SelectItemView>, ParseErrorView>(items),
    decreases pairs.len(),
{
    if pairs.len() > 0 {
        let front = pairs.drop_last();
        assert forall|i: int| 0 <= i < front.len() implies (#[trigger] front[i]).rule
            == Rule::SelectItem && select_item_of(front[i]) == Ok::<
            SelectItemView,
            ParseErrorView,
        >(items.drop_last()[i]) by {
            assert(front[i] == pairs[i]);
        }
        lemma_list_of_each(front, items.drop_last());
        assert(pairs[pairs.len() - 1].rule == Rule::SelectItem);
        assert(items.drop_last().push(items.last()) =~= items);
    } else {
        assert(items =~= Seq::empty());
    }
}

/// The items that stand after a blank at `pos`, before a blank and the
/// letter `F`, are the select list at `pos`, which denotes the items.
pub proof fn lemma_list_at(s: Seq<char>, pos: int, items: Seq<SelectItemView>)
    requires
        0 <= pos < s.len(),
        s[pos] == ' ',
        items.len() >= 1,
        items_well_formed(items),
        stands_at(s, pos + 1, render_items(items)),
        list_stops(s, pos + 1 + render_items(items).len()),
    ensures
        select_list(s, pos).1 == pos + 1 + render_items(items).len(),
        select_list(s, pos).0.rule == Rule::SelectList,
        select_list_of(select_list(s, pos).0) == Ok::<Seq<SelectItemView>, ParseErrorView>(items),
{
    let first = items.first();
    let rest = items.drop_first();
    let at1 = pos + 1;
    let e1 = at1 + render_item(first).len();
    lemma_stands_at_parts(s, at1, render_item(first), render_more_items(rest));
    lemma_items_well_formed(items);
    assert(item_well_formed(first));
    assert forall|i: int| 0 <= i < rest.len() implies item_well_formed(#[trigger] rest[i]) by {
        assert(rest[i] == items[i + 1]);
    }
    lemma_items_well_formed(rest);
    assert(item_stops(s, e1)) by {
        if rest.len() > 0 {
            lemma_stands_at_char(s, e1, render_more_items(rest), 0);
        }
    }
    lemma_after_blank(s, pos);
    lemma_item_at(s, at1, first);
    let (tree, f1) = select_item(s, pos);
    lemma_more_items_at(s, e1, rest, seq![tree]);
    let children = more_items(s, e1, seq![tree]).0;
    assert forall|i: int| 0 <= i < children.len() implies (#[trigger] children[i]).rule
        == Rule::SelectItem && select_item_of(children[i]) == Ok::<
        SelectItemView,
        ParseErrorView,
    >(items[i]) by {
        if i == 0 {
            assert(children[0] == seq![tree][0]);
        } else {
            assert(children[i] == children[seq![tree].len() + (i - 1)]);
            assert(rest[i - 1] == items[i]);
        }
    }
    lemma_list_of_each(children, items);
}

/// A statement node that holds `SELECT`, a select list, `FROM`, a table
/// and, if there is a comparison, a `WHERE` clause denotes what these
/// denote.
pub proof fn lemma_statement_tree(
    tree: PairView,
    columns: Seq<SelectItemView>,
    target: TableView,
    filter: Option<ConditionView>,
)
    requires
        tree.children.len() == if filter is Some {
            5int
        } else {
            4int
        },
        tree.children[0].rule == Rule::Select,
        tree.children[1].rule == Rule::SelectList,
        tree.children[2].rule == Rule::From,
        tree.children[3].rule == Rule::Table,
        select_list_of(tree.children[1]) == Ok::<Seq<SelectItemView>, ParseErrorView>(columns),
        table_of(tree.children[3]) == Ok::<TableView, ParseErrorView>(target),
        filter matches Some(c) ==> tree.children[4].rule == Rule::WhereClause && where_of(
            tree.children[4],
        ) == Ok::<ConditionView, ParseErrorView>(c),
    ensures
        query_of(tree) == Ok::<SelectQueryView, ParseErrorView>(
            SelectQueryView { columns, table: target, where_clause: filter },
        ),
{
    let c = tree.children;
    assert(c.take(0).len() == 0);
    assert(c.take(1).drop_last() =~= c.take(0));
    assert(c.take(2).drop_last() =~= c.take(1));
    assert(c.take(3).drop_last() =~= c.take(2));
    assert(c.take(4).drop_last() =~= c.take(3));
    assert(query_parts(c.take(0)) is Ok);
    assert(query_parts(c.take(1)) is Ok);
    assert(query_parts(c.take(2)) is Ok);
    assert(query_parts(c.take(3)) is Ok);
    assert(query_parts(c.take(4)) is Ok);
    if filter is Some {
        assert(c.take(5).drop_last() =~= c.take(4));
        assert(c.take(5) =~= c);
        assert(query_parts(c.take(5)) is Ok);
    } else {
        assert(c.take(4) =~= c);
    }
}

/// Where `SELECT` and a blank stand, the keyword is recognised.
pub proof fn lemma_select_at(s: Seq<char>, pos: int)
    requires
        stands_at(s, pos, "SELECT "@),
    ensures
        keyword(s, pos, Rule::Select, "select"@) == Some(
            (leaf(Rule::Select, s, pos, pos + 6), pos + 6),
        ),
        skip_whitespace(s, pos) == pos,
        pos + 7 <= s.len(),
        s[pos + 6] == ' ',
{
    reveal_strlit("SELECT ");
    reveal_strlit("select");
    let word = "SELECT "@;
    lemma_stands_at_char(s, pos, word, 0);
    lemma_stands_at_char(s, pos, word, 1);
    lemma_stands_at_char(s, pos, word, 2);
    lemma_stands_at_char(s, pos, word, 3);
    lemma_stands_at_char(s, pos, word, 4);
    lemma_stands_at_char(s, pos, word, 5);
    lemma_stands_at_char(s, pos, word, 6);
    lemma_run_end_is(s, pos, pos, CharClass::Whitespace);
    lemma_run_end_is(s, pos + 1, pos + 6, CharClass::NamePart);
    assert(eq_ignore_ascii_case(s.subrange(pos, pos + 6), "select"@));
}

/// Where a blank, `FROM` and a blank stand, the keyword is recognised, and
/// no comma and no parenthesis.
pub proof fn lemma_from_at(s: Seq<char>, pos: int)
    requires
        stands_at(s, pos, " FROM "@),
    ensures
        keyword(s, pos, Rule::From, "from"@) == Some(
            (leaf(Rule::From, s, pos + 1, pos + 5), pos + 5),
        ),
        pos + 6 <= s.len(),
        s[pos] == ' ',
        s[pos + 1] == 'F',
        s[pos + 5] == ' ',
{
    reveal_strlit(" FROM ");
    reveal_strlit("from");
    let word = s.subrange(pos, pos + 6);
    assert(s[pos] == word[0] && s[pos + 1] == word[1] && s[pos + 2] == word[2] && s[pos + 3]
        == word[3] && s[pos + 4] == word[4] && s[pos + 5] == word[5]);
    lemma_run_end_is(s, pos, pos + 1, CharClass::Whitespace);
    lemma_run_end_is(s, pos + 2, pos + 5, CharClass::NamePart);
    assert(eq_ignore_ascii_case(s.subrange(pos + 1, pos + 5), "from"@));
}

/// Whether a table can end at `pos`: the text ends there, or goes on with
/// a closing parenthesis or with a blank, `WHERE` and a blank.
pub open spec fn table_stops(s: Seq<char>, pos: int) -> bool {
    closes(s, pos) || stands_at(s, pos, " WHERE "@)
}

/// Where a table can end, no name goes on and no alias follows.
pub proof fn lemma_table_stops(s: Seq<char>, pos: int)
    requires
        table_stops(s, pos),
    ensures
        word_stops(s, pos),
        alias_end(s, pos) == pos,
        closes(s, pos) ==> keyword(s, pos, Rule::Where, "where"@) is None,
{
    if closes(s, pos) {
        lemma_run_end_is(s, pos, pos, CharClass::Whitespace);
    } else {
        reveal_strlit(" WHERE ");
        reveal_strlit("where");
        let word = " WHERE "@;
        lemma_stands_at_char(s, pos, word, 0);
        lemma_stands_at_char(s, pos, word, 1);
        lemma_stands_at_char(s, pos, word, 2);
        lemma_stands_at_char(s, pos, word, 3);
        lemma_stands_at_char(s, pos, word, 4);
        lemma_stands_at_char(s, pos, word, 5);
        lemma_stands_at_char(s, pos, word, 6);
        lemma_run_end_is(s, pos, pos + 1, CharClass::Whitespace);
        lemma_run_end_is(s, pos + 2, pos + 6, CharClass::NamePart);
        assert(eq_ignore_ascii_case(s.subrange(pos + 1, pos + 6), "where"@));
        assert(identifier(s, pos) is None);
    }
}

/// The head of a statement whose parts are known, at any position: the
/// keyword, a select list after it, the keyword `FROM` after the list and
/// a table after that.
pub proof fn lemma_head_of_parts_at(
    s: Seq<char>,
    pos: int,
    list: PairView,
    list_end: int,
    from_end: int,
    target: PairView,
    end: int,
    nested: bool,
)
    requires
        keyword(s, pos, Rule::Select, "select"@) == Some(
            (leaf(Rule::Select, s, pos, pos + 6), pos + 6),
        ),
        select_list(s, pos + 6) == (list, list_end),
        keyword(s, list_end, Rule::From, "from"@) == Some(
            (leaf(Rule::From, s, list_end + 1, from_end), from_end),
        ),
        pos < from_end <= s.len(),
        table(s, from_end, nested) == Some((target, end)),
    ensures
        query_head(s, pos, nested) == Some(
            (
                seq![
                    leaf(Rule::Select, s, pos, pos + 6),
                    list,
                    leaf(Rule::From, s, list_end + 1, from_end),
                    target,
                ],
                end,
            ),
        ),
{
}

/// A table that stands at `pos`, where a table can end after it, is the
/// table at `pos`, and denotes itself.
pub proof fn lemma_table_at(s: Seq<char>, pos: int, target: TableView, nested: bool)
    requires
        stands_at(s, pos, render_table(target)),
        table_well_formed(target),
        table_stops(s, pos + render_table(target).len()),
    ensures
        table(s, pos, nested) matches Some((tree, end)) && end == pos + render_table(target).len()
            && tree.rule == Rule::Table && table_of(tree) == Ok::<TableView, ParseErrorView>(
            target,
        ),
    decreases target, 0int,
{
    let end = pos + render_table(target).len();
    lemma_table_stops(s, end);
    match target {
        TableView::Simple(name) => {
            lemma_identifier_at(s, pos, name);
            lemma_word_at(s, pos, name);
        },
        TableView::Subquery(query) => {
            let open = seq!['('];
            let close = seq![')'];
            let inner = render_query(*query);
            assert(render_table(target) == open + (inner + close)) by {
                assert(render_table(target) =~= open + (inner + close));
            }
            lemma_stands_at_parts(s, pos, open, inner + close);
            lemma_stands_at_parts(s, pos + 1, inner, close);
            lemma_stands_at_char(s, pos, open, 0);
            lemma_stands_at_char(s, end - 1, close, 0);
            lemma_run_end_is(s, pos, pos, CharClass::Whitespace);
            assert(identifier(s, pos) is None);
            assert(symbol(s, pos, '(') == Some(pos + 1));
            lemma_query_at(s, pos + 1, *query, true);
            lemma_run_end_is(s, end - 1, end - 1, CharClass::Whitespace);
            assert(symbol(s, end - 1, ')') == Some(end));
        },
    }
}

/// Where a statement stands, its parts stand one after the other: the
/// keyword, the items, `FROM`, the table and the comparison.
pub proof fn lemma_query_layout(s: Seq<char>, pos: int, query: SelectQueryView)
    requires
        stands_at(s, pos, render_query(query)),
    ensures
        render_query(query).len() == 13 + render_items(query.columns).len() + render_table(
            query.table,
        ).len() + render_filter(query).len(),
        stands_at(s, pos, "SELECT "@),
        stands_at(s, pos + 7, render_items(query.columns)),
        stands_at(s, pos + 7 + render_items(query.columns).len(), " FROM "@),
        stands_at(s, pos + 13 + render_items(query.columns).len(), render_table(query.table)),
        stands_at(
            s,
            pos + 13 + render_items(query.columns).len() + render_table(query.table).len(),
            render_filter(query),
        ),
{
    reveal_strlit("SELECT ");
    reveal_strlit(" FROM ");
    let select = "SELECT "@;
    let from = " FROM "@;
    let items = render_items(query.columns);
    let target = render_table(query.table);
    let filter = render_filter(query);
    let at1 = pos + 7;
    let at2 = at1 + items.len();
    let at3 = at2 + 6;
    assert(render_query(query) == select + (items + (from + (target + filter)))) by {
        assert(render_query(query) =~= select + (items + (from + (target + filter))));
    }
    lemma_stands_at_parts(s, pos, select, items + (from + (target + filter)));
    lemma_stands_at_parts(s, at1, items, from + (target + filter));
    lemma_stands_at_parts(s, at2, from, target + filter);
    lemma_stands_at_parts(s, at3, target, filter);
}

/// The part of a statement before its comparison that stands at `pos`,
/// where a table can end after it, is the head of the statement at `pos`:
/// the keyword, a select list that denotes the items, `FROM` and a table
/// that denotes the table.
pub proof fn lemma_head_at(s: Seq<char>, pos: int, query: SelectQueryView, nested: bool)
    requires
        stands_at(s, pos, "SELECT "@),
        stands_at(s, pos + 7, render_items(query.columns)),
        stands_at(s, pos + 7 + render_items(query.columns).len(), " FROM "@),
        stands_at(s, pos + 13 + render_items(query.columns).len(), render_table(query.table)),
        table_stops(
            s,
            pos + 13 + render_items(query.columns).len() + render_table(query.table).len(),
        ),
        query_well_formed(query),
    ensures
        query_head(s, pos, nested) is Some,
        query_head(s, pos, nested).unwrap().1 == pos + 13 + render_items(query.columns).len()
            + render_table(query.table).len(),
        is_head_of(query_head(s, pos, nested).unwrap().0, query),
    decreases query, 0int,
{
    let at2 = pos + 7 + render_items(query.columns).len();
    let at3 = at2 + 6;
    let at4 = at3 + render_table(query.table).len();
    lemma_select_at(s, pos);
    lemma_from_at(s, at2);
    lemma_list_at(s, pos + 6, query.columns);
    lemma_after_blank(s, at2 + 5);
    lemma_table_at(s, at3, query.table, nested);
    let (list, e2) = select_list(s, pos + 6);
    let (table_tree, e4) = table(s, at2 + 5, nested).unwrap();
    lemma_head_of_parts_at(s, pos, list, at2, at2 + 5, table_tree, at4, nested);
}

/// Whether `head` holds the keyword, a select list that denotes the items
/// of `query`, `FROM` and a table that denotes the table of `query`.
pub open spec fn is_head_of(head: Seq<PairView>, query: SelectQueryView) -> bool {
    &&& head.len() == 4
    &&& head[0].rule == Rule::Select
    &&& head[1].rule == Rule::SelectList
    &&& head[2].rule == Rule::From
    &&& head[3].rule == Rule::Table
    &&& select_list_of(head[1]) == Ok::<Seq<SelectItemView>, ParseErrorView>(query.columns)
    &&& table_of(head[3]) == Ok::<TableView, ParseErrorView>(query.table)
}

/// A statement that stands at `pos`, before the end of the text or a
/// closing parenthesis, is the statement at `pos`, and denotes itself.
pub proof fn lemma_query_at(s: Seq<char>, pos: int, query: SelectQueryView, nested: bool)
    requires
        stands_at(s, pos, render_query(query)),
        query_well_formed(query),
        closes(s, pos + render_query(query).len()),
    ensures
        select_query(s, pos, nested) matches Some((tree, end)) && end == pos + render_query(
            query,
        ).len() && tree.rule == Rule::SelectQuery && query_of(tree) == Ok::<
            SelectQueryView,
            ParseErrorView,
        >(query),
    decreases query, 1int,
{
    let at4 = pos + 13 + render_items(query.columns).len() + render_table(query.table).len();
    lemma_query_layout(s, pos, query);
    assert(table_stops(s, at4)) by {
        match query.where_clause {
            Some(c) => {
                reveal_strlit(" WHERE ");
                lemma_stands_at_parts(s, at4, " WHERE "@, render_condition(c));
            },
            None => {},
        }
    }
    lemma_head_at(s, pos, query, nested);
    lemma_table_stops(s, at4);
    match query.where_clause {
        Some(c) => {
            reveal_strlit(" WHERE ");
            lemma_where_at(s, at4, c, nested);
        },
        None => {},
    }
    let tree = select_query(s, pos, nested).unwrap().0;
    lemma_statement_tree(tree, query.columns, query.table, query.where_clause);
}

} // verus!
