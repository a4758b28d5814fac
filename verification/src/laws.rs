//! What holds of every parse.
//!
//! Parsing is a function of the text. What it builds is well formed, and
//! every well-formed statement is built from some text: from the one it is
//! written out as. A text that is no statement is a syntax error; a text
//! that is a statement but for a missing part is reported by that part.

use crate::ast::{
    lemma_items_well_formed, SelectItemView, SelectQuery, SelectQueryView, TableView,
};
use crate::builder::{query_of, select_item_of, select_list_items};
use crate::error::{result_view, ParseError, ParseErrorView};
use crate::grammar::{
    condition, ends_at, identifier, keyword, lemma_head_bounds, query_head, select_list,
    select_query, string_literal, symbol, table, where_clause,
};
use crate::invariants::{has_rule, is_gap, lemma_query_well_formed};
use crate::query_of_text;
use crate::render::{render_items, render_more_items, render_query};
use crate::roundtrip::lemma_query_at;
use crate::shape::{complete, lemma_query_grammatical};
use crate::text::is_identifier;
use crate::tree::{PairView, Rule};
use vstd::prelude::*;

verus! {

/// Parsing is a function of the text: the same text denotes the same
/// statement, or the same error, every time.
pub proof fn lemma_parse_deterministic(first: Seq<char>, second: Seq<char>)
    requires
        first == second,
    ensures
        query_of_text(first) == query_of_text(second),
{
}

/// Two results of parsing one text hold the same statement or the same
/// error.
pub proof fn lemma_parse_repeatable(
    input: Seq<char>,
    first: Result<SelectQuery, ParseError>,
    second: Result<SelectQuery, ParseError>,
)
    requires
        result_view(first) == query_of_text(input),
        result_view(second) == query_of_text(input),
    ensures
        result_view(first) == result_view(second),
        first matches Ok(a) ==> second matches Ok(b) && a@ == b@,
{
}

/// A statement that is parsed from a text is well formed, and so is every
/// statement nested in it: it has one or more items, a table, and a
/// comparison with one of the six operators if it has a comparison at all. A
/// text that does not parse is not recognised, lacks a part or holds a number
/// that does not fit.
pub proof fn lemma_parsed_query_well_formed(input: Seq<char>)
    ensures
        query_of_text(input) matches Ok(query) ==> query.well_formed(),
        query_of_text(input) matches Err(e) ==> e is ParsingError || is_gap(e),
{
    lemma_query_grammatical(input, 0, false);
    match select_query(input, 0, false) {
        Some((tree, _)) => {
            lemma_query_well_formed(tree);
        },
        None => {},
    }
}

/// A text is a syntax error exactly if the grammar recognises no statement
/// in it. Every other error says that a part of the statement is missing or
/// that a number does not fit.
pub proof fn lemma_syntax_error_iff_unrecognised(input: Seq<char>)
    ensures
        query_of_text(input) matches Err(e) ==> (e is ParsingError <==> select_query(
            input,
            0,
            false,
        ) is None),
        select_query(input, 0, false) is None ==> query_of_text(input) is Err,
{
    lemma_query_grammatical(input, 0, false);
    match select_query(input, 0, false) {
        Some((tree, _)) => {
            lemma_query_well_formed(tree);
        },
        None => {},
    }
}

/// Whether what a text denotes is a syntax error.
pub open spec fn is_syntax_error(r: Result<SelectQueryView, ParseErrorView>) -> bool {
    r matches Err(e) && e is ParsingError
}

/// A text in which the select list is followed by something other than
/// `FROM` or the end of the text is a syntax error, even if a table is named
/// further on. So is a text that does not begin with `SELECT`.
pub proof fn lemma_stray_token_is_syntax_error(input: Seq<char>)
    ensures
        keyword(input, 0, Rule::Select, "select"@) is None ==> is_syntax_error(
            query_of_text(input),
        ),
        keyword(input, 0, Rule::Select, "select"@) is Some ==> {
            let after_list = select_list(
                input,
                keyword(input, 0, Rule::Select, "select"@).unwrap().1,
            ).1;
            keyword(input, after_list, Rule::From, "from"@) is None && !ends_at(
                input,
                after_list,
                false,
            ) ==> is_syntax_error(query_of_text(input))
        },
{
}

/// A gap is taken only where the statement ends: a condition that stops
/// short, a `WHERE` clause without a condition and a statement without
/// `FROM` are recognised only before the end of the text or, in
/// parentheses, before the closing parenthesis; an empty table also before
/// `WHERE`.
pub proof fn lemma_gaps_end_the_statement(s: Seq<char>, pos: int, nested: bool)
    ensures
        condition(s, pos, nested) is Some && condition(s, pos, nested).unwrap().0.children.len()
            < 3 ==> ends_at(s, condition(s, pos, nested).unwrap().1, nested),
        where_clause(s, pos, nested) is Some && where_clause(
            s,
            pos,
            nested,
        ).unwrap().0.children.len() < 2 ==> ends_at(
            s,
            where_clause(s, pos, nested).unwrap().1,
            nested,
        ),
        table(s, pos, nested) is Some && table(s, pos, nested).unwrap().0.children.len() == 0
            ==> ends_at(s, pos, nested) || keyword(s, pos, Rule::Where, "where"@) is Some,
        query_head(s, pos, nested) is Some && query_head(s, pos, nested).unwrap().0.len() < 4
            ==> ends_at(s, query_head(s, pos, nested).unwrap().1, nested),
{
}

/// A parenthesis that is opened after `FROM` holds a statement and is
/// closed, and a quote that is opened is closed, or nothing is recognised.
pub proof fn lemma_opened_is_closed(s: Seq<char>, pos: int, nested: bool)
    ensures
        identifier(s, pos) is None && symbol(s, pos, '(') is Some && table(s, pos, nested)
            is Some ==> select_query(s, symbol(s, pos, '(').unwrap(), true) is Some && symbol(
            s,
            select_query(s, symbol(s, pos, '(').unwrap(), true).unwrap().1,
            ')',
        ) is Some,
        string_literal(s, pos) is Some ==> string_literal(s, pos).unwrap().0.text.len() >= 2
            && string_literal(s, pos).unwrap().0.text.last() == '\'',
{
    crate::grammar::lemma_token_bounds(s, pos);
    let start = crate::grammar::skip_whitespace(s, pos);
    if 0 <= start < s.len() {
        crate::grammar::lemma_run_end_bounds(s, start + 1, crate::grammar::CharClass::NotQuote);
        crate::grammar::lemma_run_end_holds(s, start + 1, crate::grammar::CharClass::NotQuote);
        match string_literal(s, pos) {
            Some((tree, end)) => {
                assert(tree.text.last() == s[end - 1]);
            },
            None => {},
        }
    }
}

/// A text parses exactly if the grammar recognises a statement in it and
/// the tree of that statement lacks nothing.
pub proof fn lemma_parses_iff_complete(input: Seq<char>)
    ensures
        query_of_text(input) is Ok <==> select_query(input, 0, false) is Some && complete(
            select_query(input, 0, false).unwrap().0,
        ),
{
    lemma_query_grammatical(input, 0, false);
    match select_query(input, 0, false) {
        Some((tree, _)) => {
            lemma_query_well_formed(tree);
        },
        None => {},
    }
}

/// A statement that is parsed from a text has a comparison exactly if the
/// keyword `WHERE` stands in the text after the select list and the `FROM`
/// target.
pub proof fn lemma_where_clause_iff_keyword(input: Seq<char>)
    ensures
        query_of_text(input) matches Ok(query) ==> query_head(input, 0, false) is Some && (
        query.where_clause is Some <==> keyword(
            input,
            query_head(input, 0, false).unwrap().1,
            Rule::Where,
            "where"@,
        ) is Some),
{
    lemma_query_grammatical(input, 0, false);
    match select_query(input, 0, false) {
        Some((tree, _)) => {
            lemma_query_well_formed(tree);
            let (head, end) = query_head(input, 0, false).unwrap();
            if has_rule(tree.children, Rule::WhereClause) {
                let i = choose|i: int|
                    0 <= i < tree.children.len() && (#[trigger] tree.children[i]).rule
                        == Rule::WhereClause;
                assert(where_clause(input, end, false) is Some);
            }
            if where_clause(input, end, false) is Some {
                assert(tree.children[tree.children.len() - 1].rule == Rule::WhereClause) by {
                    lemma_head_bounds(input, 0, false);
                    crate::shape::lemma_clauses_grammatical(input, end, false);
                }
            }
        },
        None => {},
    }
}

/// The columns of a statement that is parsed from a text are those of the
/// select list after the keyword `SELECT`: one for each select item of the
/// list, in the order of the list.
pub proof fn lemma_columns_follow_select_list(input: Seq<char>)
    ensures
        query_of_text(input) matches Ok(query) ==> keyword(input, 0, Rule::Select, "select"@)
            matches Some((_, end)) && {
            let list = select_list(input, end).0;
            &&& query.columns.len() == list.children.len()
            &&& forall|i: int|
                0 <= i < list.children.len() ==> select_item_of(#[trigger] list.children[i])
                    == Ok::<SelectItemView, ParseErrorView>(query.columns[i])
        },
{
    match select_query(input, 0, false) {
        Some((tree, _)) => {
            if query_of(tree) is Ok {
                let query = query_of(tree)->Ok_0;
                let end = keyword(input, 0, Rule::Select, "select"@).unwrap().1;
                let list = select_list(input, end).0;
                lemma_query_grammatical(input, 0, false);
                lemma_columns_of_tree(tree);
                assert(tree.children[1] == list);
                crate::grammar::lemma_token_bounds(input, 0);
                crate::shape::lemma_list_grammatical(input, end);
                crate::shape::lemma_all_grammatical(list.children);
                lemma_each_of_list(list.children);
            }
        },
        None => {},
    }
}

/// A statement node of the grammar denotes the columns of its select list.
pub proof fn lemma_columns_of_tree(tree: PairView)
    requires
        crate::shape::grammatical(tree),
        tree.rule == Rule::SelectQuery,
    ensures
        query_of(tree) matches Ok(query) ==> select_list_items(tree.children[1].children) == Ok::<
            Seq<SelectItemView>,
            ParseErrorView,
        >(query.columns),
{
    let c = tree.children;
    let n = c.len() as int;
    assert(c.take(0).len() == 0);
    assert(c.take(1).drop_last() =~= c.take(0));
    assert(c.take(2).drop_last() =~= c.take(1));
    assert(c.take(n) =~= c);
    if n >= 3 {
        assert(c.take(3).drop_last() =~= c.take(2));
    }
    if n >= 4 {
        assert(c.take(4).drop_last() =~= c.take(3));
    }
    if n >= 5 {
        assert(c.take(5).drop_last() =~= c.take(4));
    }
    if query_of(tree) is Ok {
        crate::builder::lemma_query_parts_ok_prefix(c, 0);
        crate::builder::lemma_query_parts_ok_prefix(c, 1);
        crate::builder::lemma_query_parts_ok_prefix(c, 2);
        if n >= 3 {
            crate::builder::lemma_query_parts_ok_prefix(c, 3);
        }
        if n >= 4 {
            crate::builder::lemma_query_parts_ok_prefix(c, 4);
        }
    }
}

/// A select list that denotes items denotes, at each place, the item of the
/// child at that place.
pub proof fn lemma_each_of_list(children: Seq<PairView>)
    ensures
        select_list_items(children) matches Ok(items) ==> items.len() == children.len()
            && forall|i: int|
            0 <= i < children.len() ==> select_item_of(#[trigger] children[i]) == Ok::<
                SelectItemView,
                ParseErrorView,
            >(items[i]),
    decreases children.len(),
{
    if children.len() > 0 {
        lemma_each_of_list(children.drop_last());
        match select_list_items(children) {
            Ok(items) => {
                let front = select_list_items(children.drop_last())->Ok_0;
                assert forall|i: int| 0 <= i < children.len() implies select_item_of(
                    #[trigger] children[i],
                ) == Ok::<SelectItemView, ParseErrorView>(items[i]) by {
                    if i < children.len() - 1 {
                        assert(children.drop_last()[i] == children[i]);
                        assert(items[i] == front[i]);
                    }
                }
            },
            Err(e) => {},
        }
    }
}

/// Whether a select item node holds a plain column: a name or the wildcard.
pub open spec fn is_plain_column(pair: PairView) -> bool {
    pair.rule == Rule::SelectItem && pair.children.len() >= 1 && (pair.children[0].rule
        == Rule::Identifier || pair.children[0].rule == Rule::Star)
}

/// The column that a plain column node denotes.
pub open spec fn plain_column(pair: PairView) -> SelectItemView {
    if pair.children[0].rule == Rule::Star {
        SelectItemView::Column(seq!['*'])
    } else {
        SelectItemView::Column(pair.children[0].text)
    }
}

/// A select list of plain columns denotes as many columns as it has
/// children, each with the name that stands in the text, in the order of the
/// text.
pub proof fn lemma_plain_columns(children: Seq<PairView>)
    requires
        forall|i: int| 0 <= i < children.len() ==> is_plain_column(#[trigger] children[i]),
    ensures
        select_list_items(children) matches Ok(items) && items.len() == children.len()
            && forall|i: int|
            0 <= i < children.len() ==> #[trigger] items[i] == plain_column(children[i]),
    decreases children.len(),
{
    if children.len() > 0 {
        let front = children.drop_last();
        assert forall|i: int| 0 <= i < front.len() implies is_plain_column(
            #[trigger] front[i],
        ) by {
            assert(front[i] == children[i]);
        }
        lemma_plain_columns(front);
        assert(is_plain_column(children[children.len() - 1]));
    }
}

/// A well-formed statement, written out, parses to itself.
pub proof fn lemma_render_parses(query: SelectQueryView)
    requires
        query.well_formed(),
    ensures
        query_of_text(render_query(query)) == Ok::<SelectQueryView, ParseErrorView>(query),
{
    let s = render_query(query);
    assert(s.subrange(0, s.len() as int) =~= s);
    lemma_query_at(s, 0, query, false);
}

/// Whether `name` is what a plain column is written as: a name that is no
/// keyword, or the wildcard.
pub open spec fn is_column_text(name: Seq<char>) -> bool {
    is_identifier(name) || name == seq!['*']
}

/// The names, with a comma and a blank between one and the next.
pub open spec fn names_text(names: Seq<Seq<char>>) -> Seq<char>
    decreases names.len(),
{
    if names.len() == 0 {
        Seq::empty()
    } else if names.len() == 1 {
        names[0]
    } else {
        names[0] + seq![',', ' '] + names_text(names.drop_first())
    }
}

/// The text that selects the columns `names` from the table `table_name`:
/// `SELECT a, b, c FROM t`.
pub open spec fn plain_select(names: Seq<Seq<char>>, table_name: Seq<char>) -> Seq<char> {
    "SELECT "@ + names_text(names) + " FROM "@ + table_name
}

/// The statement that selects the columns `names` from the table
/// `table_name`, without a comparison.
pub open spec fn plain_query(names: Seq<Seq<char>>, table_name: Seq<char>) -> SelectQueryView {
    SelectQueryView {
        columns: Seq::new(names.len(), |i: int| SelectItemView::Column(names[i])),
        table: TableView::Simple(table_name),
        where_clause: None,
    }
}

/// A text that selects one or more plain columns from a table parses to a
/// statement with as many columns as were written, each with its name, in
/// the order they were written in.
pub proof fn lemma_plain_select_parses(names: Seq<Seq<char>>, table_name: Seq<char>)
    requires
        names.len() >= 1,
        forall|i: int| 0 <= i < names.len() ==> is_column_text(#[trigger] names[i]),
        is_identifier(table_name),
    ensures
        query_of_text(plain_select(names, table_name)) == Ok::<SelectQueryView, ParseErrorView>(
            plain_query(names, table_name),
        ),
        plain_query(names, table_name).columns.len() == names.len(),
        forall|i: int|
            0 <= i < names.len() ==> #[trigger] plain_query(names, table_name).columns[i]
                == SelectItemView::Column(names[i]),
{
    let query = plain_query(names, table_name);
    lemma_items_well_formed(query.columns);
    lemma_render_parses(query);
    lemma_names_text(names);
    assert(render_query(query) =~= plain_select(names, table_name));
}

/// Plain columns are written as their names, with a comma and a blank
/// between one and the next.
pub proof fn lemma_names_text(names: Seq<Seq<char>>)
    ensures
        render_items(Seq::new(names.len(), |i: int| SelectItemView::Column(names[i])))
            == names_text(names),
        names.len() > 0 ==> render_more_items(
            Seq::new(names.len(), |i: int| SelectItemView::Column(names[i])),
        ) == seq![',', ' '] + names_text(names),
    decreases names.len(),
{
    let columns = Seq::new(names.len(), |i: int| SelectItemView::Column(names[i]));
    if names.len() > 0 {
        let rest = names.drop_first();
        let rest_columns = Seq::new(rest.len(), |i: int| SelectItemView::Column(rest[i]));
        assert(columns.drop_first() =~= rest_columns);
        lemma_names_text(rest);
        assert(render_items(columns) =~= names_text(names));
        assert(render_more_items(columns) =~= seq![',', ' '] + names_text(names));
    }
}

} // verus!
