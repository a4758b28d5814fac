//! The recognizer: the grammar run on a text.

use crate::grammar;
use crate::grammar::CharClass;
use crate::number::{decimal, decimal_text};
use crate::shape::{grammatical, lemma_rule_grammatical};
use crate::text::{
    ascii_lower, chars_of, digit, eq_ignore_ascii_case, lower, name_part, name_start, whitespace,
};
use crate::tree::{
    lemma_pair_view, lemma_pairs_view, lemma_pairs_view_push, pairs_view, Pair, PairView, Rule,
};
use vstd::prelude::*;
use vstd::string::{StrSliceExecFns, StringExecFns};

verus! {

broadcast use {lemma_pair_view, lemma_pairs_view};

/// A text with its characters laid out for indexing.
struct Source<'a> {
    text: &'a str,
    chars: Vec<char>,
}

impl<'a> View for Source<'a> {
    type V = Seq<char>;

    closed spec fn view(&self) -> Seq<char> {
        self.chars@
    }
}

impl<'a> Source<'a> {
    /// Whether the characters are those of the text.
    spec fn well_formed(&self) -> bool {
        self.chars@ == self.text@
    }

    /// Lays out the characters of `text`.
    fn new(text: &'a str) -> (src: Source<'a>)
        ensures
            src.well_formed(),
            src@ == text@,
    {
        Source { text, chars: chars_of(text) }
    }

    /// The number of characters.
    fn len(&self) -> (n: usize)
        ensures
            n == self@.len(),
    {
        self.chars.len()
    }

    /// The character at `i`.
    fn at(&self, i: usize) -> (c: char)
        requires
            i < self@.len(),
        ensures
            c == self@[i as int],
    {
        self.chars[i]
    }

    /// The text from `start` to `end`.
    fn slice(&self, start: usize, end: usize) -> (text: String)
        requires
            self.well_formed(),
            start <= end <= self@.len(),
        ensures
            text@ == self@.subrange(start as int, end as int),
    {
        String::from_str(self.text.substring_char(start, end))
    }

    /// A node over the text from `start` to `end`.
    fn node(&self, rule: Rule, start: usize, end: usize, children: Vec<Pair>) -> (pair: Pair)
        requires
            self.well_formed(),
            start <= end <= self@.len(),
        ensures
            pair@ == grammar::node(rule, self@, start as int, end as int, pairs_view(children@)),
    {
        Pair { rule, text: self.slice(start, end), children }
    }
}

/// The match of an executable recognizer as the grammar states it.
spec fn matched(r: Option<(Pair, usize)>) -> Option<(PairView, int)> {
    match r {
        Some((pair, end)) => Some((pair@, end as int)),
        None => None,
    }
}

impl CharClass {
    /// Whether `c` belongs to the class.
    pub fn has(self, c: char) -> (r: bool)
        ensures
            r == self.holds(c),
    {
        match self {
            CharClass::Whitespace => whitespace(c),
            CharClass::NamePart => name_part(c),
            CharClass::Digit => digit(c),
            CharClass::NotQuote => c != '\'',
        }
    }
}

/// Runs over the characters of `class` from `pos` on.
fn scan(src: &Source, pos: usize, class: CharClass) -> (end: usize)
    requires
        pos <= src@.len(),
    ensures
        end == grammar::run_end(src@, pos as int, class),
        pos <= end <= src@.len(),
{
    let n: usize = src.len();
    let mut end: usize = pos;
    while end < n && class.has(src.at(end))
        invariant
            pos <= end <= n,
            n == src@.len(),
            grammar::run_end(src@, pos as int, class) == grammar::run_end(src@, end as int, class),
        decreases n - end,
    {
        end += 1;
    }
    end
}

/// Whether the text from `start` to `end` is `word`, in any letter case.
fn range_is_word(src: &Source, start: usize, end: usize, word: &str) -> (r: bool)
    requires
        start <= end <= src@.len(),
    ensures
        r == eq_ignore_ascii_case(src@.subrange(start as int, end as int), word@),
{
    let n: usize = word.unicode_len();
    if end - start != n {
        return false;
    }
    let ghost range = src@.subrange(start as int, end as int);
    let mut i: usize = 0;
    while i < n
        invariant
            i <= n,
            n == word@.len(),
            n == end - start,
            start <= end <= src@.len(),
            range == src@.subrange(start as int, end as int),
            forall|j: int| 0 <= j < i ==> ascii_lower(#[trigger] range[j]) == ascii_lower(word@[j]),
        decreases n - i,
    {
        if lower(src.at(start + i)) != lower(word.get_char(i)) {
            assert(range[i as int] == src@[start + i]);
            return false;
        }
        assert(range[i as int] == src@[start + i]);
        i += 1;
    }
    true
}

/// The end of the word that starts at `start`.
fn word_end(src: &Source, start: usize) -> (r: Option<usize>)
    requires
        start <= src@.len(),
    ensures
        r matches Some(end) ==> grammar::word_end(src@, start as int) == Some(end as int) && start
            < end <= src@.len(),
        r is None ==> grammar::word_end(src@, start as int) is None,
{
    if start < src.len() && name_start(src.at(start)) {
        Some(scan(src, start + 1, CharClass::NamePart))
    } else {
        None
    }
}

/// Whether the text from `start` to `end` is a keyword.
fn range_is_reserved(src: &Source, start: usize, end: usize) -> (r: bool)
    requires
        start <= end <= src@.len(),
    ensures
        r == crate::text::is_reserved(src@.subrange(start as int, end as int)),
{
    range_is_word(src, start, end, "select") || range_is_word(src, start, end, "from")
        || range_is_word(src, start, end, "where")
}

/// Recognizes the keyword `word` as a node of kind `rule`.
fn keyword(src: &Source, pos: usize, rule: Rule, word: &str) -> (r: Option<(Pair, usize)>)
    requires
        src.well_formed(),
        pos <= src@.len(),
    ensures
        matched(r) == grammar::keyword(src@, pos as int, rule, word@),
{
    let start = scan(src, pos, CharClass::Whitespace);
    match word_end(src, start) {
        Some(end) => if range_is_word(src, start, end, word) {
            Some((src.node(rule, start, end, Vec::new()), end))
        } else {
            None
        },
        None => None,
    }
}

/// Recognizes a name.
fn identifier(src: &Source, pos: usize) -> (r: Option<(Pair, usize)>)
    requires
        src.well_formed(),
        pos <= src@.len(),
    ensures
        matched(r) == grammar::identifier(src@, pos as int),
{
    let start = scan(src, pos, CharClass::Whitespace);
    match word_end(src, start) {
        Some(end) => if range_is_reserved(src, start, end) {
            None
        } else {
            Some((src.node(Rule::Identifier, start, end, Vec::new()), end))
        },
        None => None,
    }
}

/// Recognizes the single character `c`.
fn symbol(src: &Source, pos: usize, c: char) -> (r: Option<usize>)
    requires
        pos <= src@.len(),
    ensures
        r matches Some(end) ==> grammar::symbol(src@, pos as int, c) == Some(end as int),
        r is None ==> grammar::symbol(src@, pos as int, c) is None,
{
    let start = scan(src, pos, CharClass::Whitespace);
    if start < src.len() && src.at(start) == c {
        Some(start + 1)
    } else {
        None
    }
}

/// Recognizes the wildcard.
fn star(src: &Source, pos: usize) -> (r: Option<(Pair, usize)>)
    requires
        src.well_formed(),
        pos <= src@.len(),
    ensures
        matched(r) == grammar::star(src@, pos as int),
{
    let start = scan(src, pos, CharClass::Whitespace);
    match symbol(src, pos, '*') {
        Some(end) => Some((src.node(Rule::Star, start, end, Vec::new()), end)),
        None => None,
    }
}

/// Recognizes a comparison operator.
fn comparison_op(src: &Source, pos: usize) -> (r: Option<(Pair, usize)>)
    requires
        src.well_formed(),
        pos <= src@.len(),
    ensures
        matched(r) == grammar::comparison_op(src@, pos as int),
{
    let n: usize = src.len();
    let start = scan(src, pos, CharClass::Whitespace);
    if start >= n {
        return None;
    }
    let first = src.at(start);
    if start + 1 < n && (first == '>' || first == '<' || first == '!') && src.at(start + 1)
        == '=' {
        Some((src.node(Rule::ComparisonOp, start, start + 2, Vec::new()), start + 2))
    } else if first == '=' || first == '>' || first == '<' {
        Some((src.node(Rule::ComparisonOp, start, start + 1, Vec::new()), start + 1))
    } else {
        None
    }
}

/// Recognizes an integer literal.
fn number(src: &Source, pos: usize) -> (r: Option<(Pair, usize)>)
    requires
        src.well_formed(),
        pos <= src@.len(),
    ensures
        matched(r) == grammar::number(src@, pos as int),
{
    let start = scan(src, pos, CharClass::Whitespace);
    let digits: usize = if start < src.len() && src.at(start) == '-' {
        start + 1
    } else {
        start
    };
    let end = scan(src, digits, CharClass::Digit);
    if end > digits {
        Some((src.node(Rule::Number, start, end, Vec::new()), end))
    } else {
        None
    }
}

/// Recognizes a string literal.
fn string_literal(src: &Source, pos: usize) -> (r: Option<(Pair, usize)>)
    requires
        src.well_formed(),
        pos <= src@.len(),
    ensures
        matched(r) == grammar::string_literal(src@, pos as int),
{
    let start = scan(src, pos, CharClass::Whitespace);
    if start < src.len() && src.at(start) == '\'' {
        let close = scan(src, start + 1, CharClass::NotQuote);
        if close < src.len() {
            Some((src.node(Rule::StringLiteral, start, close + 1, Vec::new()), close + 1))
        } else {
            None
        }
    } else {
        None
    }
}

/// Recognizes a boolean literal.
fn boolean(src: &Source, pos: usize) -> (r: Option<(Pair, usize)>)
    requires
        src.well_formed(),
        pos <= src@.len(),
    ensures
        matched(r) == grammar::boolean(src@, pos as int),
{
    let start = scan(src, pos, CharClass::Whitespace);
    match word_end(src, start) {
        Some(end) => if range_is_word(src, start, end, "true") || range_is_word(
            src,
            start,
            end,
            "false",
        ) {
            Some((src.node(Rule::Boolean, start, end, Vec::new()), end))
        } else {
            None
        },
        None => None,
    }
}

/// A vector that holds `pair` alone.
fn single(pair: Pair) -> (children: Vec<Pair>)
    ensures
        pairs_view(children@) == seq![pair@],
{
    let mut children: Vec<Pair> = Vec::new();
    children.push(pair);
    assert(pairs_view(children@) =~= seq![pair@]);
    children
}

/// Recognizes a value.
fn value(src: &Source, pos: usize) -> (r: Option<(Pair, usize)>)
    requires
        src.well_formed(),
        pos <= src@.len(),
    ensures
        matched(r) == grammar::value(src@, pos as int),
{
    proof {
        grammar::lemma_token_bounds(src@, pos as int);
    }
    let start = scan(src, pos, CharClass::Whitespace);
    let inner = match number(src, pos) {
        Some(found) => Some(found),
        None => match string_literal(src, pos) {
            Some(found) => Some(found),
            None => boolean(src, pos),
        },
    };
    match inner {
        Some((inner, end)) => Some((src.node(Rule::Value, start, end, single(inner)), end)),
        None => None,
    }
}

/// Whether a statement can end at `pos`.
fn ends_at(src: &Source, pos: usize, nested: bool) -> (r: bool)
    requires
        pos <= src@.len(),
    ensures
        r == grammar::ends_at(src@, pos as int, nested),
{
    let start = scan(src, pos, CharClass::Whitespace);
    if nested {
        start < src.len() && src.at(start) == ')'
    } else {
        start >= src.len()
    }
}

/// Recognizes a condition.
fn condition(src: &Source, pos: usize, nested: bool) -> (r: Option<(Pair, usize)>)
    requires
        src.well_formed(),
        pos <= src@.len(),
    ensures
        matched(r) == grammar::condition(src@, pos as int, nested),
{
    let start = scan(src, pos, CharClass::Whitespace);
    match identifier(src, pos) {
        Some((left, e1)) => {
            proof {
                grammar::lemma_token_bounds(src@, pos as int);
                grammar::lemma_token_bounds(src@, e1 as int);
            }
            let mut children: Vec<Pair> = Vec::new();
            children.push(left);
            match comparison_op(src, e1) {
                Some((operator, e2)) => {
                    proof {
                        grammar::lemma_clause_bounds(src@, e2 as int, nested);
                    }
                    children.push(operator);
                    match value(src, e2) {
                        Some((right, e3)) => {
                            children.push(right);
                            assert(pairs_view(children@) =~= seq![left@, operator@, right@]);
                            Some((src.node(Rule::Condition, start, e3, children), e3))
                        },
                        None => {
                            assert(pairs_view(children@) =~= seq![left@, operator@]);
                            if ends_at(src, e2, nested) {
                                Some((src.node(Rule::Condition, start, e2, children), e2))
                            } else {
                                None
                            }
                        },
                    }
                },
                None => {
                    assert(pairs_view(children@) =~= seq![left@]);
                    if ends_at(src, e1, nested) {
                        Some((src.node(Rule::Condition, start, e1, children), e1))
                    } else {
                        None
                    }
                },
            }
        },
        None => None,
    }
}

/// Recognizes a `WHERE` clause.
fn where_clause(src: &Source, pos: usize, nested: bool) -> (r: Option<(Pair, usize)>)
    requires
        src.well_formed(),
        pos <= src@.len(),
    ensures
        matched(r) == grammar::where_clause(src@, pos as int, nested),
{
    let start = scan(src, pos, CharClass::Whitespace);
    match keyword(src, pos, Rule::Where, "where") {
        Some((word, e1)) => {
            proof {
                grammar::lemma_token_bounds(src@, pos as int);
                grammar::lemma_clause_bounds(src@, e1 as int, nested);
            }
            let mut children: Vec<Pair> = Vec::new();
            children.push(word);
            match condition(src, e1, nested) {
                Some((inner, e2)) => {
                    children.push(inner);
                    assert(pairs_view(children@) =~= seq![word@, inner@]);
                    Some((src.node(Rule::WhereClause, start, e2, children), e2))
                },
                None => {
                    assert(pairs_view(children@) =~= seq![word@]);
                    if identifier(src, e1).is_none() && ends_at(src, e1, nested) {
                        Some((src.node(Rule::WhereClause, start, e1, children), e1))
                    } else {
                        None
                    }
                },
            }
        },
        None => None,
    }
}

/// Passes over the alias of a subquery, if there is one.
fn alias_end(src: &Source, pos: usize) -> (end: usize)
    requires
        src.well_formed(),
        pos <= src@.len(),
    ensures
        end == grammar::alias_end(src@, pos as int),
        pos <= end <= src@.len(),
{
    proof {
        grammar::lemma_clause_bounds(src@, pos as int, false);
        grammar::lemma_token_bounds(src@, pos as int);
    }
    match identifier(src, pos) {
        Some((first, e1)) => {
            if crate::text::str_eq_ignore_ascii_case(first.text.as_str(), "as") {
                match identifier(src, e1) {
                    Some((second, e2)) => e2,
                    None => e1,
                }
            } else {
                e1
            }
        },
        None => pos,
    }
}

/// Recognizes a select item.
fn select_item(src: &Source, pos: usize) -> (r: (Pair, usize))
    requires
        src.well_formed(),
        pos <= src@.len(),
    ensures
        (r.0@, r.1 as int) == grammar::select_item(src@, pos as int),
        pos <= r.1 <= src@.len(),
    decreases src@.len() - pos, 1int,
{
    proof {
        grammar::lemma_item_bounds(src@, pos as int);
        grammar::lemma_token_bounds(src@, pos as int);
    }
    let start = scan(src, pos, CharClass::Whitespace);
    match function_call(src, pos) {
        Some((call, end)) => (src.node(Rule::SelectItem, start, end, single(call)), end),
        None => match identifier(src, pos) {
            Some((inner, end)) => (src.node(Rule::SelectItem, start, end, single(inner)), end),
            None => match star(src, pos) {
                Some((inner, end)) => (src.node(Rule::SelectItem, start, end, single(inner)), end),
                None => (src.node(Rule::SelectItem, start, start, Vec::new()), start),
            },
        },
    }
}

/// Recognizes the select items that follow `items`, each after a comma.
fn more_items(src: &Source, pos: usize, items: Vec<Pair>) -> (r: (Vec<Pair>, usize))
    requires
        src.well_formed(),
        pos <= src@.len(),
    ensures
        (pairs_view(r.0@), r.1 as int) == grammar::more_items(
            src@,
            pos as int,
            pairs_view(items@),
        ),
        pos <= r.1 <= src@.len(),
    decreases src@.len() - pos, 0int,
{
    let ghost first = pairs_view(items@);
    let mut items = items;
    let mut at: usize = pos;
    loop
        invariant
            src.well_formed(),
            pos <= at <= src@.len(),
            grammar::more_items(src@, pos as int, first) == grammar::more_items(
                src@,
                at as int,
                pairs_view(items@),
            ),
        ensures
            (pairs_view(items@), at as int) == grammar::more_items(src@, pos as int, first),
            pos <= at <= src@.len(),
        decreases src@.len() - at,
    {
        proof {
            grammar::lemma_token_bounds(src@, at as int);
        }
        match symbol(src, at, ',') {
            Some(e1) => {
                proof {
                    grammar::lemma_item_bounds(src@, e1 as int);
                }
                let (item, e2) = select_item(src, e1);
                proof {
                    lemma_pairs_view_push(items@, item);
                }
                items.push(item);
                at = e2;
            },
            None => {
                break ;
            },
        }
    }
    (items, at)
}

/// Recognizes a function call.
fn function_call(src: &Source, pos: usize) -> (r: Option<(Pair, usize)>)
    requires
        src.well_formed(),
        pos <= src@.len(),
    ensures
        matched(r) == grammar::function_call(src@, pos as int),
    decreases src@.len() - pos, 0int,
{
    let start = scan(src, pos, CharClass::Whitespace);
    match identifier(src, pos) {
        Some((name, e1)) => {
            proof {
                grammar::lemma_token_bounds(src@, pos as int);
                grammar::lemma_token_bounds(src@, e1 as int);
            }
            match symbol(src, e1, '(') {
                Some(e2) => {
                    proof {
                        grammar::lemma_item_bounds(src@, e2 as int);
                    }
                    let (first, e3) = select_item(src, e2);
                    let mut children: Vec<Pair> = Vec::new();
                    children.push(name);
                    children.push(first);
                    assert(pairs_view(children@) =~= seq![name@, first@]);
                    let (children, e4) = more_items(src, e3, children);
                    proof {
                        grammar::lemma_token_bounds(src@, e4 as int);
                    }
                    match symbol(src, e4, ')') {
                        Some(e5) => Some((src.node(Rule::FunctionCall, start, e5, children), e5)),
                        None => None,
                    }
                },
                None => None,
            }
        },
        None => None,
    }
}

/// Recognizes a select list.
fn select_list(src: &Source, pos: usize) -> (r: (Pair, usize))
    requires
        src.well_formed(),
        pos <= src@.len(),
    ensures
        (r.0@, r.1 as int) == grammar::select_list(src@, pos as int),
        pos <= r.1 <= src@.len(),
    decreases src@.len() - pos, 2int,
{
    proof {
        grammar::lemma_item_bounds(src@, pos as int);
    }
    let start = scan(src, pos, CharClass::Whitespace);
    let (first, e1) = select_item(src, pos);
    let (items, e2) = more_items(src, e1, single(first));
    (src.node(Rule::SelectList, start, e2, items), e2)
}

/// Recognizes the target of `FROM`.
fn table(src: &Source, pos: usize, nested: bool) -> (r: Option<(Pair, usize)>)
    requires
        src.well_formed(),
        pos <= src@.len(),
    ensures
        matched(r) == grammar::table(src@, pos as int, nested),
    decreases src@.len() - pos, 0int,
{
    proof {
        grammar::lemma_table_bounds(src@, pos as int, nested);
        grammar::lemma_token_bounds(src@, pos as int);
    }
    let start = scan(src, pos, CharClass::Whitespace);
    match identifier(src, pos) {
        Some((name, end)) => {
            return Some((src.node(Rule::Table, start, end, single(name)), end));
        },
        None => {},
    }
    match symbol(src, pos, '(') {
        Some(e1) => {
            proof {
                grammar::lemma_query_bounds(src@, e1 as int, true);
            }
            match select_query(src, e1, true) {
                Some((query, e2)) => {
                    proof {
                        grammar::lemma_token_bounds(src@, e2 as int);
                    }
                    match symbol(src, e2, ')') {
                        Some(e3) => {
                            let end = alias_end(src, e3);
                            Some((src.node(Rule::Table, start, end, single(query)), end))
                        },
                        None => None,
                    }
                },
                None => None,
            }
        },
        None => {
            if ends_at(src, pos, nested) || keyword(src, pos, Rule::Where, "where").is_some() {
                Some((src.node(Rule::Table, start, start, Vec::new()), start))
            } else {
                None
            }
        },
    }
}

/// Recognizes a statement; `nested` says that it stands in parentheses.
fn select_query(src: &Source, pos: usize, nested: bool) -> (r: Option<(Pair, usize)>)
    requires
        src.well_formed(),
        pos <= src@.len(),
    ensures
        matched(r) == grammar::select_query(src@, pos as int, nested),
    decreases src@.len() - pos, 0int,
{
    let start = scan(src, pos, CharClass::Whitespace);
    match keyword(src, pos, Rule::Select, "select") {
        Some((word, e1)) => {
            proof {
                grammar::lemma_token_bounds(src@, pos as int);
                grammar::lemma_list_bounds(src@, e1 as int);
            }
            let (list, e2) = select_list(src, e1);
            let mut children: Vec<Pair> = Vec::new();
            children.push(word);
            children.push(list);
            assert(pairs_view(children@) =~= seq![word@, list@]);
            let mut end: usize = e2;
            proof {
                grammar::lemma_token_bounds(src@, e2 as int);
            }
            match keyword(src, e2, Rule::From, "from") {
                Some((from, e)) => {
                    proof {
                        grammar::lemma_table_bounds(src@, e as int, nested);
                    }
                    match table(src, e, nested) {
                        Some((target, e3)) => {
                            children.push(from);
                            children.push(target);
                            assert(pairs_view(children@) =~= seq![word@, list@, from@, target@]);
                            end = e3;
                        },
                        None => {
                            return None;
                        },
                    }
                },
                None => {
                    if !ends_at(src, e2, nested) {
                        return None;
                    }
                },
            }
            proof {
                grammar::lemma_clause_bounds(src@, end as int, nested);
            }
            if keyword(src, end, Rule::Where, "where").is_some() {
                match where_clause(src, end, nested) {
                    Some((clause, e4)) => {
                        proof {
                            lemma_pairs_view_push(children@, clause);
                        }
                        children.push(clause);
                        Some((src.node(Rule::SelectQuery, start, e4, children), e4))
                    },
                    None => None,
                }
            } else {
                Some((src.node(Rule::SelectQuery, start, end, children), end))
            }
        },
        None => None,
    }
}

/// Why a text was not recognised: the rule that did not match, and the
/// index of the character at which it was tried.
#[derive(Debug, Clone, Copy, PartialEq, Eq)]
pub struct SyntaxError {
    /// The index of the first character that is no blank.
    pub position: usize,
    /// The rule that did not match there.
    pub expected: Rule,
}

/// The diagnostic for a rule that did not match at a position.
pub open spec fn syntax_text(position: nat, expected: Rule) -> Seq<char> {
    "expected "@ + expected.spec_name() + " at position "@ + decimal(position)
}

impl SyntaxError {
    /// The diagnostic as text.
    pub fn message(&self) -> (text: String)
        ensures
            text@ == syntax_text(self.position as nat, self.expected),
    {
        let mut text = String::from_str("expected ");
        text.append(self.expected.name());
        text.append(" at position ");
        let position = decimal_text(self.position);
        text.append(position.as_str());
        text
    }
}

/// The recognizer of the grammar.
pub struct SQLParser;

impl SQLParser {
    /// Tries `rule` at the start of `input`. Gives the one node that the
    /// rule stands for, or says where it did not match. Text after the match
    /// is not looked at.
    pub fn parse(rule: Rule, input: &str) -> (r: Result<Vec<Pair>, SyntaxError>)
        ensures
            r matches Ok(pairs) ==> pairs@.len() == 1 && grammar::rule_at(rule, input@, 0) is Some
                && pairs@[0]@ == grammar::rule_at(rule, input@, 0).unwrap().0 && pairs@[0].rule
                == rule && grammatical(pairs@[0]@),
            r matches Err(e) ==> grammar::rule_at(rule, input@, 0) is None && e.expected == rule
                && e.position == grammar::skip_whitespace(input@, 0),
    {
        proof {
            lemma_rule_grammatical(rule, input@);
        }
        let src = Source::new(input);
        let found = match rule {
            Rule::SelectQuery => select_query(&src, 0, false),
            Rule::Select => keyword(&src, 0, Rule::Select, "select"),
            Rule::From => keyword(&src, 0, Rule::From, "from"),
            Rule::Where => keyword(&src, 0, Rule::Where, "where"),
            Rule::SelectList => Some(select_list(&src, 0)),
            Rule::SelectItem => Some(select_item(&src, 0)),
            Rule::FunctionCall => function_call(&src, 0),
            Rule::Identifier => identifier(&src, 0),
            Rule::Star => star(&src, 0),
            Rule::Table => table(&src, 0, false),
            Rule::WhereClause => where_clause(&src, 0, false),
            Rule::Condition => condition(&src, 0, false),
            Rule::ComparisonOp => comparison_op(&src, 0),
            Rule::Value => value(&src, 0),
            Rule::Number => number(&src, 0),
            Rule::StringLiteral => string_literal(&src, 0),
            Rule::Boolean => boolean(&src, 0),
        };
        match found {
            Some((pair, _)) => {
                let mut pairs: Vec<Pair> = Vec::new();
                pairs.push(pair);
                Ok(pairs)
            },
            None => Err(
                SyntaxError { position: scan(&src, 0, CharClass::Whitespace), expected: rule },
            ),
        }
    }
}

} // verus!
