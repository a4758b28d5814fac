//! The grammar of the supported statements, as functions on a sequence of
//! characters.
//!
//! Every rule is tried at a position of the text and, where it matches, gives
//! the node it stands for and the position after the match. Blanks before a
//! token are passed over. A choice takes its first alternative that matches,
//! and a repetition takes as many items as it can. Text after a whole
//! statement is not looked at.
//!
//! ```text
//! select_query  := SELECT select_list FROM table where_clause?
//! select_list   := select_item (',' select_item)*
//! select_item   := function_call | identifier | '*'
//! function_call := identifier '(' select_item (',' select_item)* ')'
//! table         := identifier | '(' select_query ')' alias?
//! alias         := 'AS' identifier | identifier
//! where_clause  := WHERE condition
//! condition     := identifier comparison_op value
//! value         := number | string | boolean
//! ```
//!
//! A statement that lacks a part is recognised all the same, so that the
//! builder can say which part is missing: a select item may be empty, the
//! statement may end after its select list, the table may be empty, and the
//! condition may be missing or stop after its operand or its operator. Such
//! a gap is taken only where the statement ends: at the end of the text or,
//! for a statement in parentheses, at the closing parenthesis. An empty
//! select item is also taken before a comma and before the closing
//! parenthesis of a call, and an empty table before `WHERE`. Where the text
//! goes on with anything else, or a parenthesis or a quote is never closed,
//! no statement is recognised.

use crate::text::{
    eq_ignore_ascii_case, is_digit, is_name_part, is_name_start, is_reserved, is_whitespace,
};
use crate::tree::{PairView, Rule};
use vstd::prelude::*;

verus! {

/// A set of characters that a scan runs over.
#[derive(Debug, Clone, Copy, PartialEq, Eq, Structural)]
pub enum CharClass {
    /// The blanks between tokens.
    Whitespace,
    /// What a name may hold after its first character.
    NamePart,
    /// The decimal digits.
    Digit,
    /// Everything but the single quote.
    NotQuote,
}

impl CharClass {
    /// Whether `c` belongs to the class.
    pub open spec fn holds(self, c: char) -> bool {
        match self {
            CharClass::Whitespace => is_whitespace(c),
            CharClass::NamePart => is_name_part(c),
            CharClass::Digit => is_digit(c),
            CharClass::NotQuote => c != '\'',
        }
    }
}

/// The first position from `pos` on that holds no character of `class`; the
/// length of the text if there is none.
pub open spec fn run_end(s: Seq<char>, pos: int, class: CharClass) -> int
    decreases s.len() - pos,
{
    if 0 <= pos < s.len() && class.holds(s[pos]) {
        run_end(s, pos + 1, class)
    } else {
        pos
    }
}

/// The position of the first character from `pos` on that is no blank.
pub open spec fn skip_whitespace(s: Seq<char>, pos: int) -> int {
    run_end(s, pos, CharClass::Whitespace)
}

/// A node without children over the text from `start` to `end`.
pub open spec fn leaf(rule: Rule, s: Seq<char>, start: int, end: int) -> PairView {
    PairView { rule, text: s.subrange(start, end), children: Seq::empty() }
}

/// A node over the text from `start` to `end`.
pub open spec fn node(
    rule: Rule,
    s: Seq<char>,
    start: int,
    end: int,
    children: Seq<PairView>,
) -> PairView {
    PairView { rule, text: s.subrange(start, end), children }
}

/// The end of the word that starts at `start`: a letter or underscore, then
/// as many letters, digits and underscores as follow.
pub open spec fn word_end(s: Seq<char>, start: int) -> Option<int> {
    if 0 <= start < s.len() && is_name_start(s[start]) {
        Some(run_end(s, start + 1, CharClass::NamePart))
    } else {
        None
    }
}

/// The keyword `word`, in any letter case, as a node of kind `rule`.
pub open spec fn keyword(s: Seq<char>, pos: int, rule: Rule, word: Seq<char>) -> Option<
    (PairView, int),
> {
    let start = skip_whitespace(s, pos);
    match word_end(s, start) {
        Some(end) => if eq_ignore_ascii_case(s.subrange(start, end), word) {
            Some((leaf(rule, s, start, end), end))
        } else {
            None
        },
        None => None,
    }
}

/// A name: a word that is no keyword.
pub open spec fn identifier(s: Seq<char>, pos: int) -> Option<(PairView, int)> {
    let start = skip_whitespace(s, pos);
    match word_end(s, start) {
        Some(end) => if is_reserved(s.subrange(start, end)) {
            None
        } else {
            Some((leaf(Rule::Identifier, s, start, end), end))
        },
        None => None,
    }
}

/// The single character `c`; gives the position after it.
pub open spec fn symbol(s: Seq<char>, pos: int, c: char) -> Option<int> {
    let start = skip_whitespace(s, pos);
    if 0 <= start < s.len() && s[start] == c {
        Some(start + 1)
    } else {
        None
    }
}

/// The wildcard `*`.
pub open spec fn star(s: Seq<char>, pos: int) -> Option<(PairView, int)> {
    let start = skip_whitespace(s, pos);
    match symbol(s, pos, '*') {
        Some(end) => Some((leaf(Rule::Star, s, start, end), end)),
        None => None,
    }
}

/// A comparison operator: `>=`, `<=` or `!=`, else `=`, `>` or `<`.
pub open spec fn comparison_op(s: Seq<char>, pos: int) -> Option<(PairView, int)> {
    let start = skip_whitespace(s, pos);
    if 0 <= start && start + 1 < s.len() && (s[start] == '>' || s[start] == '<' || s[start] == '!')
        && s[start + 1] == '=' {
        Some((leaf(Rule::ComparisonOp, s, start, start + 2), start + 2))
    } else if 0 <= start < s.len() && (s[start] == '=' || s[start] == '>' || s[start] == '<') {
        Some((leaf(Rule::ComparisonOp, s, start, start + 1), start + 1))
    } else {
        None
    }
}

/// An integer literal: an optional `-`, then one or more digits.
pub open spec fn number(s: Seq<char>, pos: int) -> Option<(PairView, int)> {
    let start = skip_whitespace(s, pos);
    let digits = if 0 <= start < s.len() && s[start] == '-' {
        start + 1
    } else {
        start
    };
    let end = run_end(s, digits, CharClass::Digit);
    if end > digits {
        Some((leaf(Rule::Number, s, start, end), end))
    } else {
        None
    }
}

/// A string literal: a single quote, any characters but the single quote,
/// and a closing single quote.
pub open spec fn string_literal(s: Seq<char>, pos: int) -> Option<(PairView, int)> {
    let start = skip_whitespace(s, pos);
    if 0 <= start < s.len() && s[start] == '\'' {
        let close = run_end(s, start + 1, CharClass::NotQuote);
        if close < s.len() {
            Some((leaf(Rule::StringLiteral, s, start, close + 1), close + 1))
        } else {
            None
        }
    } else {
        None
    }
}

/// A boolean literal: the word `true` or `false`, in any letter case.
pub open spec fn boolean(s: Seq<char>, pos: int) -> Option<(PairView, int)> {
    let start = skip_whitespace(s, pos);
    match word_end(s, start) {
        Some(end) => if eq_ignore_ascii_case(s.subrange(start, end), "true"@)
            || eq_ignore_ascii_case(s.subrange(start, end), "false"@) {
            Some((leaf(Rule::Boolean, s, start, end), end))
        } else {
            None
        },
        None => None,
    }
}

/// The first of two matches that is one.
pub open spec fn or_else(first: Option<(PairView, int)>, second: Option<(PairView, int)>) -> Option<
    (PairView, int),
> {
    if first is Some {
        first
    } else {
        second
    }
}

/// A value: a number, else a string, else a boolean.
pub open spec fn value(s: Seq<char>, pos: int) -> Option<(PairView, int)> {
    let start = skip_whitespace(s, pos);
    match or_else(number(s, pos), or_else(string_literal(s, pos), boolean(s, pos))) {
        Some((inner, end)) => Some((node(Rule::Value, s, start, end, seq![inner]), end)),
        None => None,
    }
}

/// Whether a statement can end at `pos`: only blanks are left of the text
/// or, for a statement in parentheses (`nested`), the next character that
/// is no blank is the closing parenthesis.
pub open spec fn ends_at(s: Seq<char>, pos: int, nested: bool) -> bool {
    let start = skip_whitespace(s, pos);
    if nested {
        0 <= start < s.len() && s[start] == ')'
    } else {
        start >= s.len()
    }
}

/// A condition: an operand, an operator and a value. It may stop after the
/// operand or after the operator, but only where the statement ends.
pub open spec fn condition(s: Seq<char>, pos: int, nested: bool) -> Option<(PairView, int)> {
    let start = skip_whitespace(s, pos);
    match identifier(s, pos) {
        Some((left, e1)) => match comparison_op(s, e1) {
            Some((operator, e2)) => match value(s, e2) {
                Some((right, e3)) => Some(
                    (node(Rule::Condition, s, start, e3, seq![left, operator, right]), e3),
                ),
                None => if ends_at(s, e2, nested) {
                    Some((node(Rule::Condition, s, start, e2, seq![left, operator]), e2))
                } else {
                    None
                },
            },
            None => if ends_at(s, e1, nested) {
                Some((node(Rule::Condition, s, start, e1, seq![left]), e1))
            } else {
                None
            },
        },
        None => None,
    }
}

/// A `WHERE` clause: the keyword and a condition. The condition may be
/// missing, but only where the statement ends.
pub open spec fn where_clause(s: Seq<char>, pos: int, nested: bool) -> Option<(PairView, int)> {
    let start = skip_whitespace(s, pos);
    match keyword(s, pos, Rule::Where, "where"@) {
        Some((word, e1)) => match condition(s, e1, nested) {
            Some((inner, e2)) => Some(
                (node(Rule::WhereClause, s, start, e2, seq![word, inner]), e2),
            ),
            None => if identifier(s, e1) is None && ends_at(s, e1, nested) {
                Some((node(Rule::WhereClause, s, start, e1, seq![word]), e1))
            } else {
                None
            },
        },
        None => None,
    }
}

/// The name that may follow a subquery, with or without the word `AS` before
/// it; gives the position after it, which is `pos` if there is none.
pub open spec fn alias_end(s: Seq<char>, pos: int) -> int {
    match identifier(s, pos) {
        Some((first, e1)) => if eq_ignore_ascii_case(first.text, "as"@) {
            match identifier(s, e1) {
                Some((second, e2)) => e2,
                None => e1,
            }
        } else {
            e1
        },
        None => pos,
    }
}

/// A scan from inside the text ends inside the text, at or after its start.
pub proof fn lemma_run_end_bounds(s: Seq<char>, pos: int, class: CharClass)
    requires
        0 <= pos <= s.len(),
    ensures
        pos <= run_end(s, pos, class) <= s.len(),
    decreases s.len() - pos,
{
    if pos < s.len() && class.holds(s[pos]) {
        lemma_run_end_bounds(s, pos + 1, class);
    }
}

/// A scan runs over characters of its class only, and stops at the end of
/// the text or at a character that is not of the class.
pub proof fn lemma_run_end_holds(s: Seq<char>, pos: int, class: CharClass)
    requires
        0 <= pos <= s.len(),
    ensures
        forall|i: int| pos <= i < run_end(s, pos, class) ==> class.holds(#[trigger] s[i]),
        run_end(s, pos, class) < s.len() ==> !class.holds(s[run_end(s, pos, class)]),
    decreases s.len() - pos,
{
    if pos < s.len() && class.holds(s[pos]) {
        lemma_run_end_holds(s, pos + 1, class);
    }
}

/// A token that matches starts at the first character that is no blank, at
/// or after the position it was tried at, and ends after that character,
/// inside the text.
pub proof fn lemma_token_bounds(s: Seq<char>, pos: int)
    ensures
        forall|rule: Rule, word: Seq<char>|
            (#[trigger] keyword(s, pos, rule, word)) matches Some((_, end)) ==> pos
                <= skip_whitespace(s, pos) < end <= s.len(),
        identifier(s, pos) matches Some((_, end)) ==> pos <= skip_whitespace(s, pos) < end
            <= s.len(),
        forall|c: char|
            (#[trigger] symbol(s, pos, c)) matches Some(end) ==> pos <= skip_whitespace(s, pos)
                < end <= s.len(),
        star(s, pos) matches Some((_, end)) ==> pos <= skip_whitespace(s, pos) < end <= s.len(),
        comparison_op(s, pos) matches Some((_, end)) ==> pos <= skip_whitespace(s, pos) < end
            <= s.len(),
        number(s, pos) matches Some((_, end)) ==> pos <= skip_whitespace(s, pos) < end <= s.len(),
        string_literal(s, pos) matches Some((_, end)) ==> pos <= skip_whitespace(s, pos) < end
            <= s.len(),
        boolean(s, pos) matches Some((_, end)) ==> pos <= skip_whitespace(s, pos) < end <= s.len(),
{
    let start = skip_whitespace(s, pos);
    if 0 <= pos <= s.len() {
        lemma_run_end_bounds(s, pos, CharClass::Whitespace);
    }
    if 0 <= start < s.len() {
        lemma_run_end_bounds(s, start + 1, CharClass::NamePart);
        lemma_run_end_bounds(s, start + 1, CharClass::NotQuote);
        lemma_run_end_bounds(s, start + 1, CharClass::Digit);
        lemma_run_end_bounds(s, start, CharClass::Digit);
    }
}

/// A select item: a function call, else a name, else the wildcard, else
/// nothing. An empty item stands at the first character that is no blank.
pub open spec fn select_item(s: Seq<char>, pos: int) -> (PairView, int)
    decreases s.len() - pos, 1int,
{
    let start = skip_whitespace(s, pos);
    match function_call(s, pos) {
        Some((call, end)) => (node(Rule::SelectItem, s, start, end, seq![call]), end),
        None => match or_else(identifier(s, pos), star(s, pos)) {
            Some((inner, end)) => (node(Rule::SelectItem, s, start, end, seq![inner]), end),
            None => (node(Rule::SelectItem, s, start, start, Seq::empty()), start),
        },
    }
}

/// The select items that follow `items`, each after a comma. The test on
/// the end of an item is there to show that the definition is well
/// founded; inside a text it always holds (see `lemma_rules_unfold`).
pub open spec fn more_items(s: Seq<char>, pos: int, items: Seq<PairView>) -> (Seq<PairView>, int)
    decreases s.len() - pos, 0int,
{
    match symbol(s, pos, ',') {
        Some(e1) => {
            proof {
                lemma_token_bounds(s, pos);
            }
            let (item, e2) = select_item(s, e1);
            if e1 <= e2 <= s.len() {
                more_items(s, e2, items.push(item))
            } else {
                (items, pos)
            }
        },
        None => (items, pos),
    }
}

/// A function call: a name, `(`, one or more select items between commas,
/// `)`. The test on the end of the first item is there to show that the
/// definition is well founded; inside a text it always holds (see
/// `lemma_rules_unfold`).
pub open spec fn function_call(s: Seq<char>, pos: int) -> Option<(PairView, int)>
    decreases s.len() - pos, 0int,
{
    let start = skip_whitespace(s, pos);
    match identifier(s, pos) {
        Some((name, e1)) => match symbol(s, e1, '(') {
            Some(e2) => {
                proof {
                    lemma_token_bounds(s, pos);
                    lemma_token_bounds(s, e1);
                }
                let (first, e3) = select_item(s, e2);
                if e2 <= e3 <= s.len() {
                    let (children, e4) = more_items(s, e3, seq![name, first]);
                    match symbol(s, e4, ')') {
                        Some(e5) => Some((node(Rule::FunctionCall, s, start, e5, children), e5)),
                        None => None,
                    }
                } else {
                    None
                }
            },
            None => None,
        },
        None => None,
    }
}

/// A select list: one or more select items between commas. The test on the
/// end of the first item is there to show that the definition is well
/// founded; inside a text it always holds (see `lemma_rules_unfold`).
pub open spec fn select_list(s: Seq<char>, pos: int) -> (PairView, int)
    decreases s.len() - pos, 2int,
{
    let start = skip_whitespace(s, pos);
    let (first, e1) = select_item(s, pos);
    if pos == e1 || pos < e1 <= s.len() {
        let (items, e2) = more_items(s, e1, seq![first]);
        (node(Rule::SelectList, s, start, e2, items), e2)
    } else {
        (node(Rule::SelectList, s, start, e1, seq![first]), e1)
    }
}

/// The target of `FROM`: a name, else a statement in parentheses with an
/// optional alias. It may be empty, but only where the statement ends or
/// `WHERE` follows; an empty table stands at the first character that is no
/// blank. A parenthesis that is opened must hold a statement and be closed.
pub open spec fn table(s: Seq<char>, pos: int, nested: bool) -> Option<(PairView, int)>
    decreases s.len() - pos, 0int,
{
    let start = skip_whitespace(s, pos);
    match identifier(s, pos) {
        Some((name, end)) => Some((node(Rule::Table, s, start, end, seq![name]), end)),
        None => match symbol(s, pos, '(') {
            Some(e1) => {
                proof {
                    lemma_token_bounds(s, pos);
                }
                match select_query(s, e1, true) {
                    Some((query, e2)) => match symbol(s, e2, ')') {
                        Some(e3) => {
                            let end = alias_end(s, e3);
                            Some((node(Rule::Table, s, start, end, seq![query]), end))
                        },
                        None => None,
                    },
                    None => None,
                }
            },
            None => if ends_at(s, pos, nested) || keyword(s, pos, Rule::Where, "where"@) is Some {
                Some((node(Rule::Table, s, start, start, Seq::empty()), start))
            } else {
                None
            },
        },
    }
}

/// A statement up to its `WHERE` clause: `SELECT` and a select list, then
/// `FROM` and a table. `FROM` and the table may be missing, but only where
/// the statement ends. Gives the nodes and the position after them. The test
/// on the end of `FROM` is there to show that the definition is well
/// founded; inside a text it always holds (see `lemma_rules_unfold`).
pub open spec fn query_head(s: Seq<char>, pos: int, nested: bool) -> Option<
    (Seq<PairView>, int),
>
    decreases s.len() - pos, 0int,
{
    match keyword(s, pos, Rule::Select, "select"@) {
        Some((word, e1)) => {
            proof {
                lemma_token_bounds(s, pos);
            }
            let (list, e2) = select_list(s, e1);
            match keyword(s, e2, Rule::From, "from"@) {
                Some((from, e3)) => if pos < e3 <= s.len() {
                    match table(s, e3, nested) {
                        Some((target, e4)) => Some((seq![word, list, from, target], e4)),
                        None => None,
                    }
                } else {
                    None
                },
                None => if ends_at(s, e2, nested) {
                    Some((seq![word, list], e2))
                } else {
                    None
                },
            }
        },
        None => None,
    }
}

/// A statement: `SELECT` and a select list, `FROM` and a table, then a
/// `WHERE` clause if the keyword follows. `nested` says that the statement
/// stands in parentheses.
pub open spec fn select_query(s: Seq<char>, pos: int, nested: bool) -> Option<(PairView, int)>
    decreases s.len() - pos, 1int,
{
    let start = skip_whitespace(s, pos);
    match query_head(s, pos, nested) {
        Some((head, e1)) => if keyword(s, e1, Rule::Where, "where"@) is Some {
            match where_clause(s, e1, nested) {
                Some((clause, e2)) => Some(
                    (node(Rule::SelectQuery, s, start, e2, head.push(clause)), e2),
                ),
                None => None,
            }
        } else {
            Some((node(Rule::SelectQuery, s, start, e1, head), e1))
        },
        None => None,
    }
}

/// A select item ends inside the text, at or after the first character that
/// is no blank.
pub proof fn lemma_item_bounds(s: Seq<char>, pos: int)
    requires
        0 <= pos <= s.len(),
    ensures
        pos <= skip_whitespace(s, pos) <= select_item(s, pos).1 <= s.len(),
    decreases s.len() - pos, 1int,
{
    lemma_run_end_bounds(s, pos, CharClass::Whitespace);
    lemma_token_bounds(s, pos);
    lemma_call_bounds(s, pos);
}

/// Further select items end inside the text, at or after the position they
/// were looked for.
pub proof fn lemma_more_items_bounds(s: Seq<char>, pos: int, items: Seq<PairView>)
    requires
        0 <= pos <= s.len(),
    ensures
        pos <= more_items(s, pos, items).1 <= s.len(),
    decreases s.len() - pos, 0int,
{
    lemma_token_bounds(s, pos);
    match symbol(s, pos, ',') {
        Some(e1) => {
            lemma_item_bounds(s, e1);
            let (item, e2) = select_item(s, e1);
            lemma_more_items_bounds(s, e2, items.push(item));
        },
        None => {},
    }
}

/// A function call that matches ends inside the text, after the first
/// character that is no blank.
pub proof fn lemma_call_bounds(s: Seq<char>, pos: int)
    requires
        0 <= pos <= s.len(),
    ensures
        function_call(s, pos) matches Some((_, end)) ==> skip_whitespace(s, pos) < end <= s.len(),
    decreases s.len() - pos, 0int,
{
    lemma_run_end_bounds(s, pos, CharClass::Whitespace);
    lemma_token_bounds(s, pos);
    match identifier(s, pos) {
        Some((name, e1)) => {
            lemma_token_bounds(s, e1);
            match symbol(s, e1, '(') {
                Some(e2) => {
                    lemma_item_bounds(s, e2);
                    let (first, e3) = select_item(s, e2);
                    lemma_more_items_bounds(s, e3, seq![name, first]);
                    let (children, e4) = more_items(s, e3, seq![name, first]);
                    lemma_token_bounds(s, e4);
                },
                None => {},
            }
        },
        None => {},
    }
}

/// A select list ends inside the text, at or after the first character that
/// is no blank.
pub proof fn lemma_list_bounds(s: Seq<char>, pos: int)
    requires
        0 <= pos <= s.len(),
    ensures
        pos <= skip_whitespace(s, pos) <= select_list(s, pos).1 <= s.len(),
{
    lemma_item_bounds(s, pos);
    let (first, e1) = select_item(s, pos);
    lemma_more_items_bounds(s, e1, seq![first]);
}

/// A condition or a `WHERE` clause that matches ends inside the text, after
/// the position it was tried at; so does the alias of a subquery, if any.
pub proof fn lemma_clause_bounds(s: Seq<char>, pos: int, nested: bool)
    requires
        0 <= pos <= s.len(),
    ensures
        value(s, pos) matches Some((_, end)) ==> pos < end <= s.len(),
        condition(s, pos, nested) matches Some((_, end)) ==> pos < end <= s.len(),
        where_clause(s, pos, nested) matches Some((_, end)) ==> pos < end <= s.len(),
        pos <= alias_end(s, pos) <= s.len(),
{
    lemma_token_bounds(s, pos);
    match identifier(s, pos) {
        Some((left, e1)) => {
            lemma_token_bounds(s, e1);
            match comparison_op(s, e1) {
                Some((operator, e2)) => {
                    lemma_token_bounds(s, e2);
                },
                None => {},
            }
        },
        None => {},
    }
    match keyword(s, pos, Rule::Where, "where"@) {
        Some((word, e1)) => {
            lemma_token_bounds(s, e1);
            match identifier(s, e1) {
                Some((left, e2)) => {
                    lemma_token_bounds(s, e2);
                    match comparison_op(s, e2) {
                        Some((operator, e3)) => {
                            lemma_token_bounds(s, e3);
                        },
                        None => {},
                    }
                },
                None => {},
            }
        },
        None => {},
    }
}

/// A table that matches ends inside the text, at or after the first
/// character that is no blank.
pub proof fn lemma_table_bounds(s: Seq<char>, pos: int, nested: bool)
    requires
        0 <= pos <= s.len(),
    ensures
        table(s, pos, nested) matches Some((_, end)) ==> pos <= skip_whitespace(s, pos) <= end
            <= s.len(),
    decreases s.len() - pos, 0int,
{
    lemma_run_end_bounds(s, pos, CharClass::Whitespace);
    lemma_token_bounds(s, pos);
    match symbol(s, pos, '(') {
        Some(e1) => {
            lemma_run_end_bounds(s, e1, CharClass::Whitespace);
            lemma_query_bounds(s, e1, true);
            match select_query(s, e1, true) {
                Some((query, e2)) => {
                    lemma_token_bounds(s, e2);
                    match symbol(s, e2, ')') {
                        Some(e3) => {
                            lemma_clause_bounds(s, e3, nested);
                        },
                        None => {},
                    }
                },
                None => {},
            }
        },
        None => {},
    }
}

/// The part of a statement before its `WHERE` clause ends inside the text,
/// after the first character that is no blank.
pub proof fn lemma_head_bounds(s: Seq<char>, pos: int, nested: bool)
    requires
        0 <= pos <= s.len(),
    ensures
        query_head(s, pos, nested) matches Some((_, end)) ==> skip_whitespace(s, pos) < end
            <= s.len(),
    decreases s.len() - pos, 0int,
{
    lemma_run_end_bounds(s, pos, CharClass::Whitespace);
    lemma_token_bounds(s, pos);
    match keyword(s, pos, Rule::Select, "select"@) {
        Some((word, e1)) => {
            lemma_list_bounds(s, e1);
            let (list, e2) = select_list(s, e1);
            lemma_token_bounds(s, e2);
            match keyword(s, e2, Rule::From, "from"@) {
                Some((from, e3)) => {
                    lemma_table_bounds(s, e3, nested);
                },
                None => {},
            }
        },
        None => {},
    }
}

/// A statement that matches ends inside the text, after the first character
/// that is no blank.
pub proof fn lemma_query_bounds(s: Seq<char>, pos: int, nested: bool)
    requires
        0 <= pos <= s.len(),
    ensures
        select_query(s, pos, nested) matches Some((_, end)) ==> skip_whitespace(s, pos) < end
            <= s.len(),
    decreases s.len() - pos, 1int,
{
    lemma_head_bounds(s, pos, nested);
    match query_head(s, pos, nested) {
        Some((head, end)) => {
            lemma_clause_bounds(s, end, nested);
        },
        None => {},
    }
}

/// Inside a text the rules read as the grammar writes them: the tests that
/// their definitions make on the ends of parts always hold.
pub proof fn lemma_rules_unfold(s: Seq<char>, pos: int, items: Seq<PairView>, nested: bool)
    requires
        0 <= pos <= s.len(),
    ensures
        more_items(s, pos, items) == match symbol(s, pos, ',') {
            Some(e1) => more_items(s, select_item(s, e1).1, items.push(select_item(s, e1).0)),
            None => (items, pos),
        },
        function_call(s, pos) == match identifier(s, pos) {
            Some((name, e1)) => match symbol(s, e1, '(') {
                Some(e2) => {
                    let (first, e3) = select_item(s, e2);
                    let (children, e4) = more_items(s, e3, seq![name, first]);
                    match symbol(s, e4, ')') {
                        Some(e5) => Some(
                            (
                                node(Rule::FunctionCall, s, skip_whitespace(s, pos), e5, children),
                                e5,
                            ),
                        ),
                        None => None,
                    }
                },
                None => None,
            },
            None => None,
        },
        select_list(s, pos) == {
            let (first, e1) = select_item(s, pos);
            let (children, e2) = more_items(s, e1, seq![first]);
            (node(Rule::SelectList, s, skip_whitespace(s, pos), e2, children), e2)
        },
        query_head(s, pos, nested) == match keyword(s, pos, Rule::Select, "select"@) {
            Some((word, e1)) => {
                let (list, e2) = select_list(s, e1);
                match keyword(s, e2, Rule::From, "from"@) {
                    Some((from, e3)) => match table(s, e3, nested) {
                        Some((target, e4)) => Some((seq![word, list, from, target], e4)),
                        None => None,
                    },
                    None => if ends_at(s, e2, nested) {
                        Some((seq![word, list], e2))
                    } else {
                        None
                    },
                }
            },
            None => None,
        },
{
    lemma_token_bounds(s, pos);
    lemma_item_bounds(s, pos);
    match symbol(s, pos, ',') {
        Some(e1) => {
            lemma_item_bounds(s, e1);
        },
        None => {},
    }
    match identifier(s, pos) {
        Some((name, e1)) => {
            lemma_token_bounds(s, e1);
            match symbol(s, e1, '(') {
                Some(e2) => {
                    lemma_item_bounds(s, e2);
                },
                None => {},
            }
        },
        None => {},
    }
    match keyword(s, pos, Rule::Select, "select"@) {
        Some((word, e1)) => {
            lemma_list_bounds(s, e1);
            lemma_token_bounds(s, select_list(s, e1).1);
        },
        None => {},
    }
}

/// The rule `rule` tried at `pos`, outside parentheses.
pub open spec fn rule_at(rule: Rule, s: Seq<char>, pos: int) -> Option<(PairView, int)> {
    match rule {
        Rule::SelectQuery => select_query(s, pos, false),
        Rule::Select => keyword(s, pos, Rule::Select, "select"@),
        Rule::From => keyword(s, pos, Rule::From, "from"@),
        Rule::Where => keyword(s, pos, Rule::Where, "where"@),
        Rule::SelectList => Some(select_list(s, pos)),
        Rule::SelectItem => Some(select_item(s, pos)),
        Rule::FunctionCall => function_call(s, pos),
        Rule::Identifier => identifier(s, pos),
        Rule::Star => star(s, pos),
        Rule::Table => table(s, pos, false),
        Rule::WhereClause => where_clause(s, pos, false),
        Rule::Condition => condition(s, pos, false),
        Rule::ComparisonOp => comparison_op(s, pos),
        Rule::Value => value(s, pos),
        Rule::Number => number(s, pos),
        Rule::StringLiteral => string_literal(s, pos),
        Rule::Boolean => boolean(s, pos),
    }
}

} // verus!
