//! A parser for a small subset of SQL `SELECT` statements, verified with
//! Verus.
//!
//! [`parse_query`] takes a text such as
//! `SELECT name, COUNT(id) FROM (SELECT * FROM users) u WHERE age >= 18`
//! and gives a [`SelectQuery`] or a [`ParseError`]. It works in two steps:
//!
//! * the recognizer ([`SQLParser`]) runs the grammar on the text and gives a
//!   concrete parse tree of rule-tagged spans ([`Pair`]);
//! * the builder ([`builder`]) turns the tree into the typed syntax tree.
//!
//! A text that does not have the shape of a statement is a syntax error
//! ([`ParseError::ParsingError`]): one that does not begin with `SELECT`, one
//! in which the select list is followed by anything but `FROM`, one with a
//! parenthesis or a quote that is never closed. A statement that ends early
//! or lacks a part (a select item, the `FROM` target, the condition, its
//! operator or its value) is recognised, and the builder reports which part
//! is missing.
//!
//! What each step gives is stated by specification functions on sequences
//! of characters and on the mathematical values of the trees: the grammar in
//! [`grammar`], the meaning of a parse tree in [`builder`], and the meaning
//! of a text in [`query_of_text`]. The executable code is proved to return
//! exactly that, without panicking. [`laws`] holds what is proved of the
//! specification itself: parsing gives well-formed statements only, and every
//! well-formed statement, written out, parses to itself.

pub mod ast;
pub mod builder;
pub mod error;
pub mod grammar;
pub mod invariants;
pub mod laws;
pub mod number;
pub mod recognizer;
pub mod render;
pub mod roundtrip;
pub mod shape;
pub mod text;
pub mod tree;

pub use ast::{Condition, SelectItem, SelectQuery, Table, Value};
pub use error::ParseError;
pub use recognizer::{SQLParser, SyntaxError};
pub use tree::{Pair, Rule};

use ast::{lemma_items_view, SelectQueryView};
use builder::{build_query_structure, query_of};
use error::{result_view, ParseErrorView};
use invariants::is_gap;
use laws::{lemma_parsed_query_well_formed, lemma_syntax_error_iff_unrecognised};
use recognizer::syntax_text;
use tree::PairView;
use vstd::prelude::*;

verus! {

/// What a sequence of recognised nodes denotes: the statement of the first
/// node. An empty sequence holds no statement.
pub open spec fn query_of_pairs(pairs: Seq<PairView>) -> Result<SelectQueryView, ParseErrorView> {
    if pairs.len() == 0 {
        Err(ParseErrorView::NoQueryFound)
    } else {
        query_of(pairs[0])
    }
}

/// What a text denotes: the statement of the tree that the grammar gives for
/// it, or the reason why there is none.
pub open spec fn query_of_text(input: Seq<char>) -> Result<SelectQueryView, ParseErrorView> {
    match grammar::select_query(input, 0, false) {
        Some((tree, _)) => query_of(tree),
        None => Err(
            ParseErrorView::ParsingError(
                syntax_text(grammar::skip_whitespace(input, 0) as nat, Rule::SelectQuery),
            ),
        ),
    }
}

/// Builds the statement of the first of the recognised nodes.
pub fn query_from_pairs(pairs: &Vec<Pair>) -> (r: Result<SelectQuery, ParseError>)
    ensures
        result_view(r) == query_of_pairs(tree::pairs_view(pairs@)),
{
    broadcast use tree::lemma_pairs_view;

    if pairs.len() == 0 {
        Err(ParseError::NoQueryFound)
    } else {
        build_query_structure(&pairs[0])
    }
}

/// Parses one `SELECT` statement.
///
/// ```
/// let query = sql_select_parser::parse_query("select name from users where age > 20");
/// assert!(query.is_ok());
/// ```
pub fn parse_query(input: &str) -> (r: Result<SelectQuery, ParseError>)
    ensures
        result_view(r) == query_of_text(input@),
        r matches Ok(query) ==> query@.well_formed() && query.columns@.len() >= 1,
        r matches Err(e) ==> e@ is ParsingError || is_gap(e@),
        r matches Err(e) ==> (e@ is ParsingError <==> grammar::select_query(input@, 0, false)
            is None),
{
    broadcast use tree::lemma_pairs_view;

    proof {
        lemma_parsed_query_well_formed(input@);
        lemma_syntax_error_iff_unrecognised(input@);
    }

    match SQLParser::parse(Rule::SelectQuery, input) {
        Ok(pairs) => {
            let r = query_from_pairs(&pairs);
            proof {
                if r is Ok {
                    lemma_items_view(r->Ok_0.columns@);
                }
            }
            r
        },
        Err(e) => Err(ParseError::ParsingError(e.message())),
    }
}

} // verus!
