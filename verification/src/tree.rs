//! The concrete parse tree: rule-tagged spans of the input text.

use vstd::prelude::*;

verus! {

/// The kinds of node that the grammar produces.
#[derive(Debug, Clone, Copy, PartialEq, Eq, Hash, Structural)]
pub enum Rule {
    /// A whole statement: `SELECT` list, optional `FROM` target, optional `WHERE` clause.
    SelectQuery,
    /// The keyword `SELECT`, in any letter case.
    Select,
    /// The keyword `FROM`, in any letter case.
    From,
    /// The keyword `WHERE`, in any letter case.
    Where,
    /// The comma-separated list of projected items.
    SelectList,
    /// One projected item: a column, the wildcard or a function call.
    SelectItem,
    /// A function name followed by parenthesised arguments.
    FunctionCall,
    /// A name: a letter or underscore, then letters, digits and underscores.
    Identifier,
    /// The wildcard `*`.
    Star,
    /// The target of `FROM`: a table name or a parenthesised subquery.
    Table,
    /// The keyword `WHERE` and its condition.
    WhereClause,
    /// A single comparison: operand, operator, value.
    Condition,
    /// One of `=`, `>`, `<`, `>=`, `<=`, `!=`.
    ComparisonOp,
    /// The right-hand side of a comparison.
    Value,
    /// An integer literal.
    Number,
    /// A single-quoted string literal, quotes included.
    StringLiteral,
    /// `true` or `false`, in any letter case.
    Boolean,
}

impl Rule {
    /// The name of the rule as the grammar writes it.
    pub open spec fn spec_name(self) -> Seq<char> {
        match self {
            Rule::SelectQuery => "select_query"@,
            Rule::Select => "SELECT"@,
            Rule::From => "FROM"@,
            Rule::Where => "WHERE"@,
            Rule::SelectList => "select_list"@,
            Rule::SelectItem => "select_item"@,
            Rule::FunctionCall => "function_call"@,
            Rule::Identifier => "identifier"@,
            Rule::Star => "star"@,
            Rule::Table => "table"@,
            Rule::WhereClause => "where_clause"@,
            Rule::Condition => "condition"@,
            Rule::ComparisonOp => "comparison_op"@,
            Rule::Value => "value"@,
            Rule::Number => "number"@,
            Rule::StringLiteral => "string"@,
            Rule::Boolean => "boolean"@,
        }
    }

    /// The name of the rule as the grammar writes it.
    pub fn name(self) -> (name: &'static str)
        ensures
            name@ == self.spec_name(),
    {
        match self {
            Rule::SelectQuery => "select_query",
            Rule::Select => "SELECT",
            Rule::From => "FROM",
            Rule::Where => "WHERE",
            Rule::SelectList => "select_list",
            Rule::SelectItem => "select_item",
            Rule::FunctionCall => "function_call",
            Rule::Identifier => "identifier",
            Rule::Star => "star",
            Rule::Table => "table",
            Rule::WhereClause => "where_clause",
            Rule::Condition => "condition",
            Rule::ComparisonOp => "comparison_op",
            Rule::Value => "value",
            Rule::Number => "number",
            Rule::StringLiteral => "string",
            Rule::Boolean => "boolean",
        }
    }
}

/// A node of the concrete parse tree.
#[derive(Debug, PartialEq, Eq)]
pub struct Pair {
    /// The grammar rule that matched.
    pub rule: Rule,
    /// The text that the rule matched.
    pub text: String,
    /// The nodes matched inside this one, in source order.
    pub children: Vec<Pair>,
}

/// The mathematical value of a [`Pair`].
pub ghost struct PairView {
    pub rule: Rule,
    pub text: Seq<char>,
    pub children: Seq<PairView>,
}

/// The value of a node: its rule, the value of its text and the values of its children.
pub open spec fn pair_view(pair: Pair) -> PairView
    decreases pair,
{
    PairView { rule: pair.rule, text: pair.text@, children: pairs_view(pair.children@) }
}

/// The values of a sequence of nodes, in order.
pub open spec fn pairs_view(pairs: Seq<Pair>) -> Seq<PairView>
    decreases pairs,
{
    if pairs.len() == 0 {
        Seq::empty()
    } else {
        pairs_view(pairs.drop_last()).push(pair_view(pairs.last()))
    }
}

impl View for Pair {
    type V = PairView;

    open spec fn view(&self) -> PairView {
        pair_view(*self)
    }
}

/// The values of a sequence of nodes are as many as the nodes, and the value
/// at each index is that of the node there.
pub broadcast proof fn lemma_pairs_view(pairs: Seq<Pair>)
    ensures
        #![trigger pairs_view(pairs)]
        pairs_view(pairs).len() == pairs.len(),
        forall|i: int| 0 <= i < pairs.len() ==> (#[trigger] pairs_view(pairs)[i]) == pairs[i]@,
    decreases pairs.len(),
{
    if pairs.len() > 0 {
        lemma_pairs_view(pairs.drop_last());
    }
}

/// The value of a node has the node's rule, the value of its text, and one
/// child for each child of the node: the value of that child.
pub broadcast proof fn lemma_pair_view(pair: Pair)
    ensures
        #![trigger pair@]
        pair@.rule == pair.rule,
        pair@.text == pair.text@,
        pair@.children == pairs_view(pair.children@),
        pair@.children.len() == pair.children@.len(),
        forall|i: int|
            0 <= i < pair.children@.len() ==> (#[trigger] pair@.children[i]) == pair.children@[i]@,
{
    lemma_pairs_view(pair.children@);
}

/// Appending a node appends its value.
pub proof fn lemma_pairs_view_push(pairs: Seq<Pair>, pair: Pair)
    ensures
        pairs_view(pairs.push(pair)) == pairs_view(pairs).push(pair@),
{
    assert(pairs.push(pair).drop_last() =~= pairs);
}

impl Pair {
    /// A node without children.
    pub fn leaf(rule: Rule, text: String) -> (p: Pair)
        ensures
            p@ == (PairView { rule, text: text@, children: Seq::empty() }),
    {
        Pair { rule, text, children: Vec::new() }
    }
}

} // verus!
