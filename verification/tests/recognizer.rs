use sql_select_parser::{Pair, Rule, SQLParser};

fn leaf(rule: Rule, text: &str) -> Pair {
    Pair::leaf(rule, text.to_string())
}

fn node(rule: Rule, text: &str, children: Vec<Pair>) -> Pair {
    Pair { rule, text: text.to_string(), children }
}

fn only(rule: Rule, input: &str) -> Pair {
    let mut pairs = SQLParser::parse(rule, input).expect("the rule matches");
    assert_eq!(pairs.len(), 1);
    pairs.remove(0)
}

#[test]
fn tree_of_a_whole_statement() {
    let tree = only(Rule::SelectQuery, "  SELECT id, COUNT(x) FROM users WHERE age >= 18  ");
    let expected = node(
        Rule::SelectQuery,
        "SELECT id, COUNT(x) FROM users WHERE age >= 18",
        vec![
            leaf(Rule::Select, "SELECT"),
            node(
                Rule::SelectList,
                "id, COUNT(x)",
                vec![
                    node(Rule::SelectItem, "id", vec![leaf(Rule::Identifier, "id")]),
                    node(
                        Rule::SelectItem,
                        "COUNT(x)",
                        vec![node(
                            Rule::FunctionCall,
                            "COUNT(x)",
                            vec![
                                leaf(Rule::Identifier, "COUNT"),
                                node(Rule::SelectItem, "x", vec![leaf(Rule::Identifier, "x")]),
                            ],
                        )],
                    ),
                ],
            ),
            leaf(Rule::From, "FROM"),
            node(Rule::Table, "users", vec![leaf(Rule::Identifier, "users")]),
            node(
                Rule::WhereClause,
                "WHERE age >= 18",
                vec![
                    leaf(Rule::Where, "WHERE"),
                    node(
                        Rule::Condition,
                        "age >= 18",
                        vec![
                            leaf(Rule::Identifier, "age"),
                            leaf(Rule::ComparisonOp, ">="),
                            node(Rule::Value, "18", vec![leaf(Rule::Number, "18")]),
                        ],
                    ),
                ],
            ),
        ],
    );
    assert_eq!(tree, expected);
}

#[test]
fn tree_of_a_statement_without_from() {
    let tree = only(Rule::SelectQuery, "select a");
    assert_eq!(
        tree,
        node(
            Rule::SelectQuery,
            "select a",
            vec![
                leaf(Rule::Select, "select"),
                node(
                    Rule::SelectList,
                    "a",
                    vec![node(Rule::SelectItem, "a", vec![leaf(Rule::Identifier, "a")])]
                ),
            ]
        )
    );
}

#[test]
fn empty_item_and_empty_table() {
    let tree = only(Rule::SelectQuery, "SELECT FROM");
    assert_eq!(
        tree,
        node(
            Rule::SelectQuery,
            "SELECT FROM",
            vec![
                leaf(Rule::Select, "SELECT"),
                node(Rule::SelectList, "", vec![node(Rule::SelectItem, "", vec![])]),
                leaf(Rule::From, "FROM"),
                node(Rule::Table, "", vec![]),
            ]
        )
    );
}

#[test]
fn subquery_with_alias() {
    let tree = only(Rule::Table, "(SELECT a FROM t) AS sub WHERE");
    assert_eq!(tree.rule, Rule::Table);
    assert_eq!(tree.text, "(SELECT a FROM t) AS sub");
    assert_eq!(tree.children.len(), 1);
    assert_eq!(tree.children[0].rule, Rule::SelectQuery);
    assert_eq!(tree.children[0].text, "SELECT a FROM t");
}

#[test]
fn subquery_with_bare_alias_and_without() {
    assert_eq!(only(Rule::Table, "(SELECT a FROM t)b c").text, "(SELECT a FROM t)b");
    assert_eq!(only(Rule::Table, "(SELECT a FROM t) as").text, "(SELECT a FROM t) as");
    assert_eq!(only(Rule::Table, "(SELECT a FROM t) where x").text, "(SELECT a FROM t)");
    assert_eq!(only(Rule::Table, "(SELECT a FROM t) AS where").text, "(SELECT a FROM t) AS");
}

#[test]
fn keywords_in_any_case() {
    assert_eq!(only(Rule::Select, "SeLeCt x"), leaf(Rule::Select, "SeLeCt"));
    assert_eq!(only(Rule::From, " fRoM"), leaf(Rule::From, "fRoM"));
    assert_eq!(only(Rule::Where, "WHERE"), leaf(Rule::Where, "WHERE"));
    assert!(SQLParser::parse(Rule::Select, "selects").is_err());
    assert!(SQLParser::parse(Rule::From, "fro").is_err());
}

#[test]
fn identifiers() {
    assert_eq!(only(Rule::Identifier, "user_name2 x"), leaf(Rule::Identifier, "user_name2"));
    assert_eq!(only(Rule::Identifier, "_x"), leaf(Rule::Identifier, "_x"));
    assert_eq!(only(Rule::Identifier, "fromage"), leaf(Rule::Identifier, "fromage"));
    assert_eq!(only(Rule::Identifier, "selected"), leaf(Rule::Identifier, "selected"));
    assert_eq!(only(Rule::Identifier, "a.b"), leaf(Rule::Identifier, "a"));
    assert!(SQLParser::parse(Rule::Identifier, "2x").is_err());
    assert!(SQLParser::parse(Rule::Identifier, "From").is_err());
    assert!(SQLParser::parse(Rule::Identifier, "WHERE").is_err());
    assert!(SQLParser::parse(Rule::Identifier, "select").is_err());
    assert!(SQLParser::parse(Rule::Identifier, "").is_err());
}

#[test]
fn comparison_operators() {
    for op in ["=", ">", "<", ">=", "<=", "!="] {
        assert_eq!(only(Rule::ComparisonOp, op), leaf(Rule::ComparisonOp, op));
    }
    assert_eq!(only(Rule::ComparisonOp, "=="), leaf(Rule::ComparisonOp, "="));
    assert_eq!(only(Rule::ComparisonOp, "<>"), leaf(Rule::ComparisonOp, "<"));
    assert_eq!(only(Rule::ComparisonOp, "> ="), leaf(Rule::ComparisonOp, ">"));
    assert!(SQLParser::parse(Rule::ComparisonOp, "!").is_err());
    assert!(SQLParser::parse(Rule::ComparisonOp, "! =").is_err());
}

#[test]
fn literals() {
    assert_eq!(only(Rule::Number, "0042,"), leaf(Rule::Number, "0042"));
    assert_eq!(only(Rule::Number, "-7"), leaf(Rule::Number, "-7"));
    assert!(SQLParser::parse(Rule::Number, "-").is_err());
    assert!(SQLParser::parse(Rule::Number, "+7").is_err());
    assert_eq!(only(Rule::StringLiteral, "'a b' c"), leaf(Rule::StringLiteral, "'a b'"));
    assert_eq!(only(Rule::StringLiteral, "''"), leaf(Rule::StringLiteral, "''"));
    assert_eq!(
        only(Rule::StringLiteral, "'h\u{e9}llo \u{1f600}'x"),
        leaf(Rule::StringLiteral, "'h\u{e9}llo \u{1f600}'")
    );
    assert!(SQLParser::parse(Rule::StringLiteral, "'open").is_err());
    assert_eq!(only(Rule::Boolean, "TRUE"), leaf(Rule::Boolean, "TRUE"));
    assert_eq!(only(Rule::Boolean, "False)"), leaf(Rule::Boolean, "False"));
    assert!(SQLParser::parse(Rule::Boolean, "truely").is_err());
}

#[test]
fn value_takes_the_first_kind_that_matches() {
    assert_eq!(only(Rule::Value, " 12"), node(Rule::Value, "12", vec![leaf(Rule::Number, "12")]));
    assert_eq!(
        only(Rule::Value, "'x'"),
        node(Rule::Value, "'x'", vec![leaf(Rule::StringLiteral, "'x'")])
    );
    assert_eq!(
        only(Rule::Value, "true"),
        node(Rule::Value, "true", vec![leaf(Rule::Boolean, "true")])
    );
    assert!(SQLParser::parse(Rule::Value, "name").is_err());
}

#[test]
fn condition_as_far_as_it_goes() {
    assert_eq!(only(Rule::Condition, "a").children.len(), 1);
    assert_eq!(only(Rule::Condition, "a <").children.len(), 2);
    assert_eq!(only(Rule::Condition, "a < 1").children.len(), 3);
    assert_eq!(only(Rule::Condition, "a<1 AND b>2").text, "a<1");
    assert!(SQLParser::parse(Rule::Condition, "< 1").is_err());
    assert_eq!(only(Rule::WhereClause, "where").children.len(), 1);
    assert_eq!(only(Rule::WhereClause, "where a != 'x'").children.len(), 2);
}

#[test]
fn nested_calls_and_wildcard() {
    let item = only(Rule::SelectItem, "f(g(*), h(a, b))");
    assert_eq!(item.text, "f(g(*), h(a, b))");
    let call = &item.children[0];
    assert_eq!(call.rule, Rule::FunctionCall);
    assert_eq!(call.children.len(), 3);
    assert_eq!(call.children[0], leaf(Rule::Identifier, "f"));
    assert_eq!(call.children[1].text, "g(*)");
    assert_eq!(call.children[1].children[0].children[1].children[0], leaf(Rule::Star, "*"));
    assert_eq!(call.children[2].text, "h(a, b)");
    assert_eq!(call.children[2].children[0].children.len(), 3);
}

#[test]
fn call_without_closing_parenthesis_is_a_name() {
    let item = only(Rule::SelectItem, "f(a");
    assert_eq!(item, node(Rule::SelectItem, "f", vec![leaf(Rule::Identifier, "f")]));
    assert!(SQLParser::parse(Rule::FunctionCall, "f(a").is_err());
    assert!(SQLParser::parse(Rule::FunctionCall, "f").is_err());
}

#[test]
fn list_and_star() {
    let list = only(Rule::SelectList, "a ,b,  c d");
    assert_eq!(list.text, "a ,b,  c");
    assert_eq!(list.children.len(), 3);
    assert_eq!(only(Rule::Star, " *"), leaf(Rule::Star, "*"));
    assert!(SQLParser::parse(Rule::Star, "a").is_err());
}

#[test]
fn names_of_the_rules() {
    assert_eq!(Rule::SelectQuery.name(), "select_query");
    assert_eq!(Rule::Select.name(), "SELECT");
    assert_eq!(Rule::From.name(), "FROM");
    assert_eq!(Rule::Where.name(), "WHERE");
    assert_eq!(Rule::SelectList.name(), "select_list");
    assert_eq!(Rule::SelectItem.name(), "select_item");
    assert_eq!(Rule::FunctionCall.name(), "function_call");
    assert_eq!(Rule::Identifier.name(), "identifier");
    assert_eq!(Rule::Star.name(), "star");
    assert_eq!(Rule::Table.name(), "table");
    assert_eq!(Rule::WhereClause.name(), "where_clause");
    assert_eq!(Rule::Condition.name(), "condition");
    assert_eq!(Rule::ComparisonOp.name(), "comparison_op");
    assert_eq!(Rule::Value.name(), "value");
    assert_eq!(Rule::Number.name(), "number");
    assert_eq!(Rule::StringLiteral.name(), "string");
    assert_eq!(Rule::Boolean.name(), "boolean");
}

#[test]
fn gaps_are_taken_only_where_the_statement_ends() {
    assert_eq!(only(Rule::Table, ""), node(Rule::Table, "", vec![]));
    assert_eq!(only(Rule::Table, "  where x = 1"), node(Rule::Table, "", vec![]));
    assert!(SQLParser::parse(Rule::Table, "1").is_err());
    assert!(SQLParser::parse(Rule::Table, ")").is_err());
    assert!(SQLParser::parse(Rule::Table, "from").is_err());
    assert!(SQLParser::parse(Rule::Condition, "a b").is_err());
    assert!(SQLParser::parse(Rule::Condition, "a = b").is_err());
    assert!(SQLParser::parse(Rule::Condition, "a )").is_err());
    assert!(SQLParser::parse(Rule::WhereClause, "where 1").is_err());
    assert!(SQLParser::parse(Rule::WhereClause, "where a b").is_err());
    assert!(SQLParser::parse(Rule::SelectQuery, "SELECT a b").is_err());
    assert!(SQLParser::parse(Rule::SelectQuery, "SELECT a )").is_err());
    assert!(SQLParser::parse(Rule::SelectQuery, "SELECT a FROM 1").is_err());
}

#[test]
fn gaps_in_a_subquery_are_taken_at_its_closing_parenthesis() {
    let table = only(Rule::Table, "(SELECT a) x");
    assert_eq!(table.children[0].children.len(), 2);
    let table = only(Rule::Table, "( SELECT a FROM )");
    assert_eq!(table.children[0].children.len(), 4);
    assert_eq!(table.children[0].children[3], node(Rule::Table, "", vec![]));
    let table = only(Rule::Table, "(SELECT a FROM t WHERE b <)");
    assert_eq!(table.children[0].children[4].children[1].children.len(), 2);
    assert!(SQLParser::parse(Rule::Table, "(SELECT a").is_err());
    assert!(SQLParser::parse(Rule::Table, "(SELECT a FROM t").is_err());
    assert!(SQLParser::parse(Rule::Table, "(SELECT a FROM t WHERE b < 'x").is_err());
    assert!(SQLParser::parse(Rule::Table, "(SELECT a FROM t u)").is_err());
    assert!(SQLParser::parse(Rule::Table, "()").is_err());
}
