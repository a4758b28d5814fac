use sql_select_parser::builder::{
    build_query_structure, parse_condition, parse_select_item, parse_value, selected_rows_parser,
    table_parser, where_parser,
};
use sql_select_parser::{
    Condition, Pair, ParseError, Rule, SelectItem, SelectQuery, Table, Value,
};

fn leaf(rule: Rule, text: &str) -> Pair {
    Pair::leaf(rule, text.to_string())
}

fn node(rule: Rule, children: Vec<Pair>) -> Pair {
    Pair { rule, text: String::new(), children }
}

fn value_of(rule: Rule, text: &str) -> Result<Value, ParseError> {
    parse_value(&node(Rule::Value, vec![leaf(rule, text)]))
}

fn column(name: &str) -> SelectItem {
    SelectItem::Column(name.to_string())
}

fn item(name: &str) -> Pair {
    node(Rule::SelectItem, vec![leaf(Rule::Identifier, name)])
}

#[test]
fn numbers_are_read_in_decimal() {
    assert_eq!(value_of(Rule::Number, "0"), Ok(Value::Number(0)));
    assert_eq!(value_of(Rule::Number, "007"), Ok(Value::Number(7)));
    assert_eq!(value_of(Rule::Number, "-15"), Ok(Value::Number(-15)));
    assert_eq!(value_of(Rule::Number, "+15"), Ok(Value::Number(15)));
    assert_eq!(value_of(Rule::Number, "-0"), Ok(Value::Number(0)));
    assert_eq!(value_of(Rule::Number, "9223372036854775807"), Ok(Value::Number(i64::MAX)));
    assert_eq!(value_of(Rule::Number, "-9223372036854775808"), Ok(Value::Number(i64::MIN)));
}

#[test]
fn numbers_that_are_none() {
    for text in ["", "-", "+", "1a", " 1", "1 ", "1_000", "--1", "9223372036854775808", "0x10"] {
        assert!(
            matches!(value_of(Rule::Number, text), Err(ParseError::InvalidNumber(_))),
            "{:?}",
            text
        );
    }
}

#[test]
fn strings_lose_first_and_last_character() {
    assert_eq!(value_of(Rule::StringLiteral, "'admin'"), Ok(Value::String("admin".to_string())));
    assert_eq!(value_of(Rule::StringLiteral, "''"), Ok(Value::String(String::new())));
    assert_eq!(value_of(Rule::StringLiteral, "'a\\nb'"), Ok(Value::String("a\\nb".to_string())));
    assert_eq!(
        value_of(Rule::StringLiteral, "'\u{e9}t\u{e9}'"),
        Ok(Value::String("\u{e9}t\u{e9}".to_string()))
    );
    assert_eq!(value_of(Rule::StringLiteral, "\u{e9}x\u{e9}"), Ok(Value::String("x".to_string())));
    assert_eq!(value_of(Rule::StringLiteral, "x"), Ok(Value::String(String::new())));
    assert_eq!(value_of(Rule::StringLiteral, ""), Ok(Value::String(String::new())));
}

#[test]
fn booleans_are_true_only_for_the_word_true() {
    assert_eq!(value_of(Rule::Boolean, "true"), Ok(Value::Boolean(true)));
    assert_eq!(value_of(Rule::Boolean, "TRUE"), Ok(Value::Boolean(true)));
    assert_eq!(value_of(Rule::Boolean, "tRuE"), Ok(Value::Boolean(true)));
    assert_eq!(value_of(Rule::Boolean, "false"), Ok(Value::Boolean(false)));
    assert_eq!(value_of(Rule::Boolean, "True "), Ok(Value::Boolean(false)));
    assert_eq!(value_of(Rule::Boolean, "yes"), Ok(Value::Boolean(false)));
    assert_eq!(value_of(Rule::Boolean, ""), Ok(Value::Boolean(false)));
}

#[test]
fn value_reads_its_first_child_only() {
    let value = node(Rule::Value, vec![leaf(Rule::Number, "1"), leaf(Rule::Identifier, "x")]);
    assert_eq!(parse_value(&value), Ok(Value::Number(1)));
}

#[test]
fn condition_reads_three_children_in_order() {
    let condition = node(
        Rule::Condition,
        vec![
            leaf(Rule::Identifier, "price"),
            leaf(Rule::ComparisonOp, ">"),
            node(Rule::Value, vec![leaf(Rule::Number, "100")]),
            leaf(Rule::Identifier, "ignored"),
        ],
    );
    assert_eq!(
        parse_condition(&condition),
        Ok(Condition {
            left: "price".to_string(),
            operator: ">".to_string(),
            right: Value::Number(100)
        })
    );
}

#[test]
fn condition_errors_by_position() {
    let one = node(Rule::Condition, vec![leaf(Rule::Identifier, "a")]);
    assert_eq!(parse_condition(&one), Err(ParseError::MissingOperator));
    let two =
        node(Rule::Condition, vec![leaf(Rule::Identifier, "a"), leaf(Rule::ComparisonOp, "=")]);
    assert_eq!(parse_condition(&two), Err(ParseError::MissingRightOperand));
    let bad = node(
        Rule::Condition,
        vec![leaf(Rule::Identifier, "a"), leaf(Rule::ComparisonOp, "="), node(Rule::Value, vec![])],
    );
    assert_eq!(parse_condition(&bad), Err(ParseError::ExpectedInnerRuleForValue));
}

#[test]
fn where_takes_the_first_condition() {
    let condition = |name: &str| {
        node(
            Rule::Condition,
            vec![
                leaf(Rule::Identifier, name),
                leaf(Rule::ComparisonOp, "="),
                node(Rule::Value, vec![leaf(Rule::Boolean, "true")]),
            ],
        )
    };
    let clause = node(
        Rule::WhereClause,
        vec![
            leaf(Rule::Where, "WHERE"),
            leaf(Rule::Identifier, "x"),
            condition("a"),
            condition("b"),
        ],
    );
    assert_eq!(where_parser(&clause).unwrap().left, "a");
    let none = node(Rule::WhereClause, vec![leaf(Rule::Where, "WHERE")]);
    assert_eq!(where_parser(&none), Err(ParseError::NoConditionInWhereClause));
    assert_eq!(
        where_parser(&node(Rule::WhereClause, vec![])),
        Err(ParseError::NoConditionInWhereClause)
    );
}

#[test]
fn select_item_kinds() {
    assert_eq!(parse_select_item(&item("name")), Ok(column("name")));
    let star = node(Rule::SelectItem, vec![leaf(Rule::Star, "anything")]);
    assert_eq!(parse_select_item(&star), Ok(column("*")));
    assert_eq!(
        parse_select_item(&node(Rule::SelectItem, vec![])),
        Err(ParseError::MissingSelectItem)
    );
}

#[test]
fn call_arguments_are_built_in_order() {
    let call = node(
        Rule::SelectItem,
        vec![node(
            Rule::FunctionCall,
            vec![
                leaf(Rule::Identifier, "CONCAT"),
                item("a"),
                node(
                    Rule::SelectItem,
                    vec![node(
                        Rule::FunctionCall,
                        vec![leaf(Rule::Identifier, "UPPER"), item("b")],
                    )],
                ),
                item("c"),
            ],
        )],
    );
    assert_eq!(
        parse_select_item(&call),
        Ok(SelectItem::Function {
            name: "CONCAT".to_string(),
            arguments: vec![
                column("a"),
                SelectItem::Function { name: "UPPER".to_string(), arguments: vec![column("b")] },
                column("c"),
            ],
        })
    );
}

#[test]
fn call_without_arguments_and_first_failing_argument() {
    let bare = node(
        Rule::SelectItem,
        vec![node(Rule::FunctionCall, vec![leaf(Rule::Identifier, "NOW")])],
    );
    assert_eq!(
        parse_select_item(&bare),
        Ok(SelectItem::Function { name: "NOW".to_string(), arguments: vec![] })
    );
    let failing = node(
        Rule::SelectItem,
        vec![node(
            Rule::FunctionCall,
            vec![
                leaf(Rule::Identifier, "f"),
                item("a"),
                node(Rule::SelectItem, vec![leaf(Rule::Number, "1")]),
                node(Rule::SelectItem, vec![]),
            ],
        )],
    );
    assert_eq!(parse_select_item(&failing), Err(ParseError::UnexpectedRuleInSelectItem));
}

#[test]
fn select_list_in_source_order() {
    let list = node(Rule::SelectList, vec![item("id"), item("name"), item("email")]);
    assert_eq!(
        selected_rows_parser(&list),
        Ok(vec![column("id"), column("name"), column("email")])
    );
    assert_eq!(selected_rows_parser(&node(Rule::SelectList, vec![])), Ok(vec![]));
    let failing = node(
        Rule::SelectList,
        vec![item("id"), node(Rule::SelectItem, vec![]), leaf(Rule::From, "FROM")],
    );
    assert_eq!(selected_rows_parser(&failing), Err(ParseError::MissingSelectItem));
}

#[test]
fn table_kinds() {
    let simple = node(Rule::Table, vec![leaf(Rule::Identifier, "users")]);
    assert_eq!(table_parser(&simple), Ok(Table::Simple("users".to_string())));
    let inner = node(
        Rule::SelectQuery,
        vec![node(Rule::SelectList, vec![item("a")]), simple],
    );
    let nested = node(Rule::Table, vec![inner]);
    assert_eq!(
        table_parser(&nested),
        Ok(Table::Subquery(Box::new(SelectQuery {
            columns: vec![column("a")],
            table: Table::Simple("users".to_string()),
            where_clause: None,
        })))
    );
    assert_eq!(table_parser(&node(Rule::Table, vec![])), Err(ParseError::MissingTableName));
}

#[test]
fn statement_takes_the_last_of_each_part() {
    let table = |name: &str| node(Rule::Table, vec![leaf(Rule::Identifier, name)]);
    let tree = node(
        Rule::SelectQuery,
        vec![
            table("first"),
            node(Rule::SelectList, vec![item("a")]),
            leaf(Rule::Number, "7"),
            node(Rule::SelectList, vec![item("b"), item("c")]),
            table("second"),
        ],
    );
    assert_eq!(
        build_query_structure(&tree),
        Ok(SelectQuery {
            columns: vec![column("b"), column("c")],
            table: Table::Simple("second".to_string()),
            where_clause: None,
        })
    );
}

#[test]
fn statement_without_parts() {
    assert_eq!(
        build_query_structure(&node(Rule::SelectQuery, vec![])),
        Err(ParseError::TableNotSpecified)
    );
    let table_only = node(
        Rule::SelectQuery,
        vec![node(Rule::Table, vec![leaf(Rule::Identifier, "t")])],
    );
    assert_eq!(
        build_query_structure(&table_only),
        Ok(SelectQuery {
            columns: vec![],
            table: Table::Simple("t".to_string()),
            where_clause: None
        })
    );
}

#[test]
fn statement_stops_at_the_first_failing_child() {
    let tree = node(
        Rule::SelectQuery,
        vec![
            node(Rule::WhereClause, vec![]),
            node(Rule::Table, vec![]),
            node(Rule::SelectList, vec![node(Rule::SelectItem, vec![])]),
        ],
    );
    assert_eq!(build_query_structure(&tree), Err(ParseError::NoConditionInWhereClause));
}
