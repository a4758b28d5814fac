use sql_select_parser::{parse_query, Condition, SelectItem, SelectQuery, Table, Value};

fn render_value(value: &Value) -> String {
    match value {
        Value::Number(n) => n.to_string(),
        Value::String(text) => format!("'{}'", text),
        Value::Boolean(b) => b.to_string(),
    }
}

fn render_item(item: &SelectItem) -> String {
    match item {
        SelectItem::Column(name) => name.clone(),
        SelectItem::Function { name, arguments } => {
            format!("{}({})", name, render_items(arguments))
        }
    }
}

fn render_items(items: &[SelectItem]) -> String {
    items.iter().map(render_item).collect::<Vec<String>>().join(", ")
}

fn render_table(table: &Table) -> String {
    match table {
        Table::Simple(name) => name.clone(),
        Table::Subquery(query) => format!("({})", render(query)),
    }
}

fn render(query: &SelectQuery) -> String {
    let mut text = format!(
        "SELECT {} FROM {}",
        render_items(&query.columns),
        render_table(&query.table)
    );
    if let Some(c) = &query.where_clause {
        text.push_str(&format!(" WHERE {} {} {}", c.left, c.operator, render_value(&c.right)));
    }
    text
}

fn column(name: &str) -> SelectItem {
    SelectItem::Column(name.to_string())
}

fn call(name: &str, arguments: Vec<SelectItem>) -> SelectItem {
    SelectItem::Function { name: name.to_string(), arguments }
}

fn filter(left: &str, operator: &str, right: Value) -> Option<Condition> {
    Some(Condition { left: left.to_string(), operator: operator.to_string(), right })
}

fn statement(
    columns: Vec<SelectItem>,
    table: Table,
    where_clause: Option<Condition>,
) -> SelectQuery {
    SelectQuery { columns, table, where_clause }
}

fn samples() -> Vec<SelectQuery> {
    let simple = |name: &str| Table::Simple(name.to_string());
    let inner = statement(
        vec![column("b"), call("MAX", vec![column("c"), call("abs", vec![column("*")])])],
        simple("t"),
        filter("c", "!=", Value::String("not this".to_string())),
    );
    let middle = statement(
        vec![column("*")],
        Table::Subquery(Box::new(inner)),
        filter("b", "<=", Value::Number(i64::MIN)),
    );
    vec![
        statement(vec![column("a")], simple("t"), None),
        statement(vec![column("*")], simple("_"), None),
        statement(vec![column("true"), column("as"), column("AS")], simple("false"), None),
        statement(vec![column("a"), column("b"), column("c")], simple("AS"), None),
        statement(vec![call("COUNT", vec![column("id")])], simple("orders"), None),
        statement(
            vec![call("f", vec![call("g", vec![call("h", vec![column("x"), column("y")])])])],
            simple("t"),
            filter("x", "=", Value::Boolean(true)),
        ),
        statement(vec![column("a")], simple("t"), filter("a", ">", Value::Number(0))),
        statement(vec![column("a")], simple("t"), filter("a", "<", Value::Number(-1))),
        statement(vec![column("a")], simple("t"), filter("a", ">=", Value::Number(i64::MAX))),
        statement(vec![column("a")], simple("t"), filter("a", "=", Value::Boolean(false))),
        statement(vec![column("a")], simple("t"), filter("a", "=", Value::String(String::new()))),
        statement(
            vec![column("a")],
            simple("t"),
            filter("a", "!=", Value::String("SELECT x FROM y WHERE z = 1 )(,".to_string())),
        ),
        statement(
            vec![column("a")],
            simple("t"),
            filter("where_", "=", Value::String("\u{e9}\u{1f600} \t\n".to_string())),
        ),
        statement(vec![column("a")], Table::Subquery(Box::new(middle)), None),
        statement(
            vec![column("a")],
            Table::Subquery(Box::new(statement(vec![column("b")], simple("u"), None))),
            filter("a", "=", Value::Number(7)),
        ),
    ]
}

#[test]
fn written_statements_parse_back() {
    for query in samples() {
        let text = render(&query);
        assert_eq!(parse_query(&text), Ok(query), "{}", text);
    }
}

#[test]
fn written_statement_looks_as_expected() {
    let query = statement(
        vec![column("a"), call("f", vec![column("b"), column("*")])],
        Table::Subquery(Box::new(statement(
            vec![column("c")],
            Table::Simple("t".to_string()),
            None,
        ))),
        filter("a", "<=", Value::Number(-3)),
    );
    assert_eq!(render(&query), "SELECT a, f(b, *) FROM (SELECT c FROM t) WHERE a <= -3");
}
