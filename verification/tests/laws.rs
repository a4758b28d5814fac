use sql_select_parser::number::decimal_text;
use sql_select_parser::text::{chars_of, str_eq_ignore_ascii_case};
use sql_select_parser::{
    parse_query, Condition, ParseError, SelectItem, SelectQuery, Table, Value,
};

fn column(name: &str) -> SelectItem {
    SelectItem::Column(name.to_string())
}

fn simple(name: &str) -> Table {
    Table::Simple(name.to_string())
}

fn is_identifier(text: &str) -> bool {
    let mut chars = text.chars();
    let first_ok = matches!(chars.next(), Some(c) if c.is_ascii_alphabetic() || c == '_');
    first_ok
        && chars.all(|c| c.is_ascii_alphanumeric() || c == '_')
        && !["select", "from", "where"].contains(&text.to_ascii_lowercase().as_str())
}

fn item_well_formed(item: &SelectItem) -> bool {
    match item {
        SelectItem::Column(name) => name == "*" || is_identifier(name),
        SelectItem::Function { name, arguments } => {
            is_identifier(name) && !arguments.is_empty() && arguments.iter().all(item_well_formed)
        }
    }
}

fn well_formed(query: &SelectQuery) -> bool {
    let table_ok = match &query.table {
        Table::Simple(name) => is_identifier(name),
        Table::Subquery(inner) => well_formed(inner),
    };
    let where_ok = match &query.where_clause {
        Some(c) => {
            is_identifier(&c.left)
                && ["=", ">", "<", ">=", "<=", "!="].contains(&c.operator.as_str())
                && match &c.right {
                    Value::String(s) => !s.contains('\''),
                    _ => true,
                }
        }
        None => true,
    };
    !query.columns.is_empty() && query.columns.iter().all(item_well_formed) && table_ok && where_ok
}

#[test]
fn n_plain_columns_give_n_columns_in_order() {
    let names = ["a", "b2", "_c", "*", "d_d", "E", "f", "g", "h", "i", "j", "k"];
    for n in 1..=names.len() {
        let text = format!("SELECT {} FROM t", names[..n].join(", "));
        let query = parse_query(&text).unwrap();
        let expected: Vec<SelectItem> = names[..n].iter().map(|name| column(name)).collect();
        assert_eq!(query.columns, expected);
        assert_eq!(query.table, simple("t"));
        assert_eq!(query.where_clause, None);
    }
}

#[test]
fn plain_columns_with_other_spacing() {
    let query = parse_query("\n select\ta ,b,\r\n  c   from\tt").unwrap();
    assert_eq!(query.columns, vec![column("a"), column("b"), column("c")]);
    assert_eq!(query.table, simple("t"));
}

#[test]
fn parsing_twice_gives_the_same() {
    let texts = [
        "SELECT name, age FROM users",
        "SELECT COUNT(id) FROM (SELECT id FROM orders WHERE total >= 10) o WHERE id != 0",
        "SELECT FROM users",
        "nothing",
        "SELECT a FROM t WHERE a = 99999999999999999999",
    ];
    for text in texts {
        assert_eq!(parse_query(text), parse_query(text));
    }
}

#[test]
fn parsed_statements_are_well_formed_at_every_depth() {
    let texts = [
        "SELECT name FROM (SELECT name, age FROM users) AS sub",
        "SELECT a FROM (SELECT b FROM (SELECT MAX(c, MIN(d)) FROM (SELECT * FROM t) w \
         WHERE c = 'x') AS x WHERE b < -1) y WHERE a = TRUE",
        "select * from t",
        "SELECT f(g(h(x))) FROM t WHERE k <= 0",
    ];
    for text in texts {
        let query = parse_query(text).unwrap();
        assert!(well_formed(&query), "{}", text);
    }
}

#[test]
fn nested_statements_to_depth_three() {
    let query =
        parse_query("SELECT a FROM (SELECT b FROM (SELECT c FROM t WHERE c > 1) AS x) AS y")
            .unwrap();
    let expected = SelectQuery {
        columns: vec![column("a")],
        table: Table::Subquery(Box::new(SelectQuery {
            columns: vec![column("b")],
            table: Table::Subquery(Box::new(SelectQuery {
                columns: vec![column("c")],
                table: simple("t"),
                where_clause: Some(Condition {
                    left: "c".to_string(),
                    operator: ">".to_string(),
                    right: Value::Number(1),
                }),
            })),
            where_clause: None,
        })),
        where_clause: None,
    };
    assert_eq!(query, expected);
}

#[test]
fn where_clause_is_there_exactly_when_the_keyword_is() {
    assert!(parse_query("SELECT a FROM t").unwrap().where_clause.is_none());
    assert!(parse_query("SELECT a FROM t wherever").unwrap().where_clause.is_none());
    assert!(parse_query("SELECT a FROM t , WHERE a = 1").unwrap().where_clause.is_none());
    assert!(parse_query("SELECT a FROM t WHERE a = 1").unwrap().where_clause.is_some());
    assert!(parse_query("SELECT a FROM t\nwhere a = 1").unwrap().where_clause.is_some());
    assert!(parse_query("SELECT a FROM (SELECT b FROM u WHERE b = 1) x")
        .unwrap()
        .where_clause
        .is_none());
}

#[test]
fn every_operator_and_every_kind_of_value() {
    for op in ["=", ">", "<", ">=", "<=", "!="] {
        let query = parse_query(&format!("SELECT a FROM t WHERE a {} -5", op)).unwrap();
        assert_eq!(
            query.where_clause,
            Some(Condition {
                left: "a".to_string(),
                operator: op.to_string(),
                right: Value::Number(-5)
            })
        );
    }
    let right = |text: &str| parse_query(text).unwrap().where_clause.unwrap().right;
    assert_eq!(right("SELECT a FROM t WHERE a = 'it is'"), Value::String("it is".to_string()));
    assert_eq!(right("SELECT a FROM t WHERE a = ''"), Value::String(String::new()));
    assert_eq!(right("SELECT a FROM t WHERE a = 'SELECT'"), Value::String("SELECT".to_string()));
    assert_eq!(right("SELECT a FROM t WHERE a = FALSE"), Value::Boolean(false));
    assert_eq!(right("SELECT a FROM t WHERE a = True"), Value::Boolean(true));
    assert_eq!(
        right("SELECT a FROM t WHERE a = 9223372036854775807"),
        Value::Number(i64::MAX)
    );
    assert_eq!(
        right("SELECT a FROM t WHERE a = -9223372036854775808"),
        Value::Number(i64::MIN)
    );
}

#[test]
fn names_and_strings_keep_their_case() {
    let query = parse_query("sElEcT NaMe FROM UsErS wHeRe RoLe = 'AdMiN'").unwrap();
    assert_eq!(query.columns, vec![column("NaMe")]);
    assert_eq!(query.table, simple("UsErS"));
    let condition = query.where_clause.unwrap();
    assert_eq!(condition.left, "RoLe");
    assert_eq!(condition.right, Value::String("AdMiN".to_string()));
}

#[test]
fn only_gaps_and_syntax_errors_come_from_text() {
    let texts = [
        "", "x", "SELECT", "SELECT ,", "SELECT a FROM", "SELECT a FROM (", "SELECT a FROM ()",
        "SELECT a FROM t WHERE", "SELECT a FROM t WHERE a", "SELECT a FROM t WHERE a >",
        "SELECT a FROM t WHERE a > 99999999999999999999", "SELECT f( FROM t", "SELECT ( FROM t",
        "SELECT a b FROM t", "SELECT 1 FROM t", "SELECT 'a' FROM t",
    ];
    for text in texts {
        match parse_query(text) {
            Err(ParseError::ParsingError(_))
            | Err(ParseError::TableNotSpecified)
            | Err(ParseError::MissingSelectItem)
            | Err(ParseError::MissingTableName)
            | Err(ParseError::NoConditionInWhereClause)
            | Err(ParseError::MissingOperator)
            | Err(ParseError::MissingRightOperand)
            | Err(ParseError::InvalidNumber(_)) => {}
            other => panic!("{:?} gave {:?}", text, other),
        }
    }
}

#[test]
fn decimal_text_of_numbers() {
    assert_eq!(decimal_text(0), "0");
    assert_eq!(decimal_text(9), "9");
    assert_eq!(decimal_text(10), "10");
    assert_eq!(decimal_text(1203), "1203");
    assert_eq!(decimal_text(usize::MAX), usize::MAX.to_string());
}

#[test]
fn characters_of_a_text() {
    assert_eq!(chars_of(""), Vec::<char>::new());
    assert_eq!(chars_of("a\u{e9}\u{1f600}b"), vec!['a', '\u{e9}', '\u{1f600}', 'b']);
}

#[test]
fn comparison_without_ascii_case() {
    assert!(str_eq_ignore_ascii_case("SeLect", "select"));
    assert!(str_eq_ignore_ascii_case("", ""));
    assert!(!str_eq_ignore_ascii_case("select", "selec"));
    assert!(!str_eq_ignore_ascii_case("selecT", "selecd"));
    assert!(str_eq_ignore_ascii_case("\u{e9}X", "\u{e9}x"));
    assert!(!str_eq_ignore_ascii_case("\u{c9}", "\u{e9}"));
    assert!(!str_eq_ignore_ascii_case("@", "`"));
    assert!(!str_eq_ignore_ascii_case("[", "{"));
}
