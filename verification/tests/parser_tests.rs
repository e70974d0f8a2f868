use squirrel::command::{Command, InsertCommand, InsertItem};
use squirrel::datatypes::Datatype;
use squirrel::error::SqlError;
use squirrel::expr::{DataValue, FunctionCall, ValueExpression};
use squirrel::table_def::ColumnDefinition;

#[test]
fn insert_statement() {
    let empty_statement = "";
    let regular_statement = "INSERT INTO users (id, name) VALUES (1, \"Test\");";
    let extra_ws_statement =
        "INSERT    INTO     users     (id, name)      VALUES      (1, \"Test\")    ;";
    let min_ws_statement = "INSERT INTO users(id, name) VALUES(1, \"Test\");";
    let str_comma_statement = "INSERT INTO users(id, name) VALUES(1, \"Firstname, Lastname\");";

    let expected_output = Command::Insert(InsertCommand {
        table_name: "users".to_string(),
        items: vec![
            InsertItem {
                column_name: "id".to_string(),
                column_value: "1".to_string(),
            },
            InsertItem {
                column_name: "name".to_string(),
                column_value: "Test".to_string(),
            },
        ],
    });

    let expected_output_comma = Command::Insert(InsertCommand {
        table_name: "users".to_string(),
        items: vec![
            InsertItem {
                column_name: "id".to_string(),
                column_value: "1".to_string(),
            },
            InsertItem {
                column_name: "name".to_string(),
                column_value: "Firstname, Lastname".to_string(),
            },
        ],
    });

    assert_eq!(
        Command::from_string(String::from(empty_statement)).is_ok(),
        false
    );

    assert_eq!(
        Command::from_string(String::from(regular_statement)).unwrap(),
        expected_output
    );

    assert_eq!(
        Command::from_string(String::from(extra_ws_statement)).unwrap(),
        expected_output
    );

    assert_eq!(
        Command::from_string(String::from(min_ws_statement)).unwrap(),
        expected_output
    );

    assert_eq!(
        Command::from_string(String::from(str_comma_statement)).unwrap(),
        expected_output_comma
    );
}

#[test]
fn value_expression() {
    assert_eq!(
        Command::value_expression_from_string(String::from("TEST()")).unwrap(),
        ValueExpression::FunctionCall(FunctionCall {
            function_name: String::from("TEST"),
            parameters: vec![]
        })
    );
    assert_eq!(
        Command::value_expression_from_string(String::from("TEST_TWO()")).unwrap(),
        ValueExpression::FunctionCall(FunctionCall {
            function_name: String::from("TEST_TWO"),
            parameters: vec![]
        })
    );
    assert_eq!(
        Command::value_expression_from_string(String::from("\"Name\'")).is_ok(),
        false
    );
    assert_eq!(
        Command::value_expression_from_string(String::from("id")).unwrap(),
        ValueExpression::ColumnName(String::from("id"))
    );
    assert_eq!(
        Command::value_expression_from_string(String::from("55")).unwrap(),
        ValueExpression::DataValue(DataValue::U8Value(55))
    );
    assert_eq!(
        Command::value_expression_from_string(String::from("\"Name\"")).unwrap(),
        ValueExpression::DataValue(DataValue::StringValue(String::from("Name")))
    );
}

#[test]
fn logical_expression() {
    assert_eq!(Command::le_from_string(String::from("1 < 5")).unwrap().evaluate().unwrap(), true);
    assert_eq!(Command::le_from_string(String::from("1 > 5")).unwrap().evaluate().unwrap(), false);
    assert_eq!(Command::le_from_string(String::from("1 <= 5")).unwrap().evaluate().unwrap(), true);
    assert_eq!(Command::le_from_string(String::from("1 >= 5")).unwrap().evaluate().unwrap(), false);
    assert_eq!(Command::le_from_string(String::from("5 >= 5")).unwrap().evaluate().unwrap(), true);
    assert_eq!(Command::le_from_string(String::from("5 <= 5")).unwrap().evaluate().unwrap(), true);
    assert_eq!(Command::le_from_string(String::from("5 = 5")).unwrap().evaluate().unwrap(), true);
    assert_eq!(Command::le_from_string(String::from("5 AND 5")).unwrap().evaluate().is_ok(), false);
    assert_eq!(Command::le_from_string(String::from("5 OR 5")).unwrap().evaluate().is_ok(), false);

    assert_eq!(Command::le_from_string(String::from("'Test' = 'Test'")).unwrap().evaluate().unwrap(), true);
    assert_eq!(Command::le_from_string(String::from("'Test' = 'Text'")).unwrap().evaluate().unwrap(), false);
    assert_eq!(Command::le_from_string(String::from("'Test' <= 'Test'")).unwrap().evaluate().is_ok(), false);
    assert_eq!(Command::le_from_string(String::from("'Test' >= 'Test'")).unwrap().evaluate().is_ok(), false);
    assert_eq!(Command::le_from_string(String::from("'Test' < 'Test'")).unwrap().evaluate().is_ok(), false);
    assert_eq!(Command::le_from_string(String::from("'Test' > 'Test'")).unwrap().evaluate().is_ok(), false);
    assert_eq!(Command::le_from_string(String::from("'Test' AND 'Test'")).unwrap().evaluate().is_ok(), false);
    assert_eq!(Command::le_from_string(String::from("'Test' OR 'Test'")).unwrap().evaluate().is_ok(), false);

    assert_eq!(Command::le_from_string(String::from("'Test' < 5")).unwrap().evaluate().is_ok(), false);
    assert_eq!(Command::le_from_string(String::from("'Test' > 5")).unwrap().evaluate().is_ok(), false);
    assert_eq!(Command::le_from_string(String::from("'Test' <= 5")).unwrap().evaluate().is_ok(), false);
    assert_eq!(Command::le_from_string(String::from("'Test' >= 5")).unwrap().evaluate().is_ok(), false);
    assert_eq!(Command::le_from_string(String::from("'Test' >= 5")).unwrap().evaluate().is_ok(), false);
    assert_eq!(Command::le_from_string(String::from("'Test' <= 5")).unwrap().evaluate().is_ok(), false);
    assert_eq!(Command::le_from_string(String::from("'Test' = 5")).unwrap().evaluate().is_ok(), false);
    assert_eq!(Command::le_from_string(String::from("'Test' AND 5")).unwrap().evaluate().is_ok(), false);
    assert_eq!(Command::le_from_string(String::from("'Test' OR 5")).unwrap().evaluate().is_ok(), false);
}

#[test]
fn main_logical_expression() {
    assert_eq!(Command::le_from_string(String::from("1 < 5")).unwrap().evaluate().unwrap(), true);
    assert_eq!(Command::le_from_string(String::from("1 > 5")).unwrap().evaluate().unwrap(), false);
    assert_eq!(Command::le_from_string(String::from("1 <= 5")).unwrap().evaluate().unwrap(), true);
    assert_eq!(Command::le_from_string(String::from("1 >= 5")).unwrap().evaluate().unwrap(), false);
    assert_eq!(Command::le_from_string(String::from("5 >= 5")).unwrap().evaluate().unwrap(), true);
    assert_eq!(Command::le_from_string(String::from("5 <= 5")).unwrap().evaluate().unwrap(), true);
    assert_eq!(Command::le_from_string(String::from("5 = 5")).unwrap().evaluate().unwrap(), true);
    assert_eq!(Command::le_from_string(String::from("5 AND 5")).unwrap().evaluate().is_ok(), false);
    assert_eq!(Command::le_from_string(String::from("5 OR 5")).unwrap().evaluate().is_ok(), false);

    assert_eq!(Command::le_from_string(String::from("'Test' = 'Test'")).unwrap().evaluate().unwrap(), true);
    assert_eq!(Command::le_from_string(String::from("'Test' = 'Text'")).unwrap().evaluate().unwrap(), false);
    assert_eq!(Command::le_from_string(String::from("'Test' <= 'Test'")).unwrap().evaluate().is_ok(), false);
    assert_eq!(Command::le_from_string(String::from("'Test' >= 'Test'")).unwrap().evaluate().is_ok(), false);
    assert_eq!(Command::le_from_string(String::from("'Test' < 'Test'")).unwrap().evaluate().is_ok(), false);
    assert_eq!(Command::le_from_string(String::from("'Test' > 'Test'")).unwrap().evaluate().is_ok(), false);
    assert_eq!(Command::le_from_string(String::from("'Test' AND 'Test'")).unwrap().evaluate().is_ok(), false);
    assert_eq!(Command::le_from_string(String::from("'Test' OR 'Test'")).unwrap().evaluate().is_ok(), false);

    assert_eq!(Command::le_from_string(String::from("'Test' < 5")).unwrap().evaluate().is_ok(), false);
    assert_eq!(Command::le_from_string(String::from("'Test' > 5")).unwrap().evaluate().is_ok(), false);
    assert_eq!(Command::le_from_string(String::from("'Test' <= 5")).unwrap().evaluate().is_ok(), false);
    assert_eq!(Command::le_from_string(String::from("'Test' >= 5")).unwrap().evaluate().is_ok(), false);
    assert_eq!(Command::le_from_string(String::from("'Test' >= 5")).unwrap().evaluate().is_ok(), false);
    assert_eq!(Command::le_from_string(String::from("'Test' <= 5")).unwrap().evaluate().is_ok(), false);
    assert_eq!(Command::le_from_string(String::from("'Test' = 5")).unwrap().evaluate().is_ok(), false);
    assert_eq!(Command::le_from_string(String::from("'Test' AND 5")).unwrap().evaluate().is_ok(), false);
    assert_eq!(Command::le_from_string(String::from("'Test' OR 5")).unwrap().evaluate().is_ok(), false);
}

#[test]
fn empty_quoted_strings_compare_equal() {
    assert_eq!(
        Command::le_from_string(String::from("'' = ''"))
            .unwrap()
            .evaluate()
            .unwrap(),
        true
    );
}

#[test]
fn numerals_accept_a_leading_plus_sign() {
    assert_eq!(
        Command::le_from_string(String::from("+5 = 5"))
            .unwrap()
            .evaluate()
            .unwrap(),
        true
    );
}

#[test]
fn tokenizer_splits_statement() {
    let tokens = squirrel::command::tokenizer(String::from("SELECT a, b FROM t WHERE a = 1;"));
    assert_eq!(
        tokens,
        vec!["SELECT", "a", ",", "b", "FROM", "t", "WHERE", "a", "=", "1", ";"]
            .into_iter()
            .map(String::from)
            .collect::<Vec<String>>()
    );
}

#[test]
fn tokenizer_keeps_quoted_commas() {
    let tokens = squirrel::command::tokenizer(String::from("(\"Firstname, Lastname\")"));
    assert_eq!(
        tokens,
        vec!["(", "\"", "Firstname, Lastname", "\"", ")"]
            .into_iter()
            .map(String::from)
            .collect::<Vec<String>>()
    );
}

#[test]
fn create_statement_fidelity() {
    let cmd =
        Command::from_string(String::from("CREATE TABLE users (id integer, name varchar 20);"))
            .unwrap();
    match cmd {
        Command::Create(create) => {
            assert_eq!(create.table_definition.name, "users");
            assert_eq!(
                create.table_definition.column_defs,
                vec![
                    ColumnDefinition {
                        name: String::from("id"),
                        data_type: Datatype::Integer,
                        length: 0,
                    },
                    ColumnDefinition {
                        name: String::from("name"),
                        data_type: Datatype::CharacterVarying,
                        length: 20,
                    },
                ]
            );
        }
        other => panic!("expected a CREATE command, got {:?}", other),
    }
}

#[test]
fn parse_errors_name_the_offending_token() {
    assert_eq!(
        Command::from_string(String::from("FOO;")).unwrap_err(),
        SqlError::UnknownCommand(String::from("FOO"))
    );
    assert_eq!(
        Command::from_string(String::from("")).unwrap_err(),
        SqlError::UnexpectedEnd
    );
    assert_eq!(
        Command::from_string(String::from("INSERT INTO t VALUES (1);")).unwrap_err(),
        SqlError::SyntaxError(String::from("VALUES"))
    );
    assert_eq!(
        Command::from_string(String::from("CREATE TABLE t (a blob);")).unwrap_err(),
        SqlError::UnknownType(String::from("blob"))
    );
    assert_eq!(
        Command::from_string(String::from("CREATE TABLE t (a varchar x);")).unwrap_err(),
        SqlError::NotANumber(String::from("x"))
    );
    assert_eq!(
        Command::from_string(String::from("SELECT a FROM t")).unwrap_err(),
        SqlError::UnexpectedEnd
    );
}

#[test]
fn select_and_delete_statements_parse() {
    let cmd = Command::from_string(String::from("SELECT a, b FROM t;")).unwrap();
    match cmd {
        Command::Select(sel) => {
            assert_eq!(sel.table_name, "t");
            assert_eq!(sel.column_names, vec![String::from("a"), String::from("b")]);
            assert!(sel.logic_expression.is_none());
        }
        other => panic!("expected a SELECT command, got {:?}", other),
    }
    let cmd = Command::from_string(String::from("DELETE FROM t WHERE a = 1;")).unwrap();
    match cmd {
        Command::Delete(del) => {
            assert_eq!(del.table_name, "t");
            assert!(del.logic_expression.is_some());
        }
        other => panic!("expected a DELETE command, got {:?}", other),
    }
}
