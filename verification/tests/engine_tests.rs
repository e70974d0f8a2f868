use squirrel::catalog::{format_table_def, parse_table_def};
use squirrel::command::Command;
use squirrel::datatypes::Datatype;
use squirrel::engine::{encode_row, run_delete, run_select};
use squirrel::error::SqlError;
use squirrel::table_def::TableDefinition;

/// Builds the two-column table of the examples: a one-byte integer `id`
/// and a four-byte varchar `name`.
fn users_def() -> TableDefinition {
    match Command::from_string(String::from("CREATE TABLE users (id integer, name varchar 4);"))
        .unwrap()
    {
        Command::Create(create) => create.table_definition,
        other => panic!("expected a CREATE command, got {:?}", other),
    }
}

/// Encodes one row of the `users` table through the INSERT pipeline.
fn users_row(def: &TableDefinition, id: &str, name: &str) -> Vec<u8> {
    let stmt = format!("INSERT INTO users (id, name) VALUES ({}, \"{}\");", id, name);
    match Command::from_string(stmt).unwrap() {
        Command::Insert(ins) => encode_row(def, &ins.items).unwrap(),
        other => panic!("expected an INSERT command, got {:?}", other),
    }
}

fn select_over(def: &TableDefinition, stmt: &str, data: &[u8]) -> Result<String, SqlError> {
    match Command::from_string(String::from(stmt)).unwrap() {
        Command::Select(sel) => run_select(&sel, def, data),
        other => panic!("expected a SELECT command, got {:?}", other),
    }
}

fn delete_over(
    def: &TableDefinition,
    stmt: &str,
    data: &[u8],
) -> Result<(Vec<u8>, usize), SqlError> {
    match Command::from_string(String::from(stmt)).unwrap() {
        Command::Delete(del) => run_delete(&del.logic_expression, def, data),
        other => panic!("expected a DELETE command, got {:?}", other),
    }
}

#[test]
fn row_layout_and_byte_size() {
    let def = users_def();
    assert_eq!(def.get_byte_size(), 5);
    let row = users_row(&def, "1", "Test");
    assert_eq!(row, vec![1u8, b'T', b'e', b's', b't']);
}

#[test]
fn short_values_are_zero_padded() {
    let def = users_def();
    let row = users_row(&def, "7", "ab");
    assert_eq!(row, vec![7u8, b'a', b'b', 0, 0]);
}

#[test]
fn insert_select_round_trip() {
    let def = users_def();
    let data = users_row(&def, "1", "Test");
    let rendered = select_over(&def, "SELECT * FROM users;", &data).unwrap();
    assert_eq!(rendered, "| id | name | \n-------------\n| 1  | Test | \n");
}

#[test]
fn padded_value_round_trips_without_nul() {
    let def = users_def();
    let data = users_row(&def, "2", "ab");
    let rendered = select_over(&def, "SELECT name FROM users;", &data).unwrap();
    assert_eq!(rendered, "| name | \n--------\n| ab   | \n");
    assert!(!rendered.contains('\u{0}'));
}

#[test]
fn predicate_filters_rows() {
    let def = users_def();
    let mut data = users_row(&def, "1", "aaaa");
    data.extend_from_slice(&users_row(&def, "9", "bbbb"));
    let rendered = select_over(&def, "SELECT * FROM users WHERE id > 5;", &data).unwrap();
    assert_eq!(rendered, "| id | name | \n-------------\n| 9  | bbbb | \n");
}

#[test]
fn ordering_a_string_column_is_an_error_not_a_panic() {
    let def = users_def();
    let mut data = users_row(&def, "1", "aaaa");
    data.extend_from_slice(&users_row(&def, "9", "bbbb"));
    let err = select_over(&def, "SELECT * FROM users WHERE name > 'a';", &data).unwrap_err();
    assert_eq!(err, SqlError::InvalidOperator);
}

#[test]
fn delete_removes_matching_rows_and_counts_them() {
    let def = users_def();
    let row1 = users_row(&def, "1", "aaaa");
    let row9 = users_row(&def, "9", "bbbb");
    let mut data = row1.clone();
    data.extend_from_slice(&row9);

    let (survivors, count) = delete_over(&def, "DELETE FROM users WHERE id = 1;", &data).unwrap();
    assert_eq!(count, 1);
    assert_eq!(survivors, row9);

    // No surviving row matches the predicate any more.
    let (again, count_again) =
        delete_over(&def, "DELETE FROM users WHERE id = 1;", &survivors).unwrap();
    assert_eq!(count_again, 0);
    assert_eq!(again, row9);
}

#[test]
fn delete_without_predicate_removes_everything() {
    let def = users_def();
    let mut data = users_row(&def, "1", "aaaa");
    data.extend_from_slice(&users_row(&def, "9", "bbbb"));
    let (survivors, count) = delete_over(&def, "DELETE FROM users;", &data).unwrap();
    assert_eq!(count, 2);
    assert!(survivors.is_empty());
}

#[test]
fn misspelled_predicate_column_is_unbound() {
    let def = users_def();
    let data = users_row(&def, "1", "aaaa");
    let err = select_over(&def, "SELECT * FROM users WHERE bogus = 'x';", &data).unwrap_err();
    assert_eq!(err, SqlError::UnboundColumn);
}

#[test]
fn mixed_kind_comparison_is_a_type_mismatch() {
    let def = users_def();
    let data = users_row(&def, "1", "aaaa");
    let err = select_over(&def, "SELECT * FROM users WHERE id = 'one';", &data).unwrap_err();
    assert_eq!(err, SqlError::TypeMismatch);
}

#[test]
fn missing_column_value_fails_the_insert() {
    let def = users_def();
    let items = match Command::from_string(String::from(
        "INSERT INTO users (id) VALUES (1);",
    ))
    .unwrap()
    {
        Command::Insert(ins) => ins.items,
        other => panic!("expected an INSERT command, got {:?}", other),
    };
    assert_eq!(
        encode_row(&def, &items).unwrap_err(),
        SqlError::MissingColumnValue(String::from("name"))
    );
}

#[test]
fn catalog_text_round_trips() {
    let def = users_def();
    let text = format_table_def(&def);
    assert_eq!(text, "id integer 0 \nname varchar 4 \n");
    let reloaded = parse_table_def(String::from("users"), &text).unwrap();
    assert_eq!(reloaded, def);
}

#[test]
fn corrupt_catalog_lines_are_rejected() {
    assert_eq!(
        parse_table_def(String::from("t"), "bad line").unwrap_err(),
        SqlError::CatalogCorrupt(String::from("bad line"))
    );
    assert_eq!(
        parse_table_def(String::from("t"), "a blob 0 \n").unwrap_err(),
        SqlError::CatalogCorrupt(String::from("a blob 0 "))
    );
    assert_eq!(
        parse_table_def(String::from("t"), "a varchar 70000 \n").unwrap_err(),
        SqlError::CatalogCorrupt(String::from("a varchar 70000 "))
    );
}

#[test]
fn trailing_partial_row_is_ignored() {
    let def = users_def();
    let mut data = users_row(&def, "1", "aaaa");
    data.push(42);
    let rendered = select_over(&def, "SELECT id FROM users;", &data).unwrap();
    assert_eq!(rendered, "| id | \n------\n| 1  | \n");
}

#[test]
fn repeated_selected_column_renders_twice_with_one_separator_run() {
    let def = users_def();
    let data = users_row(&def, "1", "aaaa");
    let rendered = select_over(&def, "SELECT id, id FROM users;", &data).unwrap();
    assert_eq!(rendered, "| id | id | \n------\n| 1  | 1  | \n");
}

#[test]
fn integer_codec_round_trips_every_byte() {
    for v in 0..=255u8 {
        let numeral = format!("{}", v);
        let bytes = Datatype::Integer.to_bytes(numeral.clone()).unwrap();
        assert_eq!(bytes, vec![v]);
        assert_eq!(Datatype::Integer.from_bytes(&bytes).unwrap(), numeral);
    }
}

#[test]
fn integer_codec_rejects_bad_numerals() {
    assert_eq!(
        Datatype::Integer.to_bytes(String::from("abc")).unwrap_err(),
        SqlError::NotANumber(String::from("abc"))
    );
    assert_eq!(
        Datatype::Integer.to_bytes(String::from("300")).unwrap_err(),
        SqlError::ValueOutOfRange(String::from("300"))
    );
    assert_eq!(
        Datatype::Integer.from_bytes(&[]).unwrap_err(),
        SqlError::EmptyValue
    );
}

#[test]
fn varchar_codec_is_utf8() {
    let bytes = Datatype::CharacterVarying
        .to_bytes(String::from("héllo"))
        .unwrap();
    assert_eq!(bytes, "héllo".as_bytes().to_vec());
    assert_eq!(
        Datatype::CharacterVarying.from_bytes(&bytes).unwrap(),
        "héllo"
    );
    assert_eq!(
        Datatype::CharacterVarying.from_bytes(&[0xff]).unwrap_err(),
        SqlError::InvalidUtf8
    );
}

#[test]
fn datatype_names_resolve() {
    assert_eq!(Datatype::parse_from_str("varchar").unwrap(), Datatype::CharacterVarying);
    assert_eq!(
        Datatype::parse_from_str("character varying").unwrap(),
        Datatype::CharacterVarying
    );
    assert_eq!(Datatype::parse_from_str("integer").unwrap(), Datatype::Integer);
    assert_eq!(Datatype::parse_from_str("int").unwrap(), Datatype::Integer);
    assert_eq!(Datatype::parse_from_str("int8").unwrap(), Datatype::Integer);
    assert_eq!(
        Datatype::parse_from_str("blob").unwrap_err(),
        SqlError::UnknownType(String::from("blob"))
    );
    assert_eq!(
        Datatype::from_str("blob").unwrap_err(),
        String::from("Undefined data type")
    );
    assert_eq!(Datatype::Integer.as_str(), "integer");
    assert_eq!(Datatype::CharacterVarying.as_str(), "varchar");
    assert!(Datatype::CharacterVarying.has_len());
    assert!(!Datatype::Integer.has_len());
}

#[test]
fn error_messages_are_readable() {
    assert_eq!(
        SqlError::UnknownCommand(String::from("FOO")).message(),
        "Unknown command 'FOO'"
    );
    assert_eq!(
        SqlError::MissingColumnValue(String::from("name")).message(),
        "INSERT statement is missing data for column 'name'"
    );
}
