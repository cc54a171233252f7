//! Tests of the template grammar parser.

use scyllax::parser::{
    Column, Expected, ParseError, Value, Variable, eof, parse_column, parse_escaped, parse_identifier,
    parse_limit_clause, parse_rust_flavored_variable, parse_string, parse_string_escaped_rust_flavored_variable,
    parse_value, parse_variable,
};

#[test]
fn test_regular_literal() {
    assert_eq!(parse_string("foo", 0), Ok(("foo".to_string(), 3)));
}

#[test]
fn test_escaped_literal() {
    assert_eq!(parse_string(r#""foo""#, 0), Ok((r#""foo""#.to_string(), 5)));
}

#[test]
fn boolean_value_any_case() {
    assert_eq!(parse_value("true", 0), Ok((Value::Boolean(true), 4)));
    assert_eq!(parse_value("TRUE", 0), Ok((Value::Boolean(true), 4)));
    assert_eq!(parse_value("false", 0), Ok((Value::Boolean(false), 5)));
    assert_eq!(parse_value("FaLsE", 0), Ok((Value::Boolean(false), 5)));
}

#[test]
fn reserved_keyword_variable_is_typed_error() {
    assert_eq!(
        parse_variable(":limit", 0),
        Err(ParseError::ReservedKeyword {
            name: "limit".to_string(),
            at: 0
        })
    );
    assert_eq!(
        parse_variable(":SELECT", 0),
        Err(ParseError::ReservedKeyword {
            name: "SELECT".to_string(),
            at: 0
        })
    );
}

#[test]
fn variables() {
    assert_eq!(parse_variable("?", 0), Ok((Variable::Placeholder, 1)));
    assert_eq!(
        parse_variable(":user_id2 rest", 0),
        Ok((Variable::NamedVariable("user_id2".to_string()), 9))
    );
    assert_eq!(
        parse_variable("x", 0),
        Err(ParseError::Unexpected {
            expected: Expected::Variable,
            at: 0
        })
    );
    assert_eq!(
        parse_variable(":9", 0),
        Err(ParseError::Unexpected {
            expected: Expected::Identifier,
            at: 1
        })
    );
}

#[test]
fn variable_renders_back() {
    assert_eq!(Variable::Placeholder.render(), "?");
    assert_eq!(Variable::NamedVariable("limit_value".to_string()).render(), ":limit_value");
}

#[test]
fn identifiers() {
    assert_eq!(parse_identifier("foo_bar9 x", 0), Ok(("foo_bar9".to_string(), 8)));
    assert_eq!(parse_rust_flavored_variable("_x", 0), Ok(("_x".to_string(), 2)));
    assert_eq!(
        parse_identifier("9x", 0),
        Err(ParseError::Unexpected {
            expected: Expected::Identifier,
            at: 0
        })
    );
}

#[test]
fn escaped_tokens() {
    assert_eq!(parse_escaped(r#""foo""#, 0), Ok(("foo".to_string(), 5)));
    assert!(parse_escaped(r#""foo"#, 0).is_err());
    assert!(parse_escaped(r#""""#, 0).is_err());
    assert_eq!(
        parse_string_escaped_rust_flavored_variable(r#""createdAt""#, 0),
        Ok(("createdAt".to_string(), 11))
    );
}

#[test]
fn numbers() {
    assert_eq!(parse_value("42 rest", 0), Ok((Value::Number(42), 2)));
    assert_eq!(parse_value("0", 0), Ok((Value::Number(0), 1)));
    assert_eq!(
        parse_value("99999999999999999999999999999999", 0),
        Err(ParseError::NumberTooLarge { at: 0 })
    );
}

#[test]
fn literal_is_last_alternative() {
    assert_eq!(parse_value("truest", 0), Ok((Value::Boolean(true), 4)));
    assert_eq!(parse_value("falsehood", 0), Ok((Value::Boolean(false), 5)));
    assert_eq!(parse_value("foo", 0), Ok((Value::Literal("foo".to_string()), 3)));
    assert_eq!(
        parse_value(r#""Quoted""#, 0),
        Ok((Value::Literal(r#""Quoted""#.to_string()), 8))
    );
    assert_eq!(
        parse_value("?", 0),
        Ok((Value::Variable(Variable::Placeholder), 1))
    );
    assert_eq!(
        parse_value(":limit", 0),
        Err(ParseError::ReservedKeyword {
            name: "limit".to_string(),
            at: 0
        })
    );
    assert_eq!(
        parse_value("!", 0),
        Err(ParseError::Unexpected {
            expected: Expected::Literal,
            at: 0
        })
    );
}

#[test]
fn limit_clauses() {
    assert_eq!(parse_limit_clause("limit 10", 0), Ok((Value::Number(10), 8)));
    assert_eq!(
        parse_limit_clause("LIMIT :count", 0),
        Ok((Value::Variable(Variable::NamedVariable("count".to_string())), 12))
    );
    assert_eq!(parse_limit_clause("limit ?", 0), Ok((Value::Variable(Variable::Placeholder), 7)));
    assert_eq!(
        parse_limit_clause("limit10", 0),
        Err(ParseError::Unexpected {
            expected: Expected::LimitKeyword,
            at: 0
        })
    );
}

#[test]
fn columns() {
    assert_eq!(parse_column("*", 0), Ok((Column::Asterisk, 1)));
    assert_eq!(
        parse_column("email,", 0),
        Ok((Column::Identifier("email".to_string()), 5))
    );
    assert_eq!(
        parse_column(r#""createdAt","#, 0),
        Ok((Column::Identifier(r#""createdAt""#.to_string()), 11))
    );
    assert_eq!(
        parse_column("7", 0),
        Err(ParseError::Unexpected {
            expected: Expected::Column,
            at: 0
        })
    );
}

#[test]
fn end_of_input() {
    assert_eq!(eof("ab", 2), Ok(()));
    assert_eq!(
        eof("ab", 1),
        Err(ParseError::Unexpected {
            expected: Expected::EndOfInput,
            at: 1
        })
    );
}
