use diesel::attrs::{parse_attributes, parse_old_attribute, Attribute, FieldAttr, StructAttr};
use diesel::parsers::{BelongsTo, ChangesetOptions, MysqlType, PostgresType, SqliteType};
use diesel::syntax::{AttrError, Warning};
use diesel::tokens::{Delimiter, TokenTree};

fn ident(s: &str) -> TokenTree {
    TokenTree::Ident(s.to_string())
}

fn punct(c: char) -> TokenTree {
    TokenTree::Punct(c, false)
}

fn lit(s: &str) -> TokenTree {
    TokenTree::Literal(s.to_string())
}

fn paren(ts: Vec<TokenTree>) -> TokenTree {
    TokenTree::Group(Delimiter::Parenthesis, ts)
}

fn diesel_attr(ts: Vec<TokenTree>) -> Attribute {
    Attribute { path_ident: Some("diesel".to_string()), tokens: vec![paren(ts)] }
}

#[test]
fn table_name_in_diesel_list() {
    let attrs = vec![diesel_attr(vec![ident("table_name"), punct('='), ident("users")])];
    let (r, ws) = parse_attributes::<StructAttr>(&attrs);
    let items = r.unwrap();
    assert_eq!(items.len(), 1);
    match &items[0] {
        StructAttr::TableName(name, path) => {
            assert_eq!(name.0, "table_name");
            assert_eq!(path.0.trim(), "users");
        }
        other => panic!("unexpected {:?}", other),
    }
    assert!(ws.is_empty());
}

#[test]
fn old_form_reads_as_diesel_list_with_a_warning() {
    let old = Attribute { path_ident: Some("table_name".to_string()), tokens: vec![punct('='), ident("users")] };
    let (r_old, ws_old) = parse_attributes::<StructAttr>(&[old]);
    let new = diesel_attr(vec![ident("table_name"), punct('='), ident("users")]);
    let (r_new, ws_new) = parse_attributes::<StructAttr>(&[new]);
    assert_eq!(format!("{:?}", r_old), format!("{:?}", r_new));
    assert_eq!(ws_old.len(), 1);
    assert!(matches!(&ws_old[0], Warning::DeprecatedForm(n) if n == "table_name"));
    assert!(ws_new.is_empty());
}

#[test]
fn old_form_with_leftover_tokens_is_refused() {
    let old = Attribute {
        path_ident: Some("column_name".to_string()),
        tokens: vec![punct('='), ident("a"), punct(','), ident("b")],
    };
    let (r, ws) = parse_old_attribute::<FieldAttr>(&old);
    assert!(matches!(r, Err(AttrError::UnexpectedToken)));
    assert_eq!(ws.len(), 1);
}

#[test]
fn attributes_of_other_tools_are_ignored() {
    let other = Attribute { path_ident: Some("serde".to_string()), tokens: vec![paren(vec![ident("skip")])] };
    let (r, ws) = parse_attributes::<FieldAttr>(&[other]);
    assert!(r.unwrap().is_empty());
    assert!(ws.is_empty());
}

#[test]
fn field_attributes_in_order() {
    let attrs = vec![
        diesel_attr(vec![ident("column_name"), punct('='), ident("title"), punct(','), ident("embed")]),
        diesel_attr(vec![ident("sql_type"), punct('='), ident("Text"), punct(',')]),
    ];
    let (r, _) = parse_attributes::<FieldAttr>(&attrs);
    let items = r.unwrap();
    assert_eq!(items.len(), 3);
    assert!(matches!(&items[0], FieldAttr::ColumnName(n, c) if n.0 == "column_name" && c.0 == "title"));
    assert!(matches!(&items[1], FieldAttr::Embed(n) if n.0 == "embed"));
    assert!(matches!(&items[2], FieldAttr::SqlType(_, t) if t.0.trim() == "Text"));
}

#[test]
fn unknown_field_option_is_named_in_the_error() {
    let attrs = vec![diesel_attr(vec![ident("colum_name"), punct('='), ident("title")])];
    let (r, _) = parse_attributes::<FieldAttr>(&attrs);
    assert!(matches!(r, Err(AttrError::UnknownOption(n)) if n == "colum_name"));
}

#[test]
fn missing_comma_between_options() {
    let attrs = vec![diesel_attr(vec![ident("embed"), ident("embed")])];
    let (r, _) = parse_attributes::<FieldAttr>(&attrs);
    assert!(matches!(r, Err(AttrError::ExpectedComma)));
}

#[test]
fn diesel_attribute_needs_parentheses() {
    let eq = Attribute { path_ident: Some("diesel".to_string()), tokens: vec![punct('='), ident("x")] };
    assert!(matches!(parse_attributes::<FieldAttr>(&[eq]).0, Err(AttrError::ExpectedParentheses)));
    let bare = Attribute { path_ident: Some("diesel".to_string()), tokens: vec![] };
    assert!(matches!(parse_attributes::<FieldAttr>(&[bare]).0, Err(AttrError::ExpectedArguments)));
    let two = Attribute {
        path_ident: Some("diesel".to_string()),
        tokens: vec![paren(vec![ident("embed")]), ident("x")],
    };
    assert!(matches!(parse_attributes::<FieldAttr>(&[two]).0, Err(AttrError::UnexpectedArgumentToken)));
}

#[test]
fn warnings_before_an_error_are_kept() {
    let attrs = vec![
        Attribute { path_ident: Some("column_name".to_string()), tokens: vec![punct('='), ident("a")] },
        diesel_attr(vec![ident("nope")]),
    ];
    let (r, ws) = parse_attributes::<FieldAttr>(&attrs);
    assert!(matches!(r, Err(AttrError::UnknownOption(n)) if n == "nope"));
    assert_eq!(ws.len(), 1);
}

#[test]
fn primary_key_and_flags() {
    let attrs = vec![diesel_attr(vec![
        ident("primary_key"),
        paren(vec![ident("id"), punct(','), ident("version"), punct(',')]),
        punct(','),
        ident("aggregate"),
        punct(','),
        ident("not_sized"),
        punct(','),
        ident("foreign_derive"),
    ])];
    let (r, _) = parse_attributes::<StructAttr>(&attrs);
    let items = r.unwrap();
    assert_eq!(items.len(), 4);
    match &items[0] {
        StructAttr::PrimaryKey(_, keys) => {
            let names: Vec<&str> = keys.iter().map(|k| k.0.as_str()).collect();
            assert_eq!(names, vec!["id", "version"]);
        }
        other => panic!("unexpected {:?}", other),
    }
    assert!(matches!(&items[1], StructAttr::Aggregate(_)));
    assert!(matches!(&items[2], StructAttr::NotSized(_)));
    assert!(matches!(&items[3], StructAttr::ForeignDerive(_)));
}

#[test]
fn belongs_to_with_foreign_key() {
    let ts = vec![ident("User"), punct(','), ident("foreign_key"), punct('='), ident("author_id")];
    let (b, end) = BelongsTo::parse(&ts).unwrap();
    assert_eq!(b.parent.0.trim(), "User");
    assert_eq!(b.foreign_key.unwrap().0, "author_id");
    assert_eq!(end, 5);
}

#[test]
fn belongs_to_without_options_stops_after_parent() {
    let ts = vec![ident("User")];
    let (b, end) = BelongsTo::parse(&ts).unwrap();
    assert!(b.foreign_key.is_none());
    assert_eq!(end, 1);
}

#[test]
fn belongs_to_with_unknown_option() {
    let ts = vec![ident("User"), punct(','), ident("key"), punct('='), ident("x")];
    assert!(matches!(BelongsTo::parse(&ts), Err(AttrError::UnknownOption(n)) if n == "key"));
}

#[test]
fn belongs_to_parent_followed_by_junk_is_refused() {
    let attrs = vec![diesel_attr(vec![ident("belongs_to"), paren(vec![ident("User"), ident("extra")])])];
    let (r, _) = parse_attributes::<StructAttr>(&attrs);
    assert!(matches!(r, Err(AttrError::UnexpectedToken)));
    let (b, end) = BelongsTo::parse(&vec![ident("User"), ident("extra")]).unwrap();
    assert_eq!(b.parent.0.trim(), "User");
    assert_eq!(end, 1);
}

#[test]
fn a_later_error_wins_over_a_partly_unread_group() {
    let attrs = vec![diesel_attr(vec![
        ident("belongs_to"),
        paren(vec![ident("User"), ident("extra")]),
        punct(','),
        ident("nope"),
    ])];
    let (r, _) = parse_attributes::<StructAttr>(&attrs);
    assert!(matches!(r, Err(AttrError::UnknownOption(n)) if n == "nope"));
}

#[test]
fn value_followed_by_stray_tokens_wants_a_comma() {
    let attrs = vec![diesel_attr(vec![ident("sql_type"), punct('='), ident("Integer"), ident("Text")])];
    assert!(matches!(parse_attributes::<FieldAttr>(&attrs).0, Err(AttrError::ExpectedComma)));
    let attrs = vec![diesel_attr(vec![ident("table_name"), punct('='), ident("users"), ident("extra")])];
    assert!(matches!(parse_attributes::<StructAttr>(&attrs).0, Err(AttrError::ExpectedComma)));
    let old = Attribute {
        path_ident: Some("sql_type".to_string()),
        tokens: vec![punct('='), ident("Integer"), ident("Text")],
    };
    assert!(matches!(parse_old_attribute::<FieldAttr>(&old).0, Err(AttrError::UnexpectedToken)));
    let generic = vec![diesel_attr(vec![
        ident("sql_type"),
        punct('='),
        ident("Nullable"),
        punct('<'),
        ident("Text"),
        punct('>'),
    ])];
    assert!(matches!(&parse_attributes::<FieldAttr>(&generic).0.unwrap()[..], [FieldAttr::SqlType(_, t)] if t.0.trim() == "Nullable < Text >"));
}

#[test]
fn changeset_options_read_a_boolean() {
    let ts = vec![ident("treat_none_as_null"), punct('='), ident("true")];
    let c = ChangesetOptions::parse(&ts).unwrap();
    assert_eq!(c.treat_none_as_null.unwrap().0, true);
    let empty = ChangesetOptions::parse(&vec![]).unwrap();
    assert!(empty.treat_none_as_null.is_none());
    let bad = vec![ident("treat_none_as_null"), punct('='), lit("\"yes\"")];
    assert!(matches!(ChangesetOptions::parse(&bad), Err(AttrError::ExpectedBooleanLiteral)));
}

#[test]
fn mysql_and_sqlite_types_need_a_name() {
    let ts = vec![ident("name"), punct('='), lit("\"Datetime\"")];
    assert_eq!(MysqlType::parse(&ts).unwrap().name.0, "\"Datetime\"");
    assert_eq!(SqliteType::parse(&ts).unwrap().name.0, "\"Datetime\"");
    assert!(matches!(MysqlType::parse(&vec![]), Err(AttrError::MissingName)));
    assert!(matches!(SqliteType::parse(&vec![]), Err(AttrError::MissingName)));
}

#[test]
fn postgres_type_by_oids() {
    let ts = vec![ident("oid"), punct('='), lit("23"), punct(','), ident("array_oid"), punct('='), lit("1007")];
    let (p, ws) = PostgresType::parse(&ts).unwrap();
    assert!(matches!(p, PostgresType::Fixed(o, a) if o.0 == "23" && a.0 == "1007"));
    assert!(ws.is_empty());
}

#[test]
fn postgres_type_by_name_warns_about_oids() {
    let ts = vec![
        ident("type_name"),
        punct('='),
        lit("\"my_type\""),
        punct(','),
        ident("oid"),
        punct('='),
        lit("1"),
    ];
    let (p, ws) = PostgresType::parse(&ts).unwrap();
    assert!(matches!(p, PostgresType::Lookup(n, None) if n.0 == "\"my_type\""));
    assert_eq!(ws.len(), 1);
    assert!(matches!(ws[0], Warning::UnexpectedOid));
}

#[test]
fn postgres_type_errors() {
    let schema_only = vec![ident("type_schema"), punct('='), lit("\"public\"")];
    assert!(matches!(PostgresType::parse(&schema_only), Err(AttrError::TypeNameRequired)));
    let one_oid = vec![ident("oid"), punct('='), lit("23")];
    assert!(matches!(PostgresType::parse(&one_oid), Err(AttrError::MissingOids)));
    let unknown = vec![ident("oidd"), punct('='), lit("23")];
    assert!(matches!(PostgresType::parse(&unknown), Err(AttrError::UnknownOption(n)) if n == "oidd"));
    let no_eq = vec![ident("oid"), lit("23")];
    assert!(matches!(PostgresType::parse(&no_eq), Err(AttrError::ExpectedEq)));
}

#[test]
fn later_option_wins() {
    let ts = vec![ident("name"), punct('='), lit("\"A\""), punct(','), ident("name"), punct('='), lit("\"B\"")];
    assert_eq!(MysqlType::parse(&ts).unwrap().name.0, "\"B\"");
}

#[test]
fn negative_integer_literal_as_oid() {
    let ts = vec![
        ident("oid"),
        punct('='),
        punct('-'),
        lit("5"),
        punct(','),
        ident("array_oid"),
        punct('='),
        lit("6"),
    ];
    let (p, _) = PostgresType::parse(&ts).unwrap();
    assert!(matches!(p, PostgresType::Fixed(o, _) if o.0 == "-5"));
}

#[test]
fn two_attributes_read_as_each_in_turn() {
    let a = diesel_attr(vec![ident("column_name"), punct('='), ident("title")]);
    let b = Attribute { path_ident: Some("sql_type".to_string()), tokens: vec![punct('='), ident("Text")] };
    let (r_a, w_a) = parse_attributes::<FieldAttr>(&[a]);
    let (r_b, w_b) = parse_attributes::<FieldAttr>(&[b]);
    let a = diesel_attr(vec![ident("column_name"), punct('='), ident("title")]);
    let b = Attribute { path_ident: Some("sql_type".to_string()), tokens: vec![punct('='), ident("Text")] };
    let (r_ab, w_ab) = parse_attributes::<FieldAttr>(&[a, b]);
    let mut joined = r_a.unwrap();
    joined.extend(r_b.unwrap());
    assert_eq!(format!("{:?}", r_ab.unwrap()), format!("{:?}", joined));
    let mut warnings = w_a;
    warnings.extend(w_b);
    assert_eq!(format!("{:?}", w_ab), format!("{:?}", warnings));
}

#[test]
fn old_form_with_string_values_is_accepted_with_a_warning() {
    let table = Attribute { path_ident: Some("table_name".to_string()), tokens: vec![punct('='), lit("\"users\"")] };
    let (r, ws) = parse_attributes::<StructAttr>(&[table]);
    let items = r.unwrap();
    assert!(matches!(&items[..], [StructAttr::TableName(n, p)] if n.0 == "table_name" && p.0.trim() == "users"));
    assert!(matches!(&ws[..], [Warning::DeprecatedForm(n)] if n == "table_name"));
    assert_eq!(ws[0].message(), "#[table_name] attribute form is deprecated");

    let column = Attribute { path_ident: Some("column_name".to_string()), tokens: vec![punct('='), lit("\"name\"")] };
    let (r, ws) = parse_attributes::<FieldAttr>(&[column]);
    assert!(matches!(&r.unwrap()[..], [FieldAttr::ColumnName(_, c)] if c.0 == "name"));
    assert_eq!(ws.len(), 1);

    let qualified = Attribute {
        path_ident: Some("table_name".to_string()),
        tokens: vec![punct('='), lit("\"crate::schema::users\"")],
    };
    let (r, _) = parse_attributes::<StructAttr>(&[qualified]);
    assert!(matches!(&r.unwrap()[..], [StructAttr::TableName(_, p)] if p.0.trim() == "crate::schema::users"));
}

#[test]
fn old_form_primary_key_in_parentheses() {
    let pk = Attribute { path_ident: Some("primary_key".to_string()), tokens: vec![paren(vec![ident("id")])] };
    let (r, ws) = parse_attributes::<StructAttr>(&[pk]);
    assert!(matches!(&r.unwrap()[..], [StructAttr::PrimaryKey(_, keys)] if keys.len() == 1 && keys[0].0 == "id"));
    assert_eq!(ws[0].message(), "#[primary_key] attribute form is deprecated");
}

#[test]
fn c_string_literals_are_refused_without_panicking() {
    let ts = vec![ident("name"), punct('='), lit("c\"x\"")];
    assert!(matches!(MysqlType::parse(&ts), Err(AttrError::ExpectedStringLiteral)));
    let attrs = vec![diesel_attr(vec![
        ident("sql_type"),
        punct('='),
        ident("Foo"),
        punct('<'),
        lit("cr#\"x\"#"),
        punct('>'),
    ])];
    assert!(matches!(parse_attributes::<FieldAttr>(&attrs).0, Err(AttrError::ExpectedComma)));
    let neg = vec![ident("oid"), punct('='), punct('-'), lit("c\"1\""), punct(','), ident("array_oid"), punct('='), lit("2")];
    assert!(matches!(PostgresType::parse(&neg), Err(AttrError::ExpectedIntegerLiteral)));
}

#[test]
fn messages_of_argument_errors() {
    assert_eq!(AttrError::ExpectedParentheses.message(), "expected parentheses: #[diesel(...)]");
    assert_eq!(AttrError::ExpectedArguments.message(), "expected attribute arguments in parentheses: #[diesel(...)]");
    assert_eq!(AttrError::UnknownOption("nme".to_string()).message(), "`nme` is either unexpected or has bad format");
    assert_eq!(AttrError::MissingOids.message(), "expected `oid` and `array_oid` or `type_name`");
}

#[test]
fn option_order_does_not_matter() {
    let a = vec![ident("oid"), punct('='), lit("23"), punct(','), ident("array_oid"), punct('='), lit("1007"), punct(',')];
    let b = vec![ident("array_oid"), punct('='), lit("1007"), punct(','), ident("oid"), punct('='), lit("23"), punct(',')];
    assert_eq!(format!("{:?}", PostgresType::parse(&a)), format!("{:?}", PostgresType::parse(&b)));
    let c = vec![
        ident("type_schema"), punct('='), lit("\"s\""), punct(','),
        ident("type_name"), punct('='), lit("\"t\""), punct(','),
        ident("oid"), punct('='), lit("1"),
    ];
    let d = vec![
        ident("type_name"), punct('='), lit("\"t\""), punct(','),
        ident("oid"), punct('='), lit("1"), punct(','),
        ident("type_schema"), punct('='), lit("\"s\""),
    ];
    assert_eq!(format!("{:?}", PostgresType::parse(&c)), format!("{:?}", PostgresType::parse(&d)));
    assert!(PostgresType::parse(&c).is_ok());
    let twice = vec![ident("type_name"), punct('='), lit("\"a\""), punct(','), ident("type_name"), punct('='), lit("\"b\"")];
    let (p, _) = PostgresType::parse(&twice).unwrap();
    assert!(matches!(p, PostgresType::Lookup(n, None) if n.0 == "\"b\""));
}
