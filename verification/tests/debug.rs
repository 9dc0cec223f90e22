use diesel::insertable::insert_into;
use diesel::query_builder::{debug_query, Bound, Column, Mysql, Pg, Table};

struct Users;

impl Table for Users {
    type AllColumns = (Name, HairColor);
    const NAME: &'static str = "users";
}

#[derive(Clone, Copy)]
struct Name;

impl Column for Name {
    type Table = Users;
    const NAME: &'static str = "name";
}

#[derive(Clone, Copy)]
struct HairColor;

impl Column for HairColor {
    type Table = Users;
    const NAME: &'static str = "hair_color";
}

fn shown<T: std::fmt::Debug>(value: T) -> Bound {
    Bound { shown: format!("{:?}", value) }
}

fn name_eq(value: &str) -> diesel::insertable::Eq<Name, Bound> {
    diesel::insertable::Eq { left: Name, right: shown(value) }
}

fn hair_color_eq(value: Option<&str>) -> diesel::insertable::Eq<HairColor, Bound> {
    diesel::insertable::Eq { left: HairColor, right: shown(value) }
}

#[test]
fn test_debug_batch_insert() {
    let values = vec![
        (name_eq("Sean"), hair_color_eq(Some("black"))),
        (name_eq("Tess"), hair_color_eq(None::<&str>)),
    ];
    let borrowed_command = insert_into(Users).values(&values);
    let pg_borrowed_display = debug_query::<Pg, _>(&borrowed_command).to_string();
    let pg_borrowed_debug = debug_query::<Pg, _>(&borrowed_command).debug_string();
    let mysql_borrowed_display = debug_query::<Mysql, _>(&borrowed_command).to_string();
    let mysql_borrowed_debug = debug_query::<Mysql, _>(&borrowed_command).debug_string();

    let owned_command = insert_into(Users).values(values);
    let pg_owned_display = debug_query::<Pg, _>(&owned_command).to_string();
    let pg_owned_debug = debug_query::<Pg, _>(&owned_command).debug_string();
    let mysql_owned_display = debug_query::<Mysql, _>(&owned_command).to_string();
    let mysql_owned_debug = debug_query::<Mysql, _>(&owned_command).debug_string();

    assert_eq!(
        pg_borrowed_display,
        r#"INSERT INTO "users" ("name", "hair_color") VALUES ($1, $2), ($3, $4) -- binds: ["Sean", Some("black"), "Tess", None]"#
    );
    assert_eq!(
        pg_borrowed_debug,
        r#"Query { sql: "INSERT INTO \"users\" (\"name\", \"hair_color\") VALUES ($1, $2), ($3, $4)", binds: ["Sean", Some("black"), "Tess", None] }"#
    );
    assert_eq!(
        pg_owned_display,
        r#"INSERT INTO "users" ("name", "hair_color") VALUES ($1, $2), ($3, $4) -- binds: ["Sean", Some("black"), "Tess", None]"#
    );
    assert_eq!(
        pg_owned_debug,
        r#"Query { sql: "INSERT INTO \"users\" (\"name\", \"hair_color\") VALUES ($1, $2), ($3, $4)", binds: ["Sean", Some("black"), "Tess", None] }"#
    );

    assert_eq!(
        mysql_borrowed_display,
        r#"INSERT INTO `users` (`name`, `hair_color`) VALUES (?, ?), (?, ?) -- binds: ["Sean", Some("black"), "Tess", None]"#
    );
    assert_eq!(
        mysql_borrowed_debug,
        r#"Query { sql: "INSERT INTO `users` (`name`, `hair_color`) VALUES (?, ?), (?, ?)", binds: ["Sean", Some("black"), "Tess", None] }"#
    );
    assert_eq!(
        mysql_owned_display,
        r#"INSERT INTO `users` (`name`, `hair_color`) VALUES (?, ?), (?, ?) -- binds: ["Sean", Some("black"), "Tess", None]"#
    );
    assert_eq!(
        mysql_owned_debug,
        r#"Query { sql: "INSERT INTO `users` (`name`, `hair_color`) VALUES (?, ?), (?, ?)", binds: ["Sean", Some("black"), "Tess", None] }"#
    );
}
