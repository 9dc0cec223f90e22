use diesel::insertable::{
    insert_into, CanInsertInSingleQuery, ColumnInsertValue, DefaultableColumnInsertValue, Grouped,
    InsertStatement, InsertValues, Insertable, ValuesClause,
};
use diesel::query_builder::{debug_query, AstPass, Bound, Column, Mysql, Pg, QueryFragment, Sqlite, Table};
use diesel::select_by::{FilterDsl, GroupByDsl, HasTable, LimitDsl, SelectByStatement, SelectDsl};

struct Users;

impl Table for Users {
    type AllColumns = (Name, HairColor);
    const NAME: &'static str = "users";
}

#[derive(Clone, Copy, Debug)]
struct Name;

impl Column for Name {
    type Table = Users;
    const NAME: &'static str = "name";
}

#[derive(Clone, Copy, Debug)]
struct HairColor;

impl Column for HairColor {
    type Table = Users;
    const NAME: &'static str = "hair_color";
}

struct Quoted;

impl Table for Quoted {
    type AllColumns = ();
    const NAME: &'static str = "we\"ird`name";
}

fn bound(shown: &str) -> Bound {
    Bound { shown: shown.to_string() }
}

fn name_eq(v: &str) -> diesel::insertable::Eq<Name, Bound> {
    diesel::insertable::Eq { left: Name, right: bound(&format!("{:?}", v)) }
}

fn hair_eq(v: &str) -> diesel::insertable::Eq<HairColor, Bound> {
    diesel::insertable::Eq { left: HairColor, right: bound(&format!("{:?}", v)) }
}

#[test]
fn single_record_on_each_backend() {
    let stmt = insert_into(Users).values(name_eq("Sean"));
    assert_eq!(
        debug_query::<Pg, _>(&stmt).to_string(),
        r#"INSERT INTO "users" ("name") VALUES ($1) -- binds: ["Sean"]"#
    );
    assert_eq!(
        debug_query::<Mysql, _>(&stmt).to_string(),
        r#"INSERT INTO `users` (`name`) VALUES (?) -- binds: ["Sean"]"#
    );
    assert_eq!(
        debug_query::<Sqlite, _>(&stmt).to_string(),
        r#"INSERT INTO `users` (`name`) VALUES (?) -- binds: ["Sean"]"#
    );
}

#[test]
fn insert_into_method_is_the_same_statement() {
    let a = name_eq("Tess").insert_into(Users);
    let b = insert_into(Users).values(name_eq("Tess"));
    assert_eq!(debug_query::<Pg, _>(&a).debug_string(), debug_query::<Pg, _>(&b).debug_string());
}

#[test]
fn single_record_is_cached_batch_is_not() {
    let single = insert_into(Users).values(name_eq("Sean"));
    let mut pass: AstPass<Pg> = AstPass::new();
    single.walk_ast(&mut pass).unwrap();
    assert!(pass.is_safe_to_cache_prepared());

    let records = vec![name_eq("Sean")];
    let batch = insert_into(Users).values(&records);
    let mut pass: AstPass<Pg> = AstPass::new();
    batch.walk_ast(&mut pass).unwrap();
    assert!(!pass.is_safe_to_cache_prepared());
    assert_eq!(pass.sql(), r#"INSERT INTO "users" ("name") VALUES ($1)"#);
}

#[test]
fn optional_record_uses_default() {
    let none: Option<diesel::insertable::Eq<Name, Bound>> = None;
    let stmt = insert_into(Users).values((name_eq("Sean"), none));
    let mut pass: AstPass<Pg> = AstPass::new();
    stmt.walk_ast(&mut pass).unwrap();
    assert_eq!(pass.sql(), "INSERT INTO \"users\" (\"name\", \"name\") VALUES ($1, DEFAULT)");
    assert!(!pass.is_safe_to_cache_prepared());
    assert_eq!(pass.bind_count(), 1);

    let some = Some(hair_eq("black"));
    let stmt = insert_into(Users).values(some);
    assert_eq!(
        debug_query::<Mysql, _>(&stmt).to_string(),
        r#"INSERT INTO `users` (`hair_color`) VALUES (?) -- binds: ["black"]"#
    );
}

#[test]
fn sqlite_leaves_a_defaulted_column_out() {
    let none: Option<diesel::insertable::Eq<HairColor, Bound>> = None;
    let stmt = insert_into(Users).values(none);
    let mut pass: AstPass<Sqlite> = AstPass::new();
    stmt.walk_ast(&mut pass).unwrap();
    assert_eq!(pass.sql(), "INSERT INTO `users` () VALUES ()");
    assert!(pass.is_safe_to_cache_prepared());
}

#[test]
fn borrowed_option_and_grouped_records() {
    let maybe = Some(name_eq("Ann"));
    let stmt = insert_into(Users).values(&maybe);
    assert_eq!(
        debug_query::<Pg, _>(&stmt).to_string(),
        r#"INSERT INTO "users" ("name") VALUES ($1) -- binds: ["Ann"]"#
    );
    let grouped = Grouped(name_eq("Bo"));
    let stmt = insert_into(Users).values(&grouped);
    assert_eq!(
        debug_query::<Pg, _>(&stmt).to_string(),
        r#"INSERT INTO "users" ("name") VALUES ($1) -- binds: ["Bo"]"#
    );
    let stmt = insert_into(Users).values(Grouped(name_eq("Cy")));
    assert_eq!(
        debug_query::<Mysql, _>(&stmt).to_string(),
        r#"INSERT INTO `users` (`name`) VALUES (?) -- binds: ["Cy"]"#
    );
}

#[test]
fn array_of_records() {
    let stmt = insert_into(Users).values([name_eq("A"), name_eq("B"), name_eq("C")]);
    let mut pass: AstPass<Pg> = AstPass::new();
    stmt.walk_ast(&mut pass).unwrap();
    assert_eq!(pass.sql(), r#"INSERT INTO "users" ("name") VALUES ($1), ($2), ($3)"#);
    assert!(pass.is_safe_to_cache_prepared());
    assert_eq!(CanInsertInSingleQuery::<Pg>::rows_to_insert(&stmt.records), Some(3));
}

#[test]
fn rows_to_insert_counts_records() {
    let records = vec![name_eq("A"), name_eq("B")];
    let borrowed = Insertable::<Users>::values(&records);
    assert_eq!(CanInsertInSingleQuery::<Mysql>::rows_to_insert(&borrowed), Some(2));
    let owned = Insertable::<Users>::values(records);
    assert_eq!(CanInsertInSingleQuery::<Pg>::rows_to_insert(&owned), Some(2));
    let one = ColumnInsertValue::new(Name, bound("1"));
    assert_eq!(CanInsertInSingleQuery::<Pg>::rows_to_insert(&one), Some(1));
    let d: DefaultableColumnInsertValue<ColumnInsertValue<Name, Bound>> = Default::default();
    assert_eq!(CanInsertInSingleQuery::<Pg>::rows_to_insert(&d), Some(1));
    assert_eq!(CanInsertInSingleQuery::<Pg>::rows_to_insert(&&d), Some(1));
}

#[test]
fn empty_batch_writes_only_the_head() {
    let records: Vec<diesel::insertable::Eq<Name, Bound>> = vec![];
    let stmt = insert_into(Users).values(&records);
    let mut pass: AstPass<Pg> = AstPass::new();
    stmt.walk_ast(&mut pass).unwrap();
    assert_eq!(pass.sql(), "INSERT INTO \"users\" ");
}

#[test]
fn placeholders_count_past_nine() {
    let records: Vec<_> = (0..11).map(|i| name_eq(&i.to_string())).collect();
    let stmt = insert_into(Users).values(&records);
    let sql = debug_query::<Pg, _>(&stmt).to_string();
    assert!(sql.starts_with(r#"INSERT INTO "users" ("name") VALUES ($1), ($2), ($3)"#));
    assert!(sql.contains("($10), ($11) -- binds: [\"0\", \"1\""));
}

#[test]
fn identifiers_double_their_quote_character() {
    let stmt = InsertStatement {
        into_clause: Quoted,
        records: ValuesClause::<ColumnInsertValue<Name, Bound>, Users>::new(ColumnInsertValue::new(Name, bound("1"))),
    };
    let mut pass: AstPass<Pg> = AstPass::new();
    stmt.walk_ast(&mut pass).unwrap();
    assert_eq!(pass.sql(), "INSERT INTO \"we\"\"ird`name\" (\"name\") VALUES ($1)");
    let mut pass: AstPass<Mysql> = AstPass::new();
    pass.push_identifier("a`b").unwrap();
    assert_eq!(pass.sql(), "`a``b`");
}

#[test]
fn column_names_of_a_pair() {
    let pair = (ColumnInsertValue::new(Name, bound("1")), ColumnInsertValue::new(HairColor, bound("2")));
    let mut pass: AstPass<Mysql> = AstPass::new();
    InsertValues::<Users, Mysql>::column_names(&pair, &mut pass).unwrap();
    assert_eq!(pass.sql(), "`name`, `hair_color`");
    assert_eq!(pass.bind_count(), 0);
}

#[test]
fn debug_output_of_no_binds() {
    let mut pass: AstPass<Pg> = AstPass::new();
    pass.push_sql("SELECT 1");
    assert_eq!(pass.debug_text(), "SELECT 1 -- binds: []");
}

#[test]
fn debug_string_escapes_quotes() {
    let stmt = insert_into(Users).values(name_eq("x"));
    assert_eq!(
        debug_query::<Pg, _>(&stmt).debug_string(),
        r#"Query { sql: "INSERT INTO \"users\" (\"name\") VALUES ($1)", binds: ["x"] }"#
    );
}

struct Stmt(Vec<String>);

impl FilterDsl<&'static str> for Stmt {
    type Output = Stmt;
    fn filter(mut self, predicate: &'static str) -> Stmt {
        self.0.push(format!("filter {}", predicate));
        self
    }
}

impl LimitDsl for Stmt {
    type Output = Stmt;
    fn limit(mut self, limit: i64) -> Stmt {
        self.0.push(format!("limit {}", limit));
        self
    }
}

impl SelectDsl<&'static str> for Stmt {
    type Output = String;
    fn select(self, selection: &'static str) -> String {
        format!("{} then select {}", self.0.join(", "), selection)
    }
}

impl GroupByDsl<&'static str> for Stmt {
    type Output = Vec<String>;
    fn group_by(mut self, expr: &'static str) -> Vec<String> {
        self.0.push(format!("group by {}", expr));
        self.0
    }
}

impl HasTable for Stmt {
    type Table = &'static str;
    fn table() -> &'static str {
        "users"
    }
}

#[test]
fn select_by_keeps_its_selection_through_filter_and_limit() {
    let s: SelectByStatement<Name, Stmt> = SelectByStatement::new(Stmt(vec![]));
    let s = s.filter("a").limit(5);
    assert_eq!(s.inner.0, vec!["filter a".to_string(), "limit 5".to_string()]);
    assert_eq!(<SelectByStatement<Name, Stmt> as HasTable>::table(), "users");
}

#[test]
fn select_by_gives_way_to_select_and_group_by() {
    let s: SelectByStatement<Name, Stmt> = SelectByStatement::new(Stmt(vec!["x".to_string()]));
    assert_eq!(s.select("y"), "x then select y");
    let s: SelectByStatement<Name, Stmt> = SelectByStatement::new(Stmt(vec![]));
    assert_eq!(s.group_by("z"), vec!["group by z".to_string()]);
}

#[test]
fn select_by_inserts_from_select() {
    let s: SelectByStatement<Name, Stmt> = SelectByStatement::new(Stmt(vec!["q".to_string()]));
    let v = Insertable::<Users>::values(&s);
    assert_eq!(v.query.inner.0, vec!["q".to_string()]);
    let v = Insertable::<Users>::values(s);
    assert_eq!(v.query.inner.0, vec!["q".to_string()]);
}

#[test]
fn borrowed_record_writes_as_owned() {
    let record = name_eq("Sean");
    let borrowed = insert_into(Users).values(&record);
    let borrowed_sql = debug_query::<Pg, _>(&borrowed).debug_string();
    let owned = insert_into(Users).values(name_eq("Sean"));
    assert_eq!(borrowed_sql, debug_query::<Pg, _>(&owned).debug_string());
    let pair = (name_eq("Sean"), hair_eq("black"));
    let borrowed = insert_into(Users).values(&pair);
    let borrowed_sql = debug_query::<Mysql, _>(&borrowed).to_string();
    let owned = insert_into(Users).values(pair);
    assert_eq!(borrowed_sql, debug_query::<Mysql, _>(&owned).to_string());
}

#[test]
fn array_batch_writes_as_vector_batch_but_stays_cached() {
    let array = insert_into(Users).values([name_eq("A"), name_eq("B")]);
    let vector = insert_into(Users).values(vec![name_eq("A"), name_eq("B")]);
    let mut a: AstPass<Pg> = AstPass::new();
    array.walk_ast(&mut a).unwrap();
    let mut v: AstPass<Pg> = AstPass::new();
    vector.walk_ast(&mut v).unwrap();
    assert_eq!(a.debug_text(), v.debug_text());
    assert!(a.is_safe_to_cache_prepared());
    assert!(!v.is_safe_to_cache_prepared());
}
