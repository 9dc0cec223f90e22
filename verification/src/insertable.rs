//! Records to insert, and how their `VALUES` clauses are written.

use vstd::prelude::*;
use std::marker::PhantomData;
use crate::query_builder::{
    uncached, with_bind, with_sql, quote_ident, Bound, AstPass, Backend, BackendKind, Column, PassV, QueryFragment, QueryResult,
    Sqlite, SupportsDefaultKeyword, Table,
};

verus! {

/// A `column.eq(value)` expression, which can be inserted as a one-column record.
#[derive(Debug, Clone, Copy)]
pub struct Eq<L, R> {
    pub left: L,
    pub right: R,
}

/// An expression in parentheses.
#[derive(Debug, Clone, Copy)]
pub struct Grouped<T>(pub T);

/// An `INSERT` statement: the table to insert into and the records.
#[derive(Debug)]
pub struct InsertStatement<T, U> {
    pub into_clause: T,
    pub records: U,
}

/// An `INSERT` statement whose records are not given yet.
#[derive(Debug)]
pub struct IncompleteInsertStatement<T> {
    pub into_clause: T,
}

/// Starts an `INSERT` statement into `target`.
pub fn insert_into<T>(target: T) -> (r: IncompleteInsertStatement<T>)
    ensures
        r.into_clause == target,
{
    IncompleteInsertStatement { into_clause: target }
}

impl<T> IncompleteInsertStatement<T> {
    /// Gives the records to insert.
    pub fn values<U: Insertable<T>>(self, records: U) -> (r: InsertStatement<T, U::Values>)
        ensures
            r.into_clause == self.into_clause,
            r.records@ == records.spec_values(),
    {
        InsertStatement { into_clause: self.into_clause, records: records.values() }
    }
}

impl<T: Table, U: QueryFragment<DB>, DB: Backend> QueryFragment<DB> for InsertStatement<T, U> {
    proof fn lemma_walk_uncached(&self, pass: PassV) {
        let q = with_sql(with_sql(with_sql(pass, "INSERT INTO "@), quote_ident(DB::spec_kind(), T::NAME@)), " "@);
        self.records.lemma_walk_uncached(q);
        assert(with_sql(with_sql(with_sql(uncached(pass), "INSERT INTO "@), quote_ident(DB::spec_kind(), T::NAME@)), " "@)
            == uncached(q));
    }

    open spec fn spec_walk_error(&self, pass: PassV) -> Option<Seq<char>> {
        self.records.spec_walk_error(
            with_sql(with_sql(with_sql(pass, "INSERT INTO "@), quote_ident(DB::spec_kind(), T::NAME@)), " "@),
        )
    }

    open spec fn spec_walk(&self, pass: PassV) -> PassV {
        self.records.spec_walk(
            with_sql(with_sql(with_sql(pass, "INSERT INTO "@), quote_ident(DB::spec_kind(), T::NAME@)), " "@),
        )
    }

    fn walk_ast(&self, out: &mut AstPass<DB>) -> (r: QueryResult<()>) {
        out.push_sql("INSERT INTO ");
        out.push_identifier(T::NAME)?;
        out.push_sql(" ");
        self.records.walk_ast(out)
    }
}

/// Something that can be inserted as records into table `T`.
pub trait Insertable<T> {
    /// The `VALUES` clause to insert these records.
    type Values: View;

    /// What the `VALUES` clause of `self` is, by its view.
    spec fn spec_values(self) -> <Self::Values as View>::V;

    /// Constructs the `VALUES` clause.
    fn values(self) -> (r: Self::Values)
        ensures
            r@ == self.spec_values(),
    ;

    /// Inserts `self` into `table`: the same statement as
    /// `insert_into(table).values(self)`.
    fn insert_into(self, table: T) -> (r: InsertStatement<T, Self::Values>) where Self: Sized
        ensures
            r.into_clause == table,
            r.records@ == self.spec_values(),
    {
        InsertStatement { into_clause: table, records: self.values() }
    }
}

/// How many rows a query inserts, when that is known.
pub trait CanInsertInSingleQuery<DB: Backend> {
    spec fn spec_rows_to_insert(&self) -> Option<usize>;

    /// How many rows this query will insert.
    fn rows_to_insert(&self) -> (r: Option<usize>)
        ensures
            r == self.spec_rows_to_insert(),
    ;
}

impl<'a, T: CanInsertInSingleQuery<DB>, DB: Backend> CanInsertInSingleQuery<DB> for &'a T {
    open spec fn spec_rows_to_insert(&self) -> Option<usize> {
        (**self).spec_rows_to_insert()
    }

    fn rows_to_insert(&self) -> (r: Option<usize>) {
        (**self).rows_to_insert()
    }
}

/// Values that can name their columns.
pub trait InsertValues<T: Table, DB: Backend>: QueryFragment<DB> {
    /// The pass after writing the column names into `pass`.
    spec fn spec_column_names(&self, pass: PassV) -> PassV;

    /// Writing the names does not look at the cache mark.
    proof fn lemma_column_names_uncached(&self, pass: PassV)
        ensures
            self.spec_column_names(uncached(pass)) == uncached(self.spec_column_names(pass)),
    ;

    /// Writes the column names into `out`.
    fn column_names(&self, out: &mut AstPass<DB>) -> (r: QueryResult<()>)
        ensures
            r is Ok,
            final(out)@ == self.spec_column_names(old(out)@),
    ;
}

/// The value given for one column.
#[derive(Debug, Clone, Copy)]
pub struct ColumnInsertValue<Col, Expr> {
    pub col: Col,
    pub expr: Expr,
}

impl<Col, Expr> ColumnInsertValue<Col, Expr> {
    pub fn new(col: Col, expr: Expr) -> (r: Self)
        ensures
            r == (ColumnInsertValue { col, expr }),
    {
        Self { col, expr }
    }
}

/// The value of a column that may be left to its default.
#[derive(Debug, Clone, Copy)]
pub enum DefaultableColumnInsertValue<T> {
    Expression(T),
    Default,
}

impl<T> Default for DefaultableColumnInsertValue<T> {
    fn default() -> (r: Self)
        ensures
            r is Default,
    {
        DefaultableColumnInsertValue::Default
    }
}

impl<Col, Expr, DB: Backend> CanInsertInSingleQuery<DB> for ColumnInsertValue<Col, Expr> {
    open spec fn spec_rows_to_insert(&self) -> Option<usize> {
        Some(1)
    }

    fn rows_to_insert(&self) -> (r: Option<usize>) {
        Some(1)
    }
}

impl<V: CanInsertInSingleQuery<DB>, DB: Backend> CanInsertInSingleQuery<DB> for DefaultableColumnInsertValue<V> {
    open spec fn spec_rows_to_insert(&self) -> Option<usize> {
        Some(1)
    }

    fn rows_to_insert(&self) -> (r: Option<usize>) {
        Some(1)
    }
}

impl<Col, Expr: QueryFragment<DB>, DB: Backend> QueryFragment<DB> for ColumnInsertValue<Col, Expr> {
    proof fn lemma_walk_uncached(&self, pass: PassV) {
        self.expr.lemma_walk_uncached(pass);
    }

    open spec fn spec_walk_error(&self, pass: PassV) -> Option<Seq<char>> {
        self.expr.spec_walk_error(pass)
    }

    open spec fn spec_walk(&self, pass: PassV) -> PassV {
        self.expr.spec_walk(pass)
    }

    fn walk_ast(&self, out: &mut AstPass<DB>) -> (r: QueryResult<()>) {
        self.expr.walk_ast(out)
    }
}

/// On backends with `DEFAULT`: the expression, or `DEFAULT`; the statement is
/// not cached either way.
impl<Expr: QueryFragment<DB>, DB: SupportsDefaultKeyword> QueryFragment<DB> for DefaultableColumnInsertValue<Expr> {
    proof fn lemma_walk_uncached(&self, pass: PassV) {
        match self {
            DefaultableColumnInsertValue::Expression(inner) => {
                assert(uncached(uncached(pass)) == uncached(pass));
                inner.lemma_walk_uncached(uncached(pass));
            },
            DefaultableColumnInsertValue::Default => {},
        }
    }

    open spec fn spec_walk_error(&self, pass: PassV) -> Option<Seq<char>> {
        match self {
            DefaultableColumnInsertValue::Expression(inner) => inner.spec_walk_error(uncached(pass)),
            DefaultableColumnInsertValue::Default => None,
        }
    }

    open spec fn spec_walk(&self, pass: PassV) -> PassV {
        match self {
            DefaultableColumnInsertValue::Expression(inner) => inner.spec_walk(uncached(pass)),
            DefaultableColumnInsertValue::Default => with_sql(uncached(pass), "DEFAULT"@),
        }
    }

    fn walk_ast(&self, out: &mut AstPass<DB>) -> (r: QueryResult<()>) {
        out.unsafe_to_cache_prepared();
        if let DefaultableColumnInsertValue::Expression(inner) = self {
            if let Err(e) = inner.walk_ast(out) {
                return Err(e);
            }
        } else {
            out.push_sql("DEFAULT");
        }
        Ok(())
    }
}

/// On SQLite, which has no `DEFAULT`: the expression, or nothing.
impl<Col, Expr: QueryFragment<Sqlite>> QueryFragment<Sqlite> for DefaultableColumnInsertValue<ColumnInsertValue<Col, Expr>> {
    proof fn lemma_walk_uncached(&self, pass: PassV) {
        match self {
            DefaultableColumnInsertValue::Expression(inner) => inner.lemma_walk_uncached(pass),
            DefaultableColumnInsertValue::Default => {},
        }
    }

    open spec fn spec_walk_error(&self, pass: PassV) -> Option<Seq<char>> {
        match self {
            DefaultableColumnInsertValue::Expression(inner) => inner.spec_walk_error(pass),
            DefaultableColumnInsertValue::Default => None,
        }
    }

    open spec fn spec_walk(&self, pass: PassV) -> PassV {
        match self {
            DefaultableColumnInsertValue::Expression(inner) => inner.spec_walk(pass),
            DefaultableColumnInsertValue::Default => pass,
        }
    }

    fn walk_ast(&self, out: &mut AstPass<Sqlite>) -> (r: QueryResult<()>) {
        if let DefaultableColumnInsertValue::Expression(inner) = self {
            if let Err(e) = inner.walk_ast(out) {
                return Err(e);
            }
        }
        Ok(())
    }
}

impl<Col: Column, Expr: QueryFragment<DB>, DB: Backend> InsertValues<Col::Table, DB> for ColumnInsertValue<Col, Expr> {
    proof fn lemma_column_names_uncached(&self, pass: PassV) {
    }

    open spec fn spec_column_names(&self, pass: PassV) -> PassV {
        with_sql(pass, quote_ident(DB::spec_kind(), Col::NAME@))
    }

    fn column_names(&self, out: &mut AstPass<DB>) -> (r: QueryResult<()>) {
        out.push_identifier(Col::NAME)
    }
}

impl<Col: Column, Expr: QueryFragment<DB>, DB: SupportsDefaultKeyword> InsertValues<Col::Table, DB> for DefaultableColumnInsertValue<ColumnInsertValue<Col, Expr>> {
    proof fn lemma_column_names_uncached(&self, pass: PassV) {
    }

    open spec fn spec_column_names(&self, pass: PassV) -> PassV {
        with_sql(pass, quote_ident(DB::spec_kind(), Col::NAME@))
    }

    fn column_names(&self, out: &mut AstPass<DB>) -> (r: QueryResult<()>) {
        out.push_identifier(Col::NAME)
    }
}

/// On SQLite a column left to its default is not named.
impl<Col: Column, Expr: QueryFragment<Sqlite>> InsertValues<Col::Table, Sqlite> for DefaultableColumnInsertValue<ColumnInsertValue<Col, Expr>> {
    proof fn lemma_column_names_uncached(&self, pass: PassV) {
    }

    open spec fn spec_column_names(&self, pass: PassV) -> PassV {
        match self {
            DefaultableColumnInsertValue::Expression(_) => with_sql(pass, quote_ident(BackendKind::Sqlite, Col::NAME@)),
            DefaultableColumnInsertValue::Default => pass,
        }
    }

    fn column_names(&self, out: &mut AstPass<Sqlite>) -> (r: QueryResult<()>) {
        if let DefaultableColumnInsertValue::Expression(_) = self {
            out.push_identifier(Col::NAME)?;
        }
        Ok(())
    }
}

/// The `VALUES` clause of one record: its column names, then its values.
#[derive(Debug)]
pub struct ValuesClause<T, Tab> {
    pub values: T,
    pub marker: PhantomData<Tab>,
}

impl<T, Tab> View for ValuesClause<T, Tab> {
    type V = ValuesClause<T, Tab>;

    open spec fn view(&self) -> ValuesClause<T, Tab> {
        *self
    }
}

/// The clause that holds `values`.
pub open spec fn values_clause<T, Tab>(values: T) -> ValuesClause<T, Tab> {
    ValuesClause { values, marker: PhantomData }
}

impl<T, Tab> ValuesClause<T, Tab> {
    pub fn new(values: T) -> (r: Self)
        ensures
            r == values_clause::<T, Tab>(values),
    {
        ValuesClause { values, marker: PhantomData }
    }
}

/// `(` the column names `) VALUES (` the values `)`.
impl<T: InsertValues<Tab, DB>, Tab: Table, DB: Backend> QueryFragment<DB> for ValuesClause<T, Tab> {
    proof fn lemma_walk_uncached(&self, pass: PassV) {
        let p1 = with_sql(pass, "("@);
        self.values.lemma_column_names_uncached(p1);
        let p2 = with_sql(self.values.spec_column_names(p1), ") VALUES ("@);
        assert(with_sql(uncached(pass), "("@) == uncached(p1));
        assert(with_sql(self.values.spec_column_names(uncached(p1)), ") VALUES ("@) == uncached(p2));
        self.values.lemma_walk_uncached(p2);
    }

    open spec fn spec_walk_error(&self, pass: PassV) -> Option<Seq<char>> {
        self.values.spec_walk_error(
            with_sql(self.values.spec_column_names(with_sql(pass, "("@)), ") VALUES ("@),
        )
    }

    open spec fn spec_walk(&self, pass: PassV) -> PassV {
        with_sql(
            self.values.spec_walk(
                with_sql(self.values.spec_column_names(with_sql(pass, "("@)), ") VALUES ("@),
            ),
            ")"@,
        )
    }

    fn walk_ast(&self, out: &mut AstPass<DB>) -> (r: QueryResult<()>) {
        out.push_sql("(");
        self.values.column_names(out)?;
        out.push_sql(") VALUES (");
        if let Err(e) = self.values.walk_ast(out) {
            return Err(e);
        }
        out.push_sql(")");
        Ok(())
    }
}

/// A column set to an expression is a record of one column.
impl<Col: Column, Expr> Insertable<Col::Table> for Eq<Col, Expr> {
    type Values = ValuesClause<ColumnInsertValue<Col, Expr>, Col::Table>;

    open spec fn spec_values(self) -> ValuesClause<ColumnInsertValue<Col, Expr>, Col::Table> {
        values_clause(ColumnInsertValue { col: self.left, expr: self.right })
    }

    fn values(self) -> (r: Self::Values) {
        let r = ValuesClause::new(ColumnInsertValue::new(self.left, self.right));
        assert(r@ == r);
        r
    }
}

/// A borrowed `column.eq(value)` inserts a borrow of the value.
impl<'a, L: Copy, R, Tab> Insertable<Tab> for &'a Eq<L, R> where Eq<L, &'a R>: Insertable<Tab> {
    type Values = <Eq<L, &'a R> as Insertable<Tab>>::Values;

    open spec fn spec_values(self) -> <Self::Values as View>::V {
        (Eq { left: self.left, right: &self.right }).spec_values()
    }

    fn values(self) -> (r: Self::Values) {
        let e = Eq { left: self.left, right: &self.right };
        e.values()
    }
}

/// A grouped `column.eq(value)` inserts as the expression inside.
impl<L, R, Tab> Insertable<Tab> for Grouped<Eq<L, R>> where Eq<L, R>: Insertable<Tab> {
    type Values = <Eq<L, R> as Insertable<Tab>>::Values;

    open spec fn spec_values(self) -> <Self::Values as View>::V {
        self.0.spec_values()
    }

    fn values(self) -> (r: Self::Values) {
        self.0.values()
    }
}

impl<'a, L, R, Tab> Insertable<Tab> for &'a Grouped<Eq<L, R>> where &'a Eq<L, R>: Insertable<Tab> {
    type Values = <&'a Eq<L, R> as Insertable<Tab>>::Values;

    open spec fn spec_values(self) -> <Self::Values as View>::V {
        (&self.0).spec_values()
    }

    fn values(self) -> (r: Self::Values) {
        (&self.0).values()
    }
}

/// A `VALUES` clause of a single record, whose values can be taken out.
pub trait SingleRecord: View + Sized {
    /// The values of the record.
    type Inner;

    /// The clause whose view is `clause`.
    spec fn spec_clause(clause: Self::V) -> Self;

    /// The values inside a clause, by the clause's view.
    spec fn spec_inner(clause: Self::V) -> Self::Inner;

    /// A clause is the one its view names.
    proof fn lemma_clause_of_view(&self)
        ensures
            Self::spec_clause(self@) == *self,
    ;

    /// The values inside the clause.
    fn inner(&self) -> (r: &Self::Inner)
        ensures
            *r == Self::spec_inner(self@),
    ;

    /// Takes the values out of the clause.
    fn into_inner(self) -> (r: Self::Inner)
        ensures
            r == Self::spec_inner(self@),
    ;
}

impl<T, Tab> SingleRecord for ValuesClause<T, Tab> {
    type Inner = T;

    open spec fn spec_clause(clause: ValuesClause<T, Tab>) -> ValuesClause<T, Tab> {
        clause
    }

    open spec fn spec_inner(clause: ValuesClause<T, Tab>) -> T {
        clause.values
    }

    proof fn lemma_clause_of_view(&self) {
    }

    fn inner(&self) -> (r: &T) {
        &self.values
    }

    fn into_inner(self) -> (r: T) {
        self.values
    }
}

/// An optional record: its values, or the column's default when absent.
impl<T: Insertable<Tab>, Tab> Insertable<Tab> for Option<T> where T::Values: SingleRecord {
    type Values = ValuesClause<DefaultableColumnInsertValue<<T::Values as SingleRecord>::Inner>, Tab>;

    open spec fn spec_values(self) -> <Self::Values as View>::V {
        match self {
            Some(v) => values_clause(
                DefaultableColumnInsertValue::Expression(<T::Values as SingleRecord>::spec_inner(v.spec_values())),
            ),
            None => values_clause(DefaultableColumnInsertValue::Default),
        }
    }

    fn values(self) -> (r: Self::Values) {
        let inner = match self {
            Some(v) => DefaultableColumnInsertValue::Expression(v.values().into_inner()),
            None => DefaultableColumnInsertValue::default(),
        };
        let r = ValuesClause::new(inner);
        assert(r@ == r);
        r
    }
}

/// A borrowed optional record inserts as the optional borrow.
impl<'a, T, Tab> Insertable<Tab> for &'a Option<T> where Option<&'a T>: Insertable<Tab> {
    type Values = <Option<&'a T> as Insertable<Tab>>::Values;

    open spec fn spec_values(self) -> <Self::Values as View>::V {
        let borrowed: Option<&'a T> = match self {
            Some(v) => Some(v),
            None => None,
        };
        borrowed.spec_values()
    }

    fn values(self) -> (r: Self::Values) {
        self.as_ref().values()
    }
}

/// Two records' values side by side, separated by a comma.
impl<A: QueryFragment<DB>, B: QueryFragment<DB>, DB: Backend> QueryFragment<DB> for (A, B) {
    proof fn lemma_walk_uncached(&self, pass: PassV) {
        self.0.lemma_walk_uncached(pass);
        let q = with_sql(self.0.spec_walk(pass), ", "@);
        assert(with_sql(self.0.spec_walk(uncached(pass)), ", "@) == uncached(q));
        self.1.lemma_walk_uncached(q);
    }

    open spec fn spec_walk_error(&self, pass: PassV) -> Option<Seq<char>> {
        match self.0.spec_walk_error(pass) {
            Some(e) => Some(e),
            None => self.1.spec_walk_error(with_sql(self.0.spec_walk(pass), ", "@)),
        }
    }

    open spec fn spec_walk(&self, pass: PassV) -> PassV {
        self.1.spec_walk(with_sql(self.0.spec_walk(pass), ", "@))
    }

    fn walk_ast(&self, out: &mut AstPass<DB>) -> (r: QueryResult<()>) {
        if let Err(e) = self.0.walk_ast(out) {
            return Err(e);
        }
        out.push_sql(", ");
        self.1.walk_ast(out)
    }
}

impl<A: InsertValues<Tab, DB>, B: InsertValues<Tab, DB>, Tab: Table, DB: Backend> InsertValues<Tab, DB> for (A, B) {
    proof fn lemma_column_names_uncached(&self, pass: PassV) {
        self.0.lemma_column_names_uncached(pass);
        let q = with_sql(self.0.spec_column_names(pass), ", "@);
        assert(with_sql(self.0.spec_column_names(uncached(pass)), ", "@) == uncached(q));
        self.1.lemma_column_names_uncached(q);
    }

    open spec fn spec_column_names(&self, pass: PassV) -> PassV {
        self.1.spec_column_names(with_sql(self.0.spec_column_names(pass), ", "@))
    }

    fn column_names(&self, out: &mut AstPass<DB>) -> (r: QueryResult<()>) {
        self.0.column_names(out)?;
        out.push_sql(", ");
        self.1.column_names(out)
    }
}

/// A record of two parts: their values in one clause.
impl<A: Insertable<Tab>, B: Insertable<Tab>, Tab> Insertable<Tab> for (A, B) where
    A::Values: SingleRecord,
    B::Values: SingleRecord,
 {
    type Values = ValuesClause<(<A::Values as SingleRecord>::Inner, <B::Values as SingleRecord>::Inner), Tab>;

    open spec fn spec_values(self) -> <Self::Values as View>::V {
        values_clause(
            (
                <A::Values as SingleRecord>::spec_inner(self.0.spec_values()),
                <B::Values as SingleRecord>::spec_inner(self.1.spec_values()),
            ),
        )
    }

    fn values(self) -> (r: Self::Values) {
        let (a, b) = self;
        let inner = (a.values().into_inner(), b.values().into_inner());
        let r = ValuesClause::new(inner);
        assert(r@ == r);
        r
    }
}

/// A borrowed record of two parts inserts the borrowed parts.
impl<'a, A, B, Tab> Insertable<Tab> for &'a (A, B) where
    &'a A: Insertable<Tab>,
    &'a B: Insertable<Tab>,
    <&'a A as Insertable<Tab>>::Values: SingleRecord,
    <&'a B as Insertable<Tab>>::Values: SingleRecord,
 {
    type Values = ValuesClause<
        (
            <<&'a A as Insertable<Tab>>::Values as SingleRecord>::Inner,
            <<&'a B as Insertable<Tab>>::Values as SingleRecord>::Inner,
        ),
        Tab,
    >;

    open spec fn spec_values(self) -> <Self::Values as View>::V {
        values_clause(
            (
                <<&'a A as Insertable<Tab>>::Values as SingleRecord>::spec_inner((&self.0).spec_values()),
                <<&'a B as Insertable<Tab>>::Values as SingleRecord>::spec_inner((&self.1).spec_values()),
            ),
        )
    }

    fn values(self) -> (r: Self::Values) {
        let inner = ((&self.0).values().into_inner(), (&self.1).values().into_inner());
        let r = ValuesClause::new(inner);
        assert(r@ == r);
        r
    }
}

/// The pass after writing the clauses whose views are `rows`: the first as a
/// whole clause, each later one as `, (` its values `)`.
pub open spec fn walk_rows<C: SingleRecord + QueryFragment<DB>, DB: Backend>(rows: Seq<C::V>, pass: PassV) -> PassV where
    C::Inner: QueryFragment<DB>,
    decreases rows.len(),
{
    if rows.len() == 0 {
        pass
    } else if rows.len() == 1 {
        C::spec_clause(rows[0]).spec_walk(pass)
    } else {
        with_sql(
            C::spec_inner(rows.last()).spec_walk(with_sql(walk_rows::<C, DB>(rows.drop_last(), pass), ", ("@)),
            ")"@,
        )
    }
}

/// The error that writing the clauses whose views are `rows` stops with: the
/// error of the first row that fails, if one does.
pub open spec fn walk_rows_error<C: SingleRecord + QueryFragment<DB>, DB: Backend>(rows: Seq<C::V>, pass: PassV) -> Option<Seq<char>> where
    C::Inner: QueryFragment<DB>,
    decreases rows.len(),
{
    if rows.len() == 0 {
        None
    } else if rows.len() == 1 {
        C::spec_clause(rows[0]).spec_walk_error(pass)
    } else {
        match walk_rows_error::<C, DB>(rows.drop_last(), pass) {
            Some(e) => Some(e),
            None => C::spec_inner(rows.last()).spec_walk_error(
                with_sql(walk_rows::<C, DB>(rows.drop_last(), pass), ", ("@),
            ),
        }
    }
}

/// When the first rows fail, all the rows fail with their error: no later
/// row is written.
pub proof fn lemma_walk_rows_error_prefix<C, DB: Backend>(rows: Seq<C::V>, k: int, pass: PassV) where
    C: SingleRecord + QueryFragment<DB>,
    C::Inner: QueryFragment<DB>,
    requires
        0 <= k <= rows.len(),
        walk_rows_error::<C, DB>(rows.take(k), pass) is Some,
    ensures
        walk_rows_error::<C, DB>(rows, pass) == walk_rows_error::<C, DB>(rows.take(k), pass),
    decreases rows.len() - k,
{
    if k == rows.len() {
        assert(rows.take(k) == rows);
    } else {
        assert(rows.drop_last().take(k) == rows.take(k));
        lemma_walk_rows_error_prefix::<C, DB>(rows.drop_last(), k, pass);
    }
}

/// Records inserted by borrowing them from a slice.
#[derive(Debug)]
pub struct BatchInsert<'a, T, Tab> {
    pub records: &'a [T],
    pub marker: PhantomData<Tab>,
}

impl<'a, T, Tab> View for BatchInsert<'a, T, Tab> {
    type V = Seq<T>;

    open spec fn view(&self) -> Seq<T> {
        self.records@
    }
}

/// The clauses of the borrowed records, by their views.
pub open spec fn borrowed_rows<'a, T, Tab>(records: Seq<T>) -> Seq<<<&'a T as Insertable<Tab>>::Values as View>::V> where
    &'a T: Insertable<Tab>,
{
    Seq::new(records.len(), |i: int| (&records[i]).spec_values())
}

/// A slice of records inserts them all, by borrowing each.
impl<'a, T, Tab> Insertable<Tab> for &'a [T] {
    type Values = BatchInsert<'a, T, Tab>;

    open spec fn spec_values(self) -> Seq<T> {
        self@
    }

    fn values(self) -> (r: Self::Values) {
        let r = BatchInsert { records: self, marker: PhantomData };
        assert(r@ == self@);
        r
    }
}

/// A borrowed vector of records inserts as the slice of its records.
impl<'a, T, Tab> Insertable<Tab> for &'a Vec<T> {
    type Values = BatchInsert<'a, T, Tab>;

    open spec fn spec_values(self) -> Seq<T> {
        self@
    }

    fn values(self) -> (r: Self::Values) {
        let r = BatchInsert { records: self.as_slice(), marker: PhantomData };
        assert(r@ == self@);
        r
    }
}

/// The first record as a whole clause, the others as `, (` values `)`; a
/// statement with several rows is not cached.
impl<'a, T, Tab, DB: SupportsDefaultKeyword> QueryFragment<DB> for BatchInsert<'a, T, Tab> where
    &'a T: Insertable<Tab>,
    <&'a T as Insertable<Tab>>::Values: SingleRecord + QueryFragment<DB>,
    <<&'a T as Insertable<Tab>>::Values as SingleRecord>::Inner: QueryFragment<DB>,
 {
    proof fn lemma_walk_uncached(&self, pass: PassV) {
        assert(uncached(uncached(pass)) == uncached(pass));
        lemma_walk_rows_uncached::<<&'a T as Insertable<Tab>>::Values, DB>(borrowed_rows::<'a, T, Tab>(self.records@), uncached(pass));
    }

    open spec fn spec_walk_error(&self, pass: PassV) -> Option<Seq<char>> {
        walk_rows_error::<<&'a T as Insertable<Tab>>::Values, DB>(borrowed_rows::<'a, T, Tab>(self.records@), uncached(pass))
    }

    open spec fn spec_walk(&self, pass: PassV) -> PassV {
        walk_rows::<<&'a T as Insertable<Tab>>::Values, DB>(borrowed_rows::<'a, T, Tab>(self.records@), uncached(pass))
    }

    fn walk_ast(&self, out: &mut AstPass<DB>) -> (r: QueryResult<()>) {
        out.unsafe_to_cache_prepared();
        let ghost start = out@;
        let ghost rows = borrowed_rows::<'a, T, Tab>(self.records@);
        let records: &'a [T] = self.records;
        let mut i: usize = 0;
        while i < records.len()
            invariant
                i <= records@.len(),
                records@ == self.records@,
                rows == borrowed_rows::<'a, T, Tab>(self.records@),
                start == uncached(old(out)@),
                out@ == walk_rows::<<&'a T as Insertable<Tab>>::Values, DB>(rows.take(i as int), start),
                walk_rows_error::<<&'a T as Insertable<Tab>>::Values, DB>(rows.take(i as int), start) is None,
            decreases records@.len() - i,
        {
            let record: &'a T = &records[i];
            let clause = record.values();
            assert(clause@ == rows[i as int]);
            assert(rows.take(i as int + 1).drop_last() == rows.take(i as int));
            if i == 0 {
                proof {
                    clause.lemma_clause_of_view();
                }
                if let Err(e) = clause.walk_ast(out) {
                    proof {
                        assert(rows.take(1)[0] == rows[0]);
                        assert(walk_rows_error::<<&'a T as Insertable<Tab>>::Values, DB>(rows.take(1), start) == Some(e@));
                        lemma_walk_rows_error_prefix::<<&'a T as Insertable<Tab>>::Values, DB>(rows, 1, start);
                    }
                    return Err(e);
                }
            } else {
                out.push_sql(", (");
                let inner = clause.into_inner();
                if let Err(e) = inner.walk_ast(out) {
                    proof {
                        assert(rows.take(i as int + 1).last() == rows[i as int]);
                        assert(walk_rows_error::<<&'a T as Insertable<Tab>>::Values, DB>(rows.take(i as int + 1), start)
                            == Some(e@));
                        lemma_walk_rows_error_prefix::<<&'a T as Insertable<Tab>>::Values, DB>(rows, i as int + 1, start);
                    }
                    return Err(e);
                }
                out.push_sql(")");
            }
            i = i + 1;
        }
        assert(rows.take(records@.len() as int) == rows);
        Ok(())
    }
}

/// Records inserted from a vector that was handed over.
#[derive(Debug)]
pub struct OwnedBatchInsert<V, Tab> {
    pub values: Vec<V>,
    pub marker: PhantomData<Tab>,
}

/// The views of the clauses in `values`.
pub open spec fn clause_views<V: View>(values: Seq<V>) -> Seq<V::V> {
    values.map_values(|v: V| v@)
}

impl<V: View, Tab> View for OwnedBatchInsert<V, Tab> {
    type V = Seq<V::V>;

    open spec fn view(&self) -> Seq<V::V> {
        clause_views(self.values@)
    }
}

/// The views of the clauses of `records`.
pub open spec fn owned_rows<T: Insertable<Tab>, Tab>(records: Seq<T>) -> Seq<<T::Values as View>::V> {
    records.map_values(|t: T| t.spec_values())
}

/// A vector of records inserts them all.
impl<T: Insertable<Tab>, Tab> Insertable<Tab> for Vec<T> {
    type Values = OwnedBatchInsert<T::Values, Tab>;

    open spec fn spec_values(self) -> Seq<<T::Values as View>::V> {
        owned_rows::<T, Tab>(self@)
    }

    fn values(self) -> (r: Self::Values) {
        let ghost all = self@;
        let mut rest = self;
        let mut values: Vec<T::Values> = Vec::new();
        while rest.len() > 0
            invariant
                values@.len() + rest@.len() == all.len(),
                rest@ == all.skip(values@.len() as int),
                clause_views(values@) == owned_rows::<T, Tab>(all.take(values@.len() as int)),
            decreases rest@.len(),
        {
            let ghost k = values@.len() as int;
            let ghost before = values@;
            let record = rest.remove(0);
            assert(record == all[k]);
            values.push(record.values());
            assert(all.skip(k + 1) == all.skip(k).remove(0));
            assert forall|i: int| 0 <= i < k + 1 implies clause_views(values@)[i] == owned_rows::<T, Tab>(
                all.take(k + 1),
            )[i] by {
                if i < k {
                    assert(clause_views(before)[i] == owned_rows::<T, Tab>(all.take(k))[i]);
                }
            }
            assert(clause_views(values@) =~= owned_rows::<T, Tab>(all.take(k + 1)));
        }
        assert(all.take(all.len() as int) == all);
        let r = OwnedBatchInsert { values, marker: PhantomData };
        assert(r@ == owned_rows::<T, Tab>(all));
        r
    }
}

/// The first record as a whole clause, the others as `, (` values `)`; a
/// statement with several rows is not cached.
impl<C: SingleRecord + QueryFragment<DB>, Tab, DB: SupportsDefaultKeyword> QueryFragment<DB> for OwnedBatchInsert<C, Tab> where
    C::Inner: QueryFragment<DB>,
 {
    proof fn lemma_walk_uncached(&self, pass: PassV) {
        assert(uncached(uncached(pass)) == uncached(pass));
        lemma_walk_rows_uncached::<C, DB>(clause_views(self.values@), uncached(pass));
    }

    open spec fn spec_walk_error(&self, pass: PassV) -> Option<Seq<char>> {
        walk_rows_error::<C, DB>(clause_views(self.values@), uncached(pass))
    }

    open spec fn spec_walk(&self, pass: PassV) -> PassV {
        walk_rows::<C, DB>(clause_views(self.values@), uncached(pass))
    }

    fn walk_ast(&self, out: &mut AstPass<DB>) -> (r: QueryResult<()>) {
        out.unsafe_to_cache_prepared();
        let ghost start = out@;
        let ghost rows = clause_views(self.values@);
        let mut i: usize = 0;
        while i < self.values.len()
            invariant
                i <= self.values@.len(),
                rows == clause_views(self.values@),
                start == uncached(old(out)@),
                out@ == walk_rows::<C, DB>(rows.take(i as int), start),
                walk_rows_error::<C, DB>(rows.take(i as int), start) is None,
            decreases self.values@.len() - i,
        {
            let value = &self.values[i];
            assert(value@ == rows[i as int]);
            assert(rows.take(i as int + 1).drop_last() == rows.take(i as int));
            if i == 0 {
                proof {
                    value.lemma_clause_of_view();
                }
                if let Err(e) = value.walk_ast(out) {
                    proof {
                        assert(rows.take(1)[0] == rows[0]);
                        assert(walk_rows_error::<C, DB>(rows.take(1), start) == Some(e@));
                        lemma_walk_rows_error_prefix::<C, DB>(rows, 1, start);
                    }
                    return Err(e);
                }
            } else {
                out.push_sql(", (");
                if let Err(e) = value.inner().walk_ast(out) {
                    proof {
                        assert(rows.take(i as int + 1).last() == rows[i as int]);
                        assert(walk_rows_error::<C, DB>(rows.take(i as int + 1), start) == Some(e@));
                        lemma_walk_rows_error_prefix::<C, DB>(rows, i as int + 1, start);
                    }
                    return Err(e);
                }
                out.push_sql(")");
            }
            i = i + 1;
        }
        assert(rows.take(self.values@.len() as int) == rows);
        Ok(())
    }
}

/// Records inserted from an array that was handed over.
#[derive(Debug)]
pub struct StaticBatchInsert<V, Tab, const N: usize> {
    pub values: [V; N],
    pub marker: PhantomData<Tab>,
}

impl<V: View, Tab, const N: usize> View for StaticBatchInsert<V, Tab, N> {
    type V = Seq<V::V>;

    open spec fn view(&self) -> Seq<V::V> {
        clause_views(self.values@)
    }
}

/// `<[T; N]>::map` applied with each record's `values`. Its documentation
/// promises an array of the same length whose element `i` is the closure
/// applied to element `i`; the closure's result is what `values` ensures.
#[verifier::external_body]
fn array_values<T: Insertable<Tab>, Tab, const N: usize>(records: [T; N]) -> (r: [T::Values; N])
    ensures
        forall|i: int| 0 <= i < N ==> #[trigger] r@[i]@ == records@[i].spec_values(),
{
    records.map(|record| record.values())
}

/// An array of records inserts them all.
impl<T: Insertable<Tab>, Tab, const N: usize> Insertable<Tab> for [T; N] {
    type Values = StaticBatchInsert<T::Values, Tab, N>;

    open spec fn spec_values(self) -> Seq<<T::Values as View>::V> {
        owned_rows::<T, Tab>(self@)
    }

    fn values(self) -> (r: Self::Values) {
        let ghost all = self@;
        let values = array_values(self);
        let r = StaticBatchInsert { values, marker: PhantomData };
        assert(r@ =~= owned_rows::<T, Tab>(all));
        r
    }
}

/// The first record as a whole clause, the others as `, (` values `)`.
impl<C: SingleRecord + QueryFragment<DB>, Tab, DB: SupportsDefaultKeyword, const N: usize> QueryFragment<DB> for StaticBatchInsert<C, Tab, N> where
    C::Inner: QueryFragment<DB>,
 {
    proof fn lemma_walk_uncached(&self, pass: PassV) {
        lemma_walk_rows_uncached::<C, DB>(clause_views(self.values@), pass);
    }

    open spec fn spec_walk_error(&self, pass: PassV) -> Option<Seq<char>> {
        walk_rows_error::<C, DB>(clause_views(self.values@), pass)
    }

    open spec fn spec_walk(&self, pass: PassV) -> PassV {
        walk_rows::<C, DB>(clause_views(self.values@), pass)
    }

    fn walk_ast(&self, out: &mut AstPass<DB>) -> (r: QueryResult<()>) {
        let ghost start = out@;
        let ghost rows = clause_views(self.values@);
        let mut i: usize = 0;
        while i < N
            invariant
                i <= N,
                N == self.values@.len(),
                rows == clause_views(self.values@),
                start == old(out)@,
                out@ == walk_rows::<C, DB>(rows.take(i as int), start),
                walk_rows_error::<C, DB>(rows.take(i as int), start) is None,
            decreases N - i,
        {
            let value = &self.values[i];
            assert(value@ == rows[i as int]);
            assert(rows.take(i as int + 1).drop_last() == rows.take(i as int));
            if i == 0 {
                proof {
                    value.lemma_clause_of_view();
                }
                if let Err(e) = value.walk_ast(out) {
                    proof {
                        assert(rows.take(1)[0] == rows[0]);
                        assert(walk_rows_error::<C, DB>(rows.take(1), start) == Some(e@));
                        lemma_walk_rows_error_prefix::<C, DB>(rows, 1, start);
                    }
                    return Err(e);
                }
            } else {
                out.push_sql(", (");
                if let Err(e) = value.inner().walk_ast(out) {
                    proof {
                        assert(rows.take(i as int + 1).last() == rows[i as int]);
                        assert(walk_rows_error::<C, DB>(rows.take(i as int + 1), start) == Some(e@));
                        lemma_walk_rows_error_prefix::<C, DB>(rows, i as int + 1, start);
                    }
                    return Err(e);
                }
                out.push_sql(")");
            }
            i = i + 1;
        }
        assert(rows.take(N as int) == rows);
        Ok(())
    }
}

impl<'a, T, Tab, DB: SupportsDefaultKeyword> CanInsertInSingleQuery<DB> for BatchInsert<'a, T, Tab> {
    open spec fn spec_rows_to_insert(&self) -> Option<usize> {
        Some(self.records@.len() as usize)
    }

    fn rows_to_insert(&self) -> (r: Option<usize>) {
        Some(self.records.len())
    }
}

impl<V, Tab, DB: SupportsDefaultKeyword> CanInsertInSingleQuery<DB> for OwnedBatchInsert<V, Tab> {
    open spec fn spec_rows_to_insert(&self) -> Option<usize> {
        Some(self.values@.len() as usize)
    }

    fn rows_to_insert(&self) -> (r: Option<usize>) {
        Some(self.values.len())
    }
}

impl<V, Tab, DB: SupportsDefaultKeyword, const N: usize> CanInsertInSingleQuery<DB> for StaticBatchInsert<V, Tab, N> {
    open spec fn spec_rows_to_insert(&self) -> Option<usize> {
        Some(N)
    }

    fn rows_to_insert(&self) -> (r: Option<usize>) {
        Some(N)
    }
}

/// Two clauses, by their views, that write the same SQL and bind parameters
/// into every pass and fail with the same errors, both as a whole and by
/// their values alone.
pub open spec fn writes_alike<A, B, DB: Backend>(a: A::V, b: B::V) -> bool where
    A: SingleRecord + QueryFragment<DB>,
    B: SingleRecord + QueryFragment<DB>,
    A::Inner: QueryFragment<DB>,
    B::Inner: QueryFragment<DB>,
 {
    &&& forall|p: PassV| #[trigger] A::spec_clause(a).spec_walk(p) == B::spec_clause(b).spec_walk(p)
    &&& forall|p: PassV| #[trigger] A::spec_inner(a).spec_walk(p) == B::spec_inner(b).spec_walk(p)
    &&& forall|p: PassV| #[trigger] A::spec_clause(a).spec_walk_error(p) == B::spec_clause(b).spec_walk_error(p)
    &&& forall|p: PassV| #[trigger] A::spec_inner(a).spec_walk_error(p) == B::spec_inner(b).spec_walk_error(p)
}

/// Rows that write alike one by one write alike as a batch.
pub proof fn lemma_walk_rows_alike<A, B, DB: Backend>(ra: Seq<A::V>, rb: Seq<B::V>, pass: PassV) where
    A: SingleRecord + QueryFragment<DB>,
    B: SingleRecord + QueryFragment<DB>,
    A::Inner: QueryFragment<DB>,
    B::Inner: QueryFragment<DB>,
    requires
        ra.len() == rb.len(),
        forall|i: int| 0 <= i < ra.len() ==> #[trigger] writes_alike::<A, B, DB>(ra[i], rb[i]),
    ensures
        walk_rows::<A, DB>(ra, pass) == walk_rows::<B, DB>(rb, pass),
        walk_rows_error::<A, DB>(ra, pass) == walk_rows_error::<B, DB>(rb, pass),
    decreases ra.len(),
{
    if ra.len() == 1 {
        assert(writes_alike::<A, B, DB>(ra[0], rb[0]));
    } else if ra.len() > 1 {
        let n = ra.len() - 1;
        assert(writes_alike::<A, B, DB>(ra[n], rb[n]));
        lemma_walk_rows_alike::<A, B, DB>(ra.drop_last(), rb.drop_last(), pass);
        let p = with_sql(walk_rows::<A, DB>(ra.drop_last(), pass), ", ("@);
        assert(A::spec_inner(ra.last()).spec_walk(p) == B::spec_inner(rb.last()).spec_walk(p));
        assert(A::spec_inner(ra.last()).spec_walk_error(p) == B::spec_inner(rb.last()).spec_walk_error(p));
    }
}

/// A batch written from borrowed records is the batch written from the same
/// records handed over in a vector, and fails with the same error, whenever
/// each record writes alike borrowed and owned.
pub proof fn lemma_borrowed_batch_writes_as_owned<'a, T: Insertable<Tab>, Tab, DB: SupportsDefaultKeyword>(
    borrowed: BatchInsert<'a, T, Tab>,
    owned: OwnedBatchInsert<T::Values, Tab>,
    pass: PassV,
) where
    &'a T: Insertable<Tab>,
    <&'a T as Insertable<Tab>>::Values: SingleRecord + QueryFragment<DB>,
    <<&'a T as Insertable<Tab>>::Values as SingleRecord>::Inner: QueryFragment<DB>,
    T::Values: SingleRecord + QueryFragment<DB>,
    <T::Values as SingleRecord>::Inner: QueryFragment<DB>,
    requires
        owned@ == owned_rows::<T, Tab>(borrowed@),
        forall|i: int|
            0 <= i < borrowed@.len() ==> #[trigger] writes_alike::<<&'a T as Insertable<Tab>>::Values, T::Values, DB>(
                borrowed_rows::<'a, T, Tab>(borrowed@)[i],
                owned_rows::<T, Tab>(borrowed@)[i],
            ),
    ensures
        borrowed.spec_walk(pass) == owned.spec_walk(pass),
        borrowed.spec_walk_error(pass) == owned.spec_walk_error(pass),
{
    lemma_walk_rows_alike::<<&'a T as Insertable<Tab>>::Values, T::Values, DB>(
        borrowed_rows::<'a, T, Tab>(borrowed@),
        owned_rows::<T, Tab>(borrowed@),
        uncached(pass),
    );
}

/// A `column.eq(value)` record writes alike borrowed and owned.
pub proof fn lemma_eq_writes_alike<'a, Col: Column + Copy, Expr: QueryFragment<DB>, DB: Backend>(record: &'a Eq<Col, Expr>)
    ensures
        writes_alike::<
            ValuesClause<ColumnInsertValue<Col, &'a Expr>, Col::Table>,
            ValuesClause<ColumnInsertValue<Col, Expr>, Col::Table>,
            DB,
        >(record.spec_values(), (*record).spec_values()),
{
}

/// Borrowing a vector of `column.eq(value)` records writes the same batch as
/// handing the vector over, and fails alike.
pub proof fn lemma_eq_batch_borrowed_writes_as_owned<'a, Col: Column + Copy, Expr: QueryFragment<DB>, DB: SupportsDefaultKeyword>(
    borrowed: BatchInsert<'a, Eq<Col, Expr>, Col::Table>,
    owned: OwnedBatchInsert<ValuesClause<ColumnInsertValue<Col, Expr>, Col::Table>, Col::Table>,
    pass: PassV,
)
    requires
        owned@ == owned_rows::<Eq<Col, Expr>, Col::Table>(borrowed@),
    ensures
        borrowed.spec_walk(pass) == owned.spec_walk(pass),
        borrowed.spec_walk_error(pass) == owned.spec_walk_error(pass),
{
    let rows = borrowed@;
    assert forall|i: int| 0 <= i < rows.len() implies #[trigger] writes_alike::<
        ValuesClause<ColumnInsertValue<Col, &'a Expr>, Col::Table>,
        ValuesClause<ColumnInsertValue<Col, Expr>, Col::Table>,
        DB,
    >(borrowed_rows::<'a, Eq<Col, Expr>, Col::Table>(rows)[i], owned_rows::<Eq<Col, Expr>, Col::Table>(rows)[i]) by {
        lemma_eq_writes_alike::<Col, Expr, DB>(&rows[i]);
    }
    lemma_borrowed_batch_writes_as_owned::<'a, Eq<Col, Expr>, Col::Table, DB>(borrowed, owned, pass);
}

/// A record of two `column.eq(value)` parts writes alike borrowed and owned.
pub proof fn lemma_eq_pair_writes_alike<
    'a,
    C1: Column + Copy,
    E1: QueryFragment<DB>,
    C2: Column<Table = C1::Table> + Copy,
    E2: QueryFragment<DB>,
    DB: Backend,
>(record: &'a (Eq<C1, E1>, Eq<C2, E2>))
    ensures
        writes_alike::<
            ValuesClause<(ColumnInsertValue<C1, &'a E1>, ColumnInsertValue<C2, &'a E2>), C1::Table>,
            ValuesClause<(ColumnInsertValue<C1, E1>, ColumnInsertValue<C2, E2>), C1::Table>,
            DB,
        >(record.spec_values(), (*record).spec_values()),
{
}

/// Borrowing a vector of two-part `column.eq(value)` records writes the same
/// batch as handing the vector over, and fails alike.
pub proof fn lemma_eq_pair_batch_borrowed_writes_as_owned<
    'a,
    C1: Column + Copy,
    E1: QueryFragment<DB>,
    C2: Column<Table = C1::Table> + Copy,
    E2: QueryFragment<DB>,
    DB: SupportsDefaultKeyword,
>(
    borrowed: BatchInsert<'a, (Eq<C1, E1>, Eq<C2, E2>), C1::Table>,
    owned: OwnedBatchInsert<ValuesClause<(ColumnInsertValue<C1, E1>, ColumnInsertValue<C2, E2>), C1::Table>, C1::Table>,
    pass: PassV,
)
    requires
        owned@ == owned_rows::<(Eq<C1, E1>, Eq<C2, E2>), C1::Table>(borrowed@),
    ensures
        borrowed.spec_walk(pass) == owned.spec_walk(pass),
        borrowed.spec_walk_error(pass) == owned.spec_walk_error(pass),
{
    let rows = borrowed@;
    assert forall|i: int| 0 <= i < rows.len() implies #[trigger] writes_alike::<
        ValuesClause<(ColumnInsertValue<C1, &'a E1>, ColumnInsertValue<C2, &'a E2>), C1::Table>,
        ValuesClause<(ColumnInsertValue<C1, E1>, ColumnInsertValue<C2, E2>), C1::Table>,
        DB,
    >(
        borrowed_rows::<'a, (Eq<C1, E1>, Eq<C2, E2>), C1::Table>(rows)[i],
        owned_rows::<(Eq<C1, E1>, Eq<C2, E2>), C1::Table>(rows)[i],
    ) by {
        lemma_eq_pair_writes_alike::<C1, E1, C2, E2, DB>(&rows[i]);
    }
    lemma_borrowed_batch_writes_as_owned::<'a, (Eq<C1, E1>, Eq<C2, E2>), C1::Table, DB>(borrowed, owned, pass);
}

/// Writing rows into a pass marked not to be cached is writing them, then marking.
pub proof fn lemma_walk_rows_uncached<C, DB: Backend>(rows: Seq<C::V>, pass: PassV) where
    C: SingleRecord + QueryFragment<DB>,
    C::Inner: QueryFragment<DB>,
    ensures
        walk_rows::<C, DB>(rows, uncached(pass)) == uncached(walk_rows::<C, DB>(rows, pass)),
        walk_rows_error::<C, DB>(rows, uncached(pass)) == walk_rows_error::<C, DB>(rows, pass),
    decreases rows.len(),
{
    if rows.len() == 1 {
        C::spec_clause(rows[0]).lemma_walk_uncached(pass);
    } else if rows.len() > 1 {
        let front = rows.drop_last();
        lemma_walk_rows_uncached::<C, DB>(front, pass);
        let q = with_sql(walk_rows::<C, DB>(front, pass), ", ("@);
        assert(with_sql(uncached(walk_rows::<C, DB>(front, pass)), ", ("@) == uncached(q));
        C::spec_inner(rows.last()).lemma_walk_uncached(q);
    }
}

/// An array batch writes the SQL and bind parameters of the vector batch
/// with the same clauses, and fails where it fails with the same error; only
/// the vector batch marks the statement as not to be cached.
pub proof fn lemma_static_batch_writes_as_owned<C, Tab, DB: SupportsDefaultKeyword, const N: usize>(
    array: StaticBatchInsert<C, Tab, N>,
    vector: OwnedBatchInsert<C, Tab>,
    pass: PassV,
) where
    C: SingleRecord + QueryFragment<DB>,
    C::Inner: QueryFragment<DB>,
    requires
        array@ == vector@,
    ensures
        vector.spec_walk(pass) == uncached(array.spec_walk(pass)),
        vector.spec_walk(pass).sql == array.spec_walk(pass).sql,
        vector.spec_walk(pass).binds == array.spec_walk(pass).binds,
        vector.spec_walk_error(pass) == array.spec_walk_error(pass),
{
    lemma_walk_rows_uncached::<C, DB>(vector@, pass);
}

/// On SQLite, an optional column value that is present writes exactly what
/// the value writes (its SQL, its bind parameters, and any error), and one
/// that is absent writes nothing and cannot fail.
pub proof fn lemma_sqlite_optional_value<Col, Expr: QueryFragment<Sqlite>>(
    v: DefaultableColumnInsertValue<ColumnInsertValue<Col, Expr>>,
    pass: PassV,
)
    ensures
        match v {
            DefaultableColumnInsertValue::Expression(c) => {
                &&& QueryFragment::<Sqlite>::spec_walk(&v, pass) == c.expr.spec_walk(pass)
                &&& QueryFragment::<Sqlite>::spec_walk_error(&v, pass) == c.expr.spec_walk_error(pass)
            },
            DefaultableColumnInsertValue::Default => {
                &&& QueryFragment::<Sqlite>::spec_walk(&v, pass) == pass
                &&& QueryFragment::<Sqlite>::spec_walk_error(&v, pass) is None
            },
        },
{
}

/// On SQLite, the `VALUES` clause of an optional column set to a bound value
/// names the column once and writes one placeholder that carries the value:
/// `(<column>) VALUES (?)`, one more bind parameter, and no error. Left to its
/// default, the column is neither named nor written: `() VALUES ()`. Either
/// way the clause names as many columns as it writes values.
pub proof fn lemma_sqlite_optional_bound_clause<Col: Column>(
    clause: ValuesClause<DefaultableColumnInsertValue<ColumnInsertValue<Col, Bound>>, Col::Table>,
    pass: PassV,
)
    ensures
        match clause.values {
            DefaultableColumnInsertValue::Expression(c) => {
                &&& QueryFragment::<Sqlite>::spec_walk(&clause, pass) == with_sql(
                    with_bind(
                        BackendKind::Sqlite,
                        with_sql(pass, "("@ + quote_ident(BackendKind::Sqlite, Col::NAME@) + ") VALUES ("@),
                        c.expr.shown@,
                    ),
                    ")"@,
                )
                &&& QueryFragment::<Sqlite>::spec_walk(&clause, pass).binds == pass.binds.push(c.expr.shown@)
                &&& QueryFragment::<Sqlite>::spec_walk_error(&clause, pass) is None
            },
            DefaultableColumnInsertValue::Default => {
                &&& QueryFragment::<Sqlite>::spec_walk(&clause, pass) == with_sql(pass, "() VALUES ()"@)
                &&& QueryFragment::<Sqlite>::spec_walk_error(&clause, pass) is None
            },
        },
{
    reveal_strlit("(");
    reveal_strlit(") VALUES (");
    reveal_strlit(")");
    reveal_strlit("() VALUES ()");
    let p1 = with_sql(pass, "("@);
    match clause.values {
        DefaultableColumnInsertValue::Expression(c) => {
            let q = quote_ident(BackendKind::Sqlite, Col::NAME@);
            let p2 = with_sql(with_sql(p1, q), ") VALUES ("@);
            assert(p2.sql =~= with_sql(pass, "("@ + q + ") VALUES ("@).sql);
            assert(p2 == with_sql(pass, "("@ + q + ") VALUES ("@));
        },
        DefaultableColumnInsertValue::Default => {
            let p3 = with_sql(with_sql(p1, ") VALUES ("@), ")"@);
            assert(p3.sql =~= with_sql(pass, "() VALUES ()"@).sql);
            assert(p3 == with_sql(pass, "() VALUES ()"@));
        },
    }
}

/// On backends with `DEFAULT`, an optional column value that is present
/// writes exactly what the value writes (its SQL, its bind parameters, and
/// any error), and one that is absent writes `DEFAULT` with no bind parameter
/// and cannot fail; either way the statement is marked as not to be cached.
pub proof fn lemma_default_keyword_optional_value<Expr: QueryFragment<DB>, DB: SupportsDefaultKeyword>(
    v: DefaultableColumnInsertValue<Expr>,
    pass: PassV,
)
    ensures
        match v {
            DefaultableColumnInsertValue::Expression(e) => {
                &&& QueryFragment::<DB>::spec_walk(&v, pass) == e.spec_walk(uncached(pass))
                &&& QueryFragment::<DB>::spec_walk_error(&v, pass) == e.spec_walk_error(uncached(pass))
            },
            DefaultableColumnInsertValue::Default => {
                &&& QueryFragment::<DB>::spec_walk(&v, pass).sql == pass.sql + "DEFAULT"@
                &&& QueryFragment::<DB>::spec_walk(&v, pass).binds == pass.binds
                &&& !QueryFragment::<DB>::spec_walk(&v, pass).safe_to_cache
                &&& QueryFragment::<DB>::spec_walk_error(&v, pass) is None
            },
        },
{
}

} // verus!
