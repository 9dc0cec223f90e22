//! The statement that `select_by` makes: a select statement whose selection
//! is given by a type. Query methods pass through to the statement inside,
//! and those that keep the selection keep the wrapper.

use vstd::prelude::*;
use std::marker::PhantomData;
use crate::insertable::Insertable;
use crate::query_builder::Table;

verus! {

/// A select statement `inner` whose selection is that of the type `S`.
#[derive(Debug)]
pub struct SelectByStatement<S, STMT> {
    pub inner: STMT,
    pub selection: PhantomData<S>,
}

impl<S, STMT> SelectByStatement<S, STMT> {
    pub fn new(inner: STMT) -> (r: Self)
        ensures
            r.inner == inner,
    {
        SelectByStatement { inner, selection: PhantomData }
    }
}

/// `JOIN`ing another source.
pub trait InternalJoinDsl<Rhs, Kind, On> {
    type Output;

    fn join(self, rhs: Rhs, kind: Kind, on: On) -> Self::Output;
}

/// Replacing the selection.
pub trait SelectDsl<Selection> {
    type Output;

    fn select(self, selection: Selection) -> Self::Output;
}

/// Adding `DISTINCT`.
pub trait DistinctDsl {
    type Output;

    fn distinct(self) -> Self::Output;
}

/// Adding a `WHERE` condition with `AND`.
pub trait FilterDsl<Predicate> {
    type Output;

    fn filter(self, predicate: Predicate) -> Self::Output;
}

/// Adding a `WHERE` condition with `OR`.
pub trait OrFilterDsl<Predicate> {
    type Output;

    fn or_filter(self, predicate: Predicate) -> Self::Output;
}

/// Looking a row up by its primary key.
pub trait FindDsl<PK> {
    type Output;

    fn find(self, id: PK) -> Self::Output;
}

/// Setting the `ORDER BY` clause.
pub trait OrderDsl<Expr> {
    type Output;

    fn order(self, expr: Expr) -> Self::Output;
}

/// Appending to the `ORDER BY` clause.
pub trait ThenOrderDsl<Expr> {
    type Output;

    fn then_order_by(self, expr: Expr) -> Self::Output;
}

/// Setting `LIMIT`.
pub trait LimitDsl {
    type Output;

    fn limit(self, limit: i64) -> Self::Output;
}

/// Setting `OFFSET`.
pub trait OffsetDsl {
    type Output;

    fn offset(self, offset: i64) -> Self::Output;
}

/// Setting `GROUP BY`.
pub trait GroupByDsl<Expr> {
    type Output;

    fn group_by(self, expr: Expr) -> Self::Output;
}

/// Adding a locking clause such as `FOR UPDATE`.
pub trait LockingDsl<Lock> {
    type Output;

    fn with_lock(self, lock: Lock) -> Self::Output;
}

/// Changing the locking clause, such as with `NOWAIT`.
pub trait ModifyLockDsl<Modifier> {
    type Output;

    fn modify_lock(self, modifier: Modifier) -> Self::Output;
}

/// A query that has a table.
pub trait HasTable {
    type Table;

    fn table() -> Self::Table;
}

/// A source that can be joined to `Rhs`.
pub trait JoinTo<Rhs> {
    type FromClause;
    type OnClause;

    fn join_target(rhs: Rhs) -> (Self::FromClause, Self::OnClause);
}

/// The query methods.
pub trait QueryDsl {}

/// Running a query on a connection.
pub trait RunQueryDsl<Conn> {}

/// Inserting the rows that `query` selects into the columns `Columns`.
#[derive(Debug)]
pub struct InsertFromSelect<Select, Columns> {
    pub query: Select,
    pub columns: PhantomData<Columns>,
}

impl<Select, Columns> InsertFromSelect<Select, Columns> {
    pub fn new(query: Select) -> (r: Self)
        ensures
            r.query == query,
    {
        InsertFromSelect { query, columns: PhantomData }
    }
}

impl<Select, Columns> View for InsertFromSelect<Select, Columns> {
    type V = Select;

    open spec fn view(&self) -> Select {
        self.query
    }
}

impl<S, STMT: InternalJoinDsl<Rhs, Kind, On>, Rhs, Kind, On> InternalJoinDsl<Rhs, Kind, On> for SelectByStatement<S, STMT> {
    type Output = STMT::Output;

    /// Joins the statement inside; the result has the selection of a join.
    fn join(self, rhs: Rhs, kind: Kind, on: On) -> (r: Self::Output)
        ensures
            call_ensures(STMT::join, (self.inner, rhs, kind, on), r),
    {
        self.inner.join(rhs, kind, on)
    }
}

impl<S, STMT: SelectDsl<Selection>, Selection> SelectDsl<Selection> for SelectByStatement<S, STMT> {
    type Output = STMT::Output;

    /// A new selection replaces the one of `S`.
    fn select(self, selection: Selection) -> (r: Self::Output)
        ensures
            call_ensures(STMT::select, (self.inner, selection), r),
    {
        self.inner.select(selection)
    }
}

impl<S, STMT: DistinctDsl> DistinctDsl for SelectByStatement<S, STMT> {
    type Output = SelectByStatement<S, STMT::Output>;

    fn distinct(self) -> (r: Self::Output)
        ensures
            call_ensures(STMT::distinct, (self.inner,), r.inner),
    {
        SelectByStatement::new(self.inner.distinct())
    }
}

impl<S, STMT: FilterDsl<Predicate>, Predicate> FilterDsl<Predicate> for SelectByStatement<S, STMT> {
    type Output = SelectByStatement<S, STMT::Output>;

    fn filter(self, predicate: Predicate) -> (r: Self::Output)
        ensures
            call_ensures(STMT::filter, (self.inner, predicate), r.inner),
    {
        SelectByStatement::new(self.inner.filter(predicate))
    }
}

impl<S, STMT: OrFilterDsl<Predicate>, Predicate> OrFilterDsl<Predicate> for SelectByStatement<S, STMT> {
    type Output = SelectByStatement<S, STMT::Output>;

    fn or_filter(self, predicate: Predicate) -> (r: Self::Output)
        ensures
            call_ensures(STMT::or_filter, (self.inner, predicate), r.inner),
    {
        SelectByStatement::new(self.inner.or_filter(predicate))
    }
}

impl<S, STMT: FindDsl<PK>, PK> FindDsl<PK> for SelectByStatement<S, STMT> {
    type Output = SelectByStatement<S, STMT::Output>;

    fn find(self, id: PK) -> (r: Self::Output)
        ensures
            call_ensures(STMT::find, (self.inner, id), r.inner),
    {
        SelectByStatement::new(self.inner.find(id))
    }
}

impl<S, STMT: OrderDsl<Expr>, Expr> OrderDsl<Expr> for SelectByStatement<S, STMT> {
    type Output = SelectByStatement<S, STMT::Output>;

    fn order(self, expr: Expr) -> (r: Self::Output)
        ensures
            call_ensures(STMT::order, (self.inner, expr), r.inner),
    {
        SelectByStatement::new(self.inner.order(expr))
    }
}

impl<S, STMT: ThenOrderDsl<Expr>, Expr> ThenOrderDsl<Expr> for SelectByStatement<S, STMT> {
    type Output = SelectByStatement<S, STMT::Output>;

    fn then_order_by(self, expr: Expr) -> (r: Self::Output)
        ensures
            call_ensures(STMT::then_order_by, (self.inner, expr), r.inner),
    {
        SelectByStatement::new(self.inner.then_order_by(expr))
    }
}

impl<S, STMT: LimitDsl> LimitDsl for SelectByStatement<S, STMT> {
    type Output = SelectByStatement<S, STMT::Output>;

    fn limit(self, limit: i64) -> (r: Self::Output)
        ensures
            call_ensures(STMT::limit, (self.inner, limit), r.inner),
    {
        SelectByStatement::new(self.inner.limit(limit))
    }
}

impl<S, STMT: OffsetDsl> OffsetDsl for SelectByStatement<S, STMT> {
    type Output = SelectByStatement<S, STMT::Output>;

    fn offset(self, offset: i64) -> (r: Self::Output)
        ensures
            call_ensures(STMT::offset, (self.inner, offset), r.inner),
    {
        SelectByStatement::new(self.inner.offset(offset))
    }
}

impl<S, STMT: GroupByDsl<Expr>, Expr> GroupByDsl<Expr> for SelectByStatement<S, STMT> {
    type Output = STMT::Output;

    /// Grouping changes what can be selected, so the selection of `S` is dropped.
    fn group_by(self, expr: Expr) -> (r: Self::Output)
        ensures
            call_ensures(STMT::group_by, (self.inner, expr), r),
    {
        self.inner.group_by(expr)
    }
}

impl<S, STMT: LockingDsl<Lock>, Lock> LockingDsl<Lock> for SelectByStatement<S, STMT> {
    type Output = SelectByStatement<S, STMT::Output>;

    fn with_lock(self, lock: Lock) -> (r: Self::Output)
        ensures
            call_ensures(STMT::with_lock, (self.inner, lock), r.inner),
    {
        SelectByStatement::new(self.inner.with_lock(lock))
    }
}

impl<S, STMT: ModifyLockDsl<Modifier>, Modifier> ModifyLockDsl<Modifier> for SelectByStatement<S, STMT> {
    type Output = SelectByStatement<S, STMT::Output>;

    fn modify_lock(self, modifier: Modifier) -> (r: Self::Output)
        ensures
            call_ensures(STMT::modify_lock, (self.inner, modifier), r.inner),
    {
        SelectByStatement::new(self.inner.modify_lock(modifier))
    }
}

impl<S, STMT: HasTable> HasTable for SelectByStatement<S, STMT> {
    type Table = STMT::Table;

    fn table() -> (r: Self::Table)
        ensures
            call_ensures(STMT::table, (), r),
    {
        STMT::table()
    }
}

impl<S, STMT: JoinTo<Rhs>, Rhs> JoinTo<Rhs> for SelectByStatement<S, STMT> {
    type FromClause = STMT::FromClause;
    type OnClause = STMT::OnClause;

    fn join_target(rhs: Rhs) -> (r: (Self::FromClause, Self::OnClause))
        ensures
            call_ensures(STMT::join_target, (rhs,), r),
    {
        STMT::join_target(rhs)
    }
}

impl<S, STMT> QueryDsl for SelectByStatement<S, STMT> {}

impl<S, STMT, Conn> RunQueryDsl<Conn> for SelectByStatement<S, STMT> {}

/// The rows that the statement selects, inserted into all the columns of `Tab`.
impl<S, STMT, Tab: Table> Insertable<Tab> for SelectByStatement<S, STMT> {
    type Values = InsertFromSelect<Self, Tab::AllColumns>;

    open spec fn spec_values(self) -> Self {
        self
    }

    fn values(self) -> (r: Self::Values) {
        let r = InsertFromSelect::new(self);
        assert(r@ == r.query);
        r
    }
}

impl<'a, S, STMT, Tab: Table> Insertable<Tab> for &'a SelectByStatement<S, STMT> {
    type Values = InsertFromSelect<Self, Tab::AllColumns>;

    open spec fn spec_values(self) -> Self {
        self
    }

    fn values(self) -> (r: Self::Values) {
        let r = InsertFromSelect::new(self);
        assert(r@ == r.query);
        r
    }
}

} // verus!
