//! Building SQL text: backends, the pass that collects SQL and bind
//! parameters, and the trait of everything that can be written as SQL.

use vstd::prelude::*;
use std::marker::PhantomData;
use crate::util::{push_text, string_push, join_texts};

verus! {

/// The database backends, as values.
#[derive(Clone, Copy, PartialEq, Eq, Structural, Debug)]
pub enum BackendKind {
    Pg,
    Mysql,
    Sqlite,
}

/// A database backend.
pub trait Backend {
    spec fn spec_kind() -> BackendKind;

    fn kind() -> (k: BackendKind)
        ensures
            k == Self::spec_kind(),
    ;
}

/// Backends whose SQL has the `DEFAULT` keyword in `VALUES` lists.
pub trait SupportsDefaultKeyword: Backend {}

/// PostgreSQL.
#[derive(Debug, Clone, Copy)]
pub struct Pg;

/// MySQL.
#[derive(Debug, Clone, Copy)]
pub struct Mysql;

/// SQLite.
#[derive(Debug, Clone, Copy)]
pub struct Sqlite;

impl Backend for Pg {
    open spec fn spec_kind() -> BackendKind {
        BackendKind::Pg
    }

    fn kind() -> (k: BackendKind) {
        BackendKind::Pg
    }
}

impl Backend for Mysql {
    open spec fn spec_kind() -> BackendKind {
        BackendKind::Mysql
    }

    fn kind() -> (k: BackendKind) {
        BackendKind::Mysql
    }
}

impl Backend for Sqlite {
    open spec fn spec_kind() -> BackendKind {
        BackendKind::Sqlite
    }

    fn kind() -> (k: BackendKind) {
        BackendKind::Sqlite
    }
}

impl SupportsDefaultKeyword for Pg {}

impl SupportsDefaultKeyword for Mysql {}

/// An error while building a query.
#[derive(Debug)]
pub enum Error {
    QueryBuilderError(String),
}

impl View for Error {
    type V = Seq<char>;

    open spec fn view(&self) -> Seq<char> {
        match self {
            Error::QueryBuilderError(m) => m@,
        }
    }
}

pub type QueryResult<T> = Result<T, Error>;

/// What a pass has collected: the SQL text, the bind parameters (each by the
/// text that shows its value), and whether the statement may be cached.
pub struct PassV {
    pub sql: Seq<char>,
    pub binds: Seq<Seq<char>>,
    pub safe_to_cache: bool,
}

/// A pass that collects the SQL text and the bind parameters of a query.
pub struct AstPass<DB> {
    sql: String,
    binds: Vec<String>,
    safe_to_cache: bool,
    backend: PhantomData<DB>,
}

pub open spec fn texts(ss: Seq<String>) -> Seq<Seq<char>> {
    ss.map_values(|s: String| s@)
}

impl<DB> View for AstPass<DB> {
    type V = PassV;

    closed spec fn view(&self) -> PassV {
        PassV { sql: self.sql@, binds: texts(self.binds@), safe_to_cache: self.safe_to_cache }
    }
}

/// The pass before anything is written.
pub open spec fn empty_pass() -> PassV {
    PassV { sql: Seq::empty(), binds: Seq::empty(), safe_to_cache: true }
}

/// `p` with `s` appended to its SQL.
pub open spec fn with_sql(p: PassV, s: Seq<char>) -> PassV {
    PassV { sql: p.sql + s, binds: p.binds, safe_to_cache: p.safe_to_cache }
}

/// The character that quotes identifiers.
pub open spec fn quote_char(k: BackendKind) -> char {
    match k {
        BackendKind::Pg => '"',
        _ => '`',
    }
}

/// `s` with every quote character doubled.
pub open spec fn escape_ident(s: Seq<char>, q: char) -> Seq<char>
    decreases s.len(),
{
    if s.len() == 0 {
        Seq::empty()
    } else {
        escape_ident(s.drop_last(), q) + if s.last() == q {
            seq![q, q]
        } else {
            seq![s.last()]
        }
    }
}

/// An identifier as the backend quotes it.
pub open spec fn quote_ident(k: BackendKind, s: Seq<char>) -> Seq<char> {
    seq![quote_char(k)] + escape_ident(s, quote_char(k)) + seq![quote_char(k)]
}

pub open spec fn digit(d: nat) -> char {
    if d == 0 {
        '0'
    } else if d == 1 {
        '1'
    } else if d == 2 {
        '2'
    } else if d == 3 {
        '3'
    } else if d == 4 {
        '4'
    } else if d == 5 {
        '5'
    } else if d == 6 {
        '6'
    } else if d == 7 {
        '7'
    } else if d == 8 {
        '8'
    } else {
        '9'
    }
}

/// The decimal digits of `n`.
pub open spec fn decimal(n: nat) -> Seq<char>
    decreases n,
{
    if n < 10 {
        seq![digit(n)]
    } else {
        decimal(n / 10) + seq![digit(n % 10)]
    }
}

/// The placeholder of the bind parameter that follows `n` others: `$n+1` on
/// PostgreSQL, `?` elsewhere.
pub open spec fn placeholder(k: BackendKind, n: nat) -> Seq<char> {
    match k {
        BackendKind::Pg => seq!['$'] + decimal(n + 1),
        _ => seq!['?'],
    }
}

/// `p` after a bind parameter shown as `value`.
pub open spec fn with_bind(k: BackendKind, p: PassV, value: Seq<char>) -> PassV {
    PassV {
        sql: p.sql + placeholder(k, p.binds.len()),
        binds: p.binds.push(value),
        safe_to_cache: p.safe_to_cache,
    }
}

/// `p` marked as not to be cached.
pub open spec fn uncached(p: PassV) -> PassV {
    PassV { sql: p.sql, binds: p.binds, safe_to_cache: false }
}

/// What `debug_query` shows of a pass: the SQL, then `-- binds: [..]`.
pub open spec fn debug_text(p: PassV) -> Seq<char> {
    p.sql + " -- binds: ["@ + join_texts(p.binds, ", "@) + "]"@
}

fn digit_char(d: u128) -> (c: char)
    requires
        d < 10,
    ensures
        c == digit(d as nat),
{
    if d == 0 {
        '0'
    } else if d == 1 {
        '1'
    } else if d == 2 {
        '2'
    } else if d == 3 {
        '3'
    } else if d == 4 {
        '4'
    } else if d == 5 {
        '5'
    } else if d == 6 {
        '6'
    } else if d == 7 {
        '7'
    } else if d == 8 {
        '8'
    } else {
        '9'
    }
}

pub(crate) fn push_decimal(out: &mut String, n: u128)
    ensures
        final(out)@ == old(out)@ + decimal(n as nat),
    decreases n,
{
    if n >= 10 {
        push_decimal(out, n / 10);
    }
    string_push(out, digit_char(n % 10));
}

impl<DB: Backend> AstPass<DB> {
    /// A pass with nothing written yet.
    pub fn new() -> (p: Self)
        ensures
            p@ == empty_pass(),
    {
        let binds: Vec<String> = Vec::new();
        assert(texts(binds@) == Seq::<Seq<char>>::empty());
        AstPass { sql: String::new(), binds, safe_to_cache: true, backend: PhantomData }
    }

    /// Appends SQL text.
    pub fn push_sql(&mut self, s: &str)
        ensures
            final(self)@ == with_sql(old(self)@, s@),
    {
        self.sql.append(s);
    }

    /// Appends an identifier, quoted as the backend quotes identifiers.
    pub fn push_identifier(&mut self, id: &str) -> (r: QueryResult<()>)
        ensures
            r is Ok,
            final(self)@ == with_sql(old(self)@, quote_ident(DB::spec_kind(), id@)),
    {
        let q = match DB::kind() {
            BackendKind::Pg => '"',
            _ => '`',
        };
        let ghost start = self.sql@;
        let ghost binds0 = self.binds@;
        let ghost safe0 = self.safe_to_cache;
        string_push(&mut self.sql, q);
        let n = id.unicode_len();
        let mut i: usize = 0;
        while i < n
            invariant
                i <= n,
                n == id@.len(),
                q == quote_char(DB::spec_kind()),
                self.binds@ == binds0,
                self.safe_to_cache == safe0,
                self.sql@ == start + seq![q] + escape_ident(id@.take(i as int), q),
            decreases n - i,
        {
            let c = id.get_char(i);
            string_push(&mut self.sql, c);
            if c == q {
                string_push(&mut self.sql, q);
            }
            assert(id@.take(i as int + 1).drop_last() == id@.take(i as int));
            i = i + 1;
        }
        assert(id@.take(n as int) == id@);
        string_push(&mut self.sql, q);
        assert(self.sql@ == start + (seq![q] + escape_ident(id@, q) + seq![q]));
        assert(start == old(self).sql@);
        assert(self.binds@ == old(self).binds@);
        assert(self.safe_to_cache == old(self).safe_to_cache);
        assert(quote_ident(DB::spec_kind(), id@) == seq![q] + escape_ident(id@, q) + seq![q]);
        Ok(())
    }

    /// Appends the placeholder of a new bind parameter whose value is shown as `value`.
    pub fn push_bind_param(&mut self, value: &str)
        ensures
            final(self)@ == with_bind(DB::spec_kind(), old(self)@, value@),
    {
        match DB::kind() {
            BackendKind::Pg => {
                string_push(&mut self.sql, '$');
                let n = self.binds.len() as u128;
                push_decimal(&mut self.sql, n + 1);
            },
            _ => {
                string_push(&mut self.sql, '?');
            },
        }
        let ghost before = self.binds@;
        let ghost sql_after = self.sql@;
        assert(sql_after == old(self).sql@ + placeholder(DB::spec_kind(), old(self)@.binds.len()));
        self.binds.push(String::from_str(value));
        assert(texts(self.binds@) == texts(before).push(value@));
    }

    /// Marks the statement as one that must not be cached.
    pub fn unsafe_to_cache_prepared(&mut self)
        ensures
            final(self)@ == uncached(old(self)@),
    {
        self.safe_to_cache = false;
    }

    /// The SQL written so far.
    pub fn sql(&self) -> (r: String)
        ensures
            r@ == self@.sql,
    {
        self.sql.clone()
    }

    /// The number of bind parameters so far.
    pub fn bind_count(&self) -> (r: usize)
        ensures
            r == self@.binds.len(),
    {
        self.binds.len()
    }

    /// The shown value of bind parameter `i`.
    pub fn bind_text(&self, i: usize) -> (r: &str)
        requires
            i < self@.binds.len(),
        ensures
            r@ == self@.binds[i as int],
    {
        self.binds[i].as_str()
    }

    /// Whether the statement may be cached.
    pub fn is_safe_to_cache_prepared(&self) -> (r: bool)
        ensures
            r == self@.safe_to_cache,
    {
        self.safe_to_cache
    }

    /// The SQL followed by `-- binds: [..]` with the shown values.
    pub fn debug_text(&self) -> (r: String)
        ensures
            r@ == debug_text(self@),
    {
        let mut out = self.sql.clone();
        push_text(&mut out, " -- binds: [");
        let ghost all = texts(self.binds@);
        let ghost start = out@;
        let mut i: usize = 0;
        while i < self.binds.len()
            invariant
                i <= self.binds@.len(),
                all == texts(self.binds@),
                out@ == start + join_texts(all.take(i as int), ", "@),
            decreases self.binds@.len() - i,
        {
            assert(all.take(i as int + 1).drop_last() == all.take(i as int));
            if i > 0 {
                push_text(&mut out, ", ");
            }
            push_text(&mut out, self.binds[i].as_str());
            proof {
                if i == 0 {
                    assert(all.take(1) == seq![all[0]]);
                }
            }
            i = i + 1;
        }
        assert(all.take(self.binds@.len() as int) == all);
        push_text(&mut out, "]");
        out
    }
}

/// Something that can be written as SQL for backend `DB`.
pub trait QueryFragment<DB: Backend> {
    /// The pass after writing `self` into `pass`.
    spec fn spec_walk(&self, pass: PassV) -> PassV;

    /// The error that writing `self` into `pass` stops with, if it fails.
    spec fn spec_walk_error(&self, pass: PassV) -> Option<Seq<char>>;

    /// Writing does not look at the cache mark: writing into a pass marked
    /// not to be cached is writing, then marking, and fails as it would.
    proof fn lemma_walk_uncached(&self, pass: PassV)
        ensures
            self.spec_walk(uncached(pass)) == uncached(self.spec_walk(pass)),
            self.spec_walk_error(uncached(pass)) == self.spec_walk_error(pass),
    ;

    /// Writes `self` into `out`, or stops with the error.
    fn walk_ast(&self, out: &mut AstPass<DB>) -> (r: QueryResult<()>)
        ensures
            match r {
                Ok(_) => self.spec_walk_error(old(out)@) is None && final(out)@ == self.spec_walk(old(out)@),
                Err(e) => self.spec_walk_error(old(out)@) == Some(e@),
            },
    ;
}

impl<'a, DB: Backend, T: QueryFragment<DB>> QueryFragment<DB> for &'a T {
    proof fn lemma_walk_uncached(&self, pass: PassV) {
        (**self).lemma_walk_uncached(pass);
    }

    open spec fn spec_walk_error(&self, pass: PassV) -> Option<Seq<char>> {
        (**self).spec_walk_error(pass)
    }

    open spec fn spec_walk(&self, pass: PassV) -> PassV {
        (**self).spec_walk(pass)
    }

    fn walk_ast(&self, out: &mut AstPass<DB>) -> (r: QueryResult<()>) {
        (**self).walk_ast(out)
    }
}

/// A value sent to the database as a bind parameter, by the text that shows it.
#[derive(Debug)]
pub struct Bound {
    pub shown: String,
}

impl<DB: Backend> QueryFragment<DB> for Bound {
    proof fn lemma_walk_uncached(&self, pass: PassV) {
    }

    /// A value that is already shown never fails.
    open spec fn spec_walk_error(&self, pass: PassV) -> Option<Seq<char>> {
        None
    }

    open spec fn spec_walk(&self, pass: PassV) -> PassV {
        with_bind(DB::spec_kind(), pass, self.shown@)
    }

    fn walk_ast(&self, out: &mut AstPass<DB>) -> (r: QueryResult<()>) {
        out.push_bind_param(self.shown.as_str());
        Ok(())
    }
}

/// The text of `s` as `{:?}` formats a string: in double quotes, with
/// quotes, backslashes and unprintable characters escaped.
pub uninterp spec fn str_debug_text(s: Seq<char>) -> Seq<char>;

/// Formats `s` with `{:?}`; the result is named, not restated.
#[verifier::external_body]
fn debug_str(s: &str) -> (r: String)
    ensures
        r@ == str_debug_text(s@),
{
    format!("{:?}", s)
}

/// What the `{:?}` form of a shown query holds: `Query { sql: "..", binds: [..] }`.
pub open spec fn debug_struct_text(p: PassV) -> Seq<char> {
    "Query { sql: "@ + str_debug_text(p.sql) + ", binds: ["@ + join_texts(p.binds, ", "@) + "] }"@
}

/// A query written for backend `DB`, kept to be shown with its bind parameters.
pub struct DebugQuery<DB> {
    pass: AstPass<DB>,
}

impl<DB> View for DebugQuery<DB> {
    type V = PassV;

    closed spec fn view(&self) -> PassV {
        self.pass@
    }
}

/// Writes `query` for backend `DB`, to show it.
pub fn debug_query<DB: Backend, T: QueryFragment<DB>>(query: &T) -> (r: DebugQuery<DB>)
    ensures
        query.spec_walk_error(empty_pass()) is None ==> r@ == query.spec_walk(empty_pass()),
{
    let mut pass: AstPass<DB> = AstPass::new();
    let _ = query.walk_ast(&mut pass);
    DebugQuery { pass }
}

impl<DB: Backend> DebugQuery<DB> {
    /// The SQL followed by ` -- binds: [..]`, as the query is displayed.
    pub fn to_string(&self) -> (r: String)
        ensures
            r@ == debug_text(self@),
    {
        self.pass.debug_text()
    }

    /// The query as `{:?}` shows it: `Query { sql: "..", binds: [..] }`.
    pub fn debug_string(&self) -> (r: String)
        ensures
            r@ == debug_struct_text(self@),
    {
        let mut out = String::from_str("Query { sql: ");
        let sql = self.pass.sql();
        let quoted = debug_str(sql.as_str());
        push_text(&mut out, quoted.as_str());
        push_text(&mut out, ", binds: [");
        let ghost all = self@.binds;
        let ghost start = out@;
        let n = self.pass.bind_count();
        let mut i: usize = 0;
        while i < n
            invariant
                i <= n,
                n == all.len(),
                all == self@.binds,
                out@ == start + join_texts(all.take(i as int), ", "@),
            decreases n - i,
        {
            assert(all.take(i as int + 1).drop_last() == all.take(i as int));
            if i > 0 {
                push_text(&mut out, ", ");
            }
            let b = self.pass.bind_text(i);
            push_text(&mut out, b);
            proof {
                if i == 0 {
                    assert(all.take(1) == seq![all[0]]);
                }
            }
            i = i + 1;
        }
        assert(all.take(n as int) == all);
        push_text(&mut out, "] }");
        out
    }
}

/// A table.
pub trait Table {
    /// All the columns of the table.
    type AllColumns;

    /// The table's name.
    const NAME: &'static str;
}

/// A column of table `Self::Table`.
pub trait Column {
    type Table: Table;

    /// The column's name.
    const NAME: &'static str;
}

} // verus!
