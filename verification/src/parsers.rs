//! The option groups of `belongs_to(...)`, `changeset_options(...)`,
//! `mysql_type(...)`, `sqlite_type(...)` and `postgres_type(...)`.
//!
//! Each parser reads the tokens inside the parentheses.

use vstd::prelude::*;
use crate::tokens::{toks, Tok, TokenTree};
use crate::syntax::{
    at_punct, tok_punct, parse_type_path, syn_accepts_ident, peek_punct, spec_type_path, view_warnings, AttrError,
    AttrErrorV, Ident, LitBool, LitInt, LitStr, TypePath, Warning, WarningV,
};
use crate::options::{
    given_last, key_given, last_value, lemma_entries_of_table, lemma_entries_swap, lemma_given_has_last,
    lemma_last_value_given, joined, pieces_read_as, swapped, spec_entry, ValueV, entries_res, last_ident, last_ident_of, last_lit_bool, last_lit_bool_of, last_lit_int,
    last_lit_int_of, last_lit_str, last_lit_str_of, parse_entries, spec_entries, view_entries,
    OptionTable,
};

verus! {

/// `belongs_to(Parent)` or `belongs_to(Parent, foreign_key = column)`.
#[derive(Debug)]
pub struct BelongsTo {
    pub parent: TypePath,
    pub foreign_key: Option<Ident>,
}

impl View for BelongsTo {
    type V = (Seq<char>, Option<Seq<char>>);

    open spec fn view(&self) -> (Seq<char>, Option<Seq<char>>) {
        (
            self.parent@,
            match self.foreign_key {
                Some(k) => Some(k@),
                None => None,
            },
        )
    }
}

/// `belongs_to` options: the parent type, then, after a comma, options that
/// follow one another without commas. Without a comma after the parent the
/// rest of the stream is left unread; the position after what was read comes
/// with the result.
pub open spec fn spec_belongs_to(ts: Seq<Tok>) -> Result<((Seq<char>, Option<Seq<char>>), int), AttrErrorV> {
    match spec_type_path(ts, 0) {
        Err(e) => Err(e),
        Ok((parent, p1)) => if at_punct(ts, p1, ',') {
            match spec_entries(ts, p1 + 1, OptionTable::BelongsTo) {
                Err(e) => Err(e),
                Ok(es) => Ok(((parent, last_ident(es, "foreign_key"@)), ts.len() as int)),
            }
        } else {
            Ok(((parent, None), p1))
        },
    }
}

impl BelongsTo {
    /// Reads `belongs_to` options from the start of `ts`.
    pub fn parse(ts: &Vec<TokenTree>) -> (r: Result<(BelongsTo, usize), AttrError>)
        ensures
            match r {
                Ok((b, e)) => spec_belongs_to(toks(ts)) == Ok::<_, AttrErrorV>((b@, e as int)),
                Err(err) => spec_belongs_to(toks(ts)) == Err::<((Seq<char>, Option<Seq<char>>), int), _>(err@),
            },
    {
        let (parent, p1) = match parse_type_path(ts, 0) {
            Ok(x) => x,
            Err(e) => return Err(e),
        };
        if peek_punct(ts, p1, ',') {
            assert(p1 < ts.len());
            let es = match parse_entries(ts, p1 + 1, OptionTable::BelongsTo) {
                Ok(es) => es,
                Err(e) => return Err(e),
            };
            let foreign_key = last_ident_of(&es, "foreign_key");
            assert(toks(ts).len() == ts@.len());
            Ok((BelongsTo { parent, foreign_key }, ts.len()))
        } else {
            Ok((BelongsTo { parent, foreign_key: None }, p1))
        }
    }
}

/// `changeset_options(treat_none_as_null = true)`.
#[derive(Debug)]
pub struct ChangesetOptions {
    pub treat_none_as_null: Option<LitBool>,
}

impl View for ChangesetOptions {
    type V = Option<bool>;

    open spec fn view(&self) -> Option<bool> {
        match self.treat_none_as_null {
            Some(b) => Some(b@),
            None => None,
        }
    }
}

pub open spec fn spec_changeset_options(ts: Seq<Tok>) -> Result<Option<bool>, AttrErrorV> {
    match spec_entries(ts, 0, OptionTable::ChangesetOptions) {
        Err(e) => Err(e),
        Ok(es) => Ok(last_lit_bool(es, "treat_none_as_null"@)),
    }
}

impl ChangesetOptions {
    /// Reads `changeset_options` options: all of `ts`.
    pub fn parse(ts: &Vec<TokenTree>) -> (r: Result<ChangesetOptions, AttrError>)
        ensures
            match r {
                Ok(c) => spec_changeset_options(toks(ts)) == Ok::<_, AttrErrorV>(c@),
                Err(err) => spec_changeset_options(toks(ts)) == Err::<Option<bool>, _>(err@),
            },
    {
        let es = match parse_entries(ts, 0, OptionTable::ChangesetOptions) {
            Ok(es) => es,
            Err(e) => return Err(e),
        };
        let treat_none_as_null = last_lit_bool_of(&es, "treat_none_as_null");
        Ok(ChangesetOptions { treat_none_as_null })
    }
}

/// `mysql_type(name = "...")`.
#[derive(Debug)]
pub struct MysqlType {
    pub name: LitStr,
}

impl View for MysqlType {
    type V = Seq<char>;

    open spec fn view(&self) -> Seq<char> {
        self.name@
    }
}

/// `sqlite_type(name = "...")`.
#[derive(Debug)]
pub struct SqliteType {
    pub name: LitStr,
}

impl View for SqliteType {
    type V = Seq<char>;

    open spec fn view(&self) -> Seq<char> {
        self.name@
    }
}

/// A list of options with a required string literal `name`.
pub open spec fn spec_named_type(ts: Seq<Tok>, table: OptionTable) -> Result<Seq<char>, AttrErrorV> {
    match spec_entries(ts, 0, table) {
        Err(e) => Err(e),
        Ok(es) => match last_lit_str(es, "name"@) {
            Some(name) => Ok(name),
            None => Err(AttrErrorV::MissingName),
        },
    }
}

fn parse_named(ts: &Vec<TokenTree>, table: OptionTable) -> (r: Result<LitStr, AttrError>)
    ensures
        match r {
            Ok(n) => spec_named_type(toks(ts), table) == Ok::<_, AttrErrorV>(n@),
            Err(err) => spec_named_type(toks(ts), table) == Err::<Seq<char>, _>(err@),
        },
{
    let es = match parse_entries(ts, 0, table) {
        Ok(es) => es,
        Err(e) => return Err(e),
    };
    match last_lit_str_of(&es, "name") {
        Some(name) => Ok(name),
        None => Err(AttrError::MissingName),
    }
}

impl MysqlType {
    /// Reads `mysql_type` options: all of `ts`; `name` must be given.
    pub fn parse(ts: &Vec<TokenTree>) -> (r: Result<MysqlType, AttrError>)
        ensures
            match r {
                Ok(m) => spec_named_type(toks(ts), OptionTable::MysqlType) == Ok::<_, AttrErrorV>(m@),
                Err(err) => spec_named_type(toks(ts), OptionTable::MysqlType) == Err::<Seq<char>, _>(err@),
            },
    {
        match parse_named(ts, OptionTable::MysqlType) {
            Ok(name) => Ok(MysqlType { name }),
            Err(e) => Err(e),
        }
    }
}

impl SqliteType {
    /// Reads `sqlite_type` options: all of `ts`; `name` must be given.
    pub fn parse(ts: &Vec<TokenTree>) -> (r: Result<SqliteType, AttrError>)
        ensures
            match r {
                Ok(m) => spec_named_type(toks(ts), OptionTable::SqliteType) == Ok::<_, AttrErrorV>(m@),
                Err(err) => spec_named_type(toks(ts), OptionTable::SqliteType) == Err::<Seq<char>, _>(err@),
            },
    {
        match parse_named(ts, OptionTable::SqliteType) {
            Ok(name) => Ok(SqliteType { name }),
            Err(e) => Err(e),
        }
    }
}

/// `postgres_type(oid = 1, array_oid = 2)` or
/// `postgres_type(type_name = "...", type_schema = "...")`.
#[derive(Debug)]
pub enum PostgresType {
    Fixed(LitInt, LitInt),
    Lookup(LitStr, Option<LitStr>),
}

pub enum PostgresTypeV {
    Fixed(Seq<char>, Seq<char>),
    Lookup(Seq<char>, Option<Seq<char>>),
}

impl View for PostgresType {
    type V = PostgresTypeV;

    open spec fn view(&self) -> PostgresTypeV {
        match self {
            PostgresType::Fixed(o, a) => PostgresTypeV::Fixed(o@, a@),
            PostgresType::Lookup(n, s) => PostgresTypeV::Lookup(
                n@,
                match s {
                    Some(x) => Some(x@),
                    None => None,
                },
            ),
        }
    }
}

/// `postgres_type` options: with `type_name` a lookup by name (and a warning
/// for each of `oid`, `array_oid` that is given too); otherwise `type_schema`
/// is refused, and both `oid` and `array_oid` are required.
pub open spec fn spec_postgres_type(ts: Seq<Tok>) -> Result<(PostgresTypeV, Seq<WarningV>), AttrErrorV> {
    match spec_entries(ts, 0, OptionTable::PostgresType) {
        Err(e) => Err(e),
        Ok(es) => {
            let oid = last_lit_int(es, "oid"@);
            let array_oid = last_lit_int(es, "array_oid"@);
            let lookup_name = last_lit_str(es, "type_name"@);
            let type_schema = last_lit_str(es, "type_schema"@);
            if let Some(name) = lookup_name {
                let w1: Seq<WarningV> = if oid is Some {
                    seq![WarningV::UnexpectedOid]
                } else {
                    Seq::empty()
                };
                let w2: Seq<WarningV> = if array_oid is Some {
                    seq![WarningV::UnexpectedArrayOid]
                } else {
                    Seq::empty()
                };
                Ok((PostgresTypeV::Lookup(name, type_schema), w1 + w2))
            } else if type_schema is Some {
                Err(AttrErrorV::TypeNameRequired)
            } else if oid is Some && array_oid is Some {
                Ok((PostgresTypeV::Fixed(oid.unwrap(), array_oid.unwrap()), Seq::empty()))
            } else {
                Err(AttrErrorV::MissingOids)
            }
        },
    }
}

impl PostgresType {
    /// Reads `postgres_type` options: all of `ts`.
    pub fn parse(ts: &Vec<TokenTree>) -> (r: Result<(PostgresType, Vec<Warning>), AttrError>)
        ensures
            match r {
                Ok((p, ws)) => spec_postgres_type(toks(ts)) == Ok::<_, AttrErrorV>((p@, view_warnings(ws@))),
                Err(err) => spec_postgres_type(toks(ts)) == Err::<(PostgresTypeV, Seq<WarningV>), _>(err@),
            },
    {
        let es = match parse_entries(ts, 0, OptionTable::PostgresType) {
            Ok(es) => es,
            Err(e) => return Err(e),
        };
        let oid = last_lit_int_of(&es, "oid");
        let array_oid = last_lit_int_of(&es, "array_oid");
        let lookup_name = last_lit_str_of(&es, "type_name");
        let type_schema = last_lit_str_of(&es, "type_schema");
        if let Some(lookup_name) = lookup_name {
            let mut warnings: Vec<Warning> = Vec::new();
            if oid.is_some() {
                warnings.push(Warning::UnexpectedOid);
            }
            if array_oid.is_some() {
                warnings.push(Warning::UnexpectedArrayOid);
            }
            let ghost w1: Seq<WarningV> = if oid is Some {
                seq![WarningV::UnexpectedOid]
            } else {
                Seq::empty()
            };
            let ghost w2: Seq<WarningV> = if array_oid is Some {
                seq![WarningV::UnexpectedArrayOid]
            } else {
                Seq::empty()
            };
            assert(view_warnings(warnings@) == w1 + w2);
            Ok((PostgresType::Lookup(lookup_name, type_schema), warnings))
        } else if type_schema.is_some() {
            Err(AttrError::TypeNameRequired)
        } else {
            match (oid, array_oid) {
                (Some(o), Some(a)) => {
                    let warnings: Vec<Warning> = Vec::new();
                    assert(view_warnings(warnings@) == Seq::<WarningV>::empty());
                    Ok((PostgresType::Fixed(o, a), warnings))
                },
                _ => Err(AttrError::MissingOids),
            }
        }
    }
}

/// The options of `postgres_type(...)`, `mysql_type(...)`, `sqlite_type(...)`
/// and `changeset_options(...)` can be given in any order: swapping two
/// neighbouring options with different keys, wherever they stand in the
/// list and whatever follows it, reads the same result, or the same error.
pub proof fn lemma_option_order(
    pieces: Seq<Seq<Tok>>,
    ens: Seq<(Seq<char>, ValueV)>,
    i: int,
    comma: Tok,
    tail: Seq<Tok>,
    table: OptionTable,
)
    requires
        table.comma_separated(),
        tok_punct(comma, ','),
        pieces_read_as(pieces, ens, table),
        0 <= i,
        i + 1 < pieces.len(),
        ens[i].0 != ens[i + 1].0,
        tail.len() == 0 || tail[0] == comma,
    ensures
        table == OptionTable::PostgresType ==> spec_postgres_type(joined(pieces, comma) + tail)
            == spec_postgres_type(joined(swapped(pieces, i), comma) + tail),
        (table == OptionTable::MysqlType || table == OptionTable::SqliteType) ==> spec_named_type(
            joined(pieces, comma) + tail,
            table,
        ) == spec_named_type(joined(swapped(pieces, i), comma) + tail, table),
        table == OptionTable::ChangesetOptions ==> spec_changeset_options(joined(pieces, comma) + tail)
            == spec_changeset_options(joined(swapped(pieces, i), comma) + tail),
{
    lemma_entries_swap(pieces, ens, i, comma, tail, table);
    let a = spec_entries(joined(pieces, comma) + tail, 0, table);
    let b = spec_entries(joined(swapped(pieces, i), comma) + tail, 0, table);
    if let (Ok(x), Ok(y)) = (a, b) {
        assert(last_value(x, "oid"@) == last_value(y, "oid"@));
        assert(last_value(x, "array_oid"@) == last_value(y, "array_oid"@));
        assert(last_value(x, "type_name"@) == last_value(y, "type_name"@));
        assert(last_value(x, "type_schema"@) == last_value(y, "type_schema"@));
        assert(last_value(x, "name"@) == last_value(y, "name"@));
        assert(last_value(x, "treat_none_as_null"@) == last_value(y, "treat_none_as_null"@));
    }
}

/// What `postgres_type(...)` reads from options that read without error:
/// - with `type_name` given, a lookup by the name given last, in the schema
///   given last (none when no `type_schema` is given), with a warning for an
///   `oid` and one for an `array_oid` given beside it, in that order;
/// - without `type_name`, a `type_schema` is refused;
/// - with neither, the `oid` and `array_oid` given last, with no warning,
///   and when either is missing, an error saying both are needed.
pub proof fn lemma_postgres_type_options(ts: Seq<Tok>, es: Seq<(Seq<char>, ValueV)>)
    requires
        spec_entries(ts, 0, OptionTable::PostgresType) == Ok::<_, AttrErrorV>(es),
    ensures
        forall|name: Seq<char>| #[trigger] given_last(es, "type_name"@, ValueV::LitStr(name)) ==> (
        spec_postgres_type(ts) matches Ok((PostgresTypeV::Lookup(n, _), _)) && n == name),
        key_given(es, "type_name"@) && !key_given(es, "type_schema"@) ==> (
        spec_postgres_type(ts) matches Ok((PostgresTypeV::Lookup(_, s), _)) && s is None),
        forall|name: Seq<char>, schema: Seq<char>|
            #![trigger given_last(es, "type_name"@, ValueV::LitStr(name)), given_last(es, "type_schema"@, ValueV::LitStr(schema))]
            given_last(es, "type_name"@, ValueV::LitStr(name)) && given_last(es, "type_schema"@, ValueV::LitStr(schema))
                ==> (spec_postgres_type(ts) matches Ok((PostgresTypeV::Lookup(_, s), _)) && s == Some(schema)),
        forall|name: Seq<char>| #[trigger] given_last(es, "type_name"@, ValueV::LitStr(name)) ==> (
        spec_postgres_type(ts) matches Ok((_, ws)) && ws.len() == (if key_given(es, "oid"@) { 1int } else { 0 })
            + (if key_given(es, "array_oid"@) { 1int } else { 0 }) && (key_given(es, "oid"@) ==> ws[0]
            == WarningV::UnexpectedOid) && (key_given(es, "array_oid"@) ==> ws.last() == WarningV::UnexpectedArrayOid)),
        !key_given(es, "type_name"@) && key_given(es, "type_schema"@) ==> spec_postgres_type(ts) == Err::<
            (PostgresTypeV, Seq<WarningV>),
            _,
        >(AttrErrorV::TypeNameRequired),
        forall|o: Seq<char>, a: Seq<char>|
            #![trigger given_last(es, "oid"@, ValueV::LitInt(o)), given_last(es, "array_oid"@, ValueV::LitInt(a))]
            !key_given(es, "type_name"@) && !key_given(es, "type_schema"@) && given_last(es, "oid"@, ValueV::LitInt(o))
                && given_last(es, "array_oid"@, ValueV::LitInt(a)) ==> spec_postgres_type(ts) == Ok::<_, AttrErrorV>(
                (PostgresTypeV::Fixed(o, a), Seq::<WarningV>::empty()),
            ),
        !key_given(es, "type_name"@) && !key_given(es, "type_schema"@) && (!key_given(es, "oid"@) || !key_given(
            es,
            "array_oid"@,
        )) ==> spec_postgres_type(ts) == Err::<(PostgresTypeV, Seq<WarningV>), _>(AttrErrorV::MissingOids),
{
    reveal_strlit("oid");
    reveal_strlit("array_oid");
    reveal_strlit("type_name");
    reveal_strlit("type_schema");
    assert("oid"@.len() == 3);
    assert("array_oid"@.len() == 9);
    assert("type_name"@.len() == 9);
    assert("type_schema"@.len() == 11);
    assert("array_oid"@[0] != "type_name"@[0]);
    lemma_entries_of_table(ts, 0, OptionTable::PostgresType);
    lemma_last_value_given(es, "type_name"@);
    lemma_last_value_given(es, "type_schema"@);
    lemma_last_value_given(es, "oid"@);
    lemma_last_value_given(es, "array_oid"@);
    lemma_given_has_last(es, "type_name"@, OptionTable::PostgresType);
    lemma_given_has_last(es, "type_schema"@, OptionTable::PostgresType);
    lemma_given_has_last(es, "oid"@, OptionTable::PostgresType);
    lemma_given_has_last(es, "array_oid"@, OptionTable::PostgresType);
}

/// What `changeset_options(...)` reads from options that read without
/// error: the boolean given last for `treat_none_as_null`, or nothing when it
/// is not given.
pub proof fn lemma_changeset_options_given(ts: Seq<Tok>, es: Seq<(Seq<char>, ValueV)>)
    requires
        spec_entries(ts, 0, OptionTable::ChangesetOptions) == Ok::<_, AttrErrorV>(es),
    ensures
        forall|b: bool| #[trigger] given_last(es, "treat_none_as_null"@, ValueV::LitBool(b)) ==> spec_changeset_options(ts)
            == Ok::<_, AttrErrorV>(Some(b)),
        !key_given(es, "treat_none_as_null"@) ==> spec_changeset_options(ts) == Ok::<_, AttrErrorV>(None::<bool>),
{
    lemma_last_value_given(es, "treat_none_as_null"@);
}

/// `changeset_options(treat_none_as_null = b)`, with `b` written `true` or
/// `false`, reads the boolean written.
pub proof fn lemma_changeset_options_literal(eq: Tok, word: Seq<char>)
    requires
        syn_accepts_ident("treat_none_as_null"@),
        tok_punct(eq, '='),
        word == "true"@ || word == "false"@,
    ensures
        spec_changeset_options(seq![Tok::Ident("treat_none_as_null"@), eq, Tok::Ident(word)]) == Ok::<_, AttrErrorV>(
            Some(word == "true"@),
        ),
{
    reveal_strlit("true");
    reveal_strlit("false");
    assert("true"@ != "false"@) by {
        assert("true"@.len() != "false"@.len());
    }
    let ts = seq![Tok::Ident("treat_none_as_null"@), eq, Tok::Ident(word)];
    let en = ("treat_none_as_null"@, ValueV::LitBool(word == "true"@));
    assert(spec_entry(ts, 0, OptionTable::ChangesetOptions) == Ok::<_, AttrErrorV>((en, 3int)));
    assert(spec_entries(ts, 0, OptionTable::ChangesetOptions) == Ok::<_, AttrErrorV>(seq![en]));
    assert(seq![en].drop_last().len() == 0);
}

/// What `mysql_type(...)` and `sqlite_type(...)` read from options that read
/// without error: the `name` given last, or an error saying `name` is needed
/// when none is given.
pub proof fn lemma_named_type_options(ts: Seq<Tok>, table: OptionTable, es: Seq<(Seq<char>, ValueV)>)
    requires
        table == OptionTable::MysqlType || table == OptionTable::SqliteType,
        spec_entries(ts, 0, table) == Ok::<_, AttrErrorV>(es),
    ensures
        forall|n: Seq<char>| #[trigger] given_last(es, "name"@, ValueV::LitStr(n)) ==> spec_named_type(ts, table)
            == Ok::<_, AttrErrorV>(n),
        !key_given(es, "name"@) ==> spec_named_type(ts, table) == Err::<Seq<char>, _>(AttrErrorV::MissingName),
{
    lemma_last_value_given(es, "name"@);
}

/// What `belongs_to(...)` reads: the parent type at the start; after it and a
/// comma, the `foreign_key` given last among the options that follow (none
/// when it is not given), with everything read; without a comma, no foreign
/// key, and what follows the parent is left unread.
pub proof fn lemma_belongs_to_options(ts: Seq<Tok>, parent: Seq<char>, p1: int)
    requires
        spec_type_path(ts, 0) == Ok::<_, AttrErrorV>((parent, p1)),
    ensures
        !at_punct(ts, p1, ',') ==> spec_belongs_to(ts) == Ok::<_, AttrErrorV>(((parent, None::<Seq<char>>), p1)),
        at_punct(ts, p1, ',') ==> match spec_entries(ts, p1 + 1, OptionTable::BelongsTo) {
            Ok(es) => {
                &&& forall|k: Seq<char>| #[trigger] given_last(es, "foreign_key"@, ValueV::Ident(k))
                    ==> spec_belongs_to(ts) == Ok::<_, AttrErrorV>(((parent, Some(k)), ts.len() as int))
                &&& !key_given(es, "foreign_key"@) ==> spec_belongs_to(ts) == Ok::<_, AttrErrorV>(
                    ((parent, None::<Seq<char>>), ts.len() as int),
                )
            },
            Err(x) => spec_belongs_to(ts) == Err::<((Seq<char>, Option<Seq<char>>), int), _>(x),
        },
{
    if let Ok(es) = spec_entries(ts, p1 + 1, OptionTable::BelongsTo) {
        lemma_last_value_given(es, "foreign_key"@);
    }
}

} // verus!
