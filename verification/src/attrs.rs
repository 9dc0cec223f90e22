//! Field and struct attributes: `#[diesel(...)]` lists and the deprecated
//! one-option forms such as `#[table_name = ...]`.

use vstd::prelude::*;
use crate::tokens::{clone_trees, toks, view_tree, view_trees, Delimiter, Tok, TokenTree};
use crate::syntax::{
    at_group, at_punct, group_body, parse_ident, parse_path, parse_type, peek_group, peek_punct,
    spec_ident, spec_path, spec_type, spelled, spelled_text, syn_accepts_ident, text_is, tok_punct, view_warnings,
    AttrError, AttrErrorV,
    Ident, Path, Type, Warning, WarningV,
};
use crate::parsers::{
    spec_belongs_to, spec_changeset_options, spec_named_type, spec_postgres_type, BelongsTo,
    ChangesetOptions, MysqlType, PostgresType, PostgresTypeV, SqliteType,
};
use crate::options::OptionTable;
use crate::util::suggest_attribute;

verus! {

/// The values of a sequence of items.
pub open spec fn view_vals<T: View>(vs: Seq<T>) -> Seq<T::V> {
    vs.map_values(|x: T| x@)
}

/// The view of what reading one item gives: the item, the position after
/// it, the warnings emitted while reading it, and whether an option group
/// inside it was left partly unread.
pub open spec fn item_res<T: View>(r: Result<(T, usize, Vec<Warning>, bool), AttrError>) -> Result<(T::V, int, Seq<WarningV>, bool), AttrErrorV> {
    match r {
        Ok((v, e, ws, stray)) => Ok((v@, e as int, view_warnings(ws@), stray)),
        Err(err) => Err(err@),
    }
}

/// Something that can be read from the start of a token stream.
pub trait Parse: Sized + View {
    /// What reading one item at `pos` gives.
    spec fn spec_item(ts: Seq<Tok>, pos: int) -> Result<(Self::V, int, Seq<WarningV>, bool), AttrErrorV>;

    /// An item that is read takes at least one token.
    proof fn lemma_item_bounds(ts: Seq<Tok>, pos: int)
        requires
            0 <= pos <= ts.len(),
        ensures
            Self::spec_item(ts, pos) matches Ok((_, e, _, _)) ==> pos < e <= ts.len(),
    ;

    /// Reads one item at `pos`.
    fn parse_item(ts: &Vec<TokenTree>, pos: usize) -> (r: Result<(Self, usize, Vec<Warning>, bool), AttrError>)
        requires
            pos <= ts@.len(),
        ensures
            item_res::<Self>(r) == Self::spec_item(toks(ts), pos as int),
    ;
}

impl Parse for Ident {
    open spec fn spec_item(ts: Seq<Tok>, pos: int) -> Result<(Seq<char>, int, Seq<WarningV>, bool), AttrErrorV> {
        match spec_ident(ts, pos) {
            Ok((s, e)) => Ok((s, e, Seq::empty(), false)),
            Err(x) => Err(x),
        }
    }

    proof fn lemma_item_bounds(ts: Seq<Tok>, pos: int) {
    }

    fn parse_item(ts: &Vec<TokenTree>, pos: usize) -> (r: Result<(Ident, usize, Vec<Warning>, bool), AttrError>) {
        match parse_ident(ts, pos) {
            Ok((x, e)) => {
                let ws: Vec<Warning> = Vec::new();
                assert(view_warnings(ws@) == Seq::<WarningV>::empty());
                Ok((x, e, ws, false))
            },
            Err(x) => Err(x),
        }
    }
}

/// Puts the items read so far in front of what reading the rest gives.
pub open spec fn join_items<V>(
    vs: Seq<V>,
    ws: Seq<WarningV>,
    stray: bool,
    rest: (Result<(Seq<V>, bool), AttrErrorV>, Seq<WarningV>),
) -> (Result<(Seq<V>, bool), AttrErrorV>, Seq<WarningV>) {
    (
        match rest.0 {
            Ok((vs2, s2)) => Ok((vs + vs2, stray || s2)),
            Err(e) => Err(e),
        },
        ws + rest.1,
    )
}

/// Items separated by commas, with a comma allowed at the end, up to the end
/// of the stream (as `syn::punctuated::Punctuated::parse_terminated` reads
/// them). The warnings of the items read before an error come with it.
pub open spec fn spec_terminated<T: Parse>(ts: Seq<Tok>, pos: int) -> (Result<(Seq<T::V>, bool), AttrErrorV>, Seq<WarningV>)
    decreases ts.len() - pos,
{
    if pos < 0 || pos >= ts.len() {
        (Ok((Seq::empty(), false)), Seq::empty())
    } else {
        match T::spec_item(ts, pos) {
            Err(e) => (Err(e), Seq::empty()),
            Ok((v, e, ws, stray)) => {
                proof {
                    T::lemma_item_bounds(ts, pos);
                }
                if e >= ts.len() {
                    (Ok((seq![v], stray)), ws)
                } else if at_punct(ts, e, ',') {
                    join_items(seq![v], ws, stray, spec_terminated::<T>(ts, e + 1))
                } else {
                    (Err(AttrErrorV::ExpectedComma), ws)
                }
            },
        }
    }
}

pub open spec fn terminated_res<T: View>(r: (Result<(Vec<T>, bool), AttrError>, Vec<Warning>)) -> (Result<(Seq<T::V>, bool), AttrErrorV>, Seq<WarningV>) {
    (
        match r.0 {
            Ok((vs, s)) => Ok((view_vals(vs@), s)),
            Err(e) => Err(e@),
        },
        view_warnings(r.1@),
    )
}

proof fn lemma_view_warnings_append(a: Seq<Warning>, b: Seq<Warning>)
    ensures
        view_warnings(a + b) == view_warnings(a) + view_warnings(b),
{
    assert(view_warnings(a + b) =~= view_warnings(a) + view_warnings(b));
}

/// Reads items separated by commas from `start` to the end of the stream.
pub fn parse_terminated<T: Parse>(ts: &Vec<TokenTree>, start: usize) -> (r: (Result<(Vec<T>, bool), AttrError>, Vec<Warning>))
    requires
        start <= ts@.len(),
    ensures
        terminated_res(r) == spec_terminated::<T>(toks(ts), start as int),
{
    let ghost t = toks(ts);
    let mut vals: Vec<T> = Vec::new();
    let mut warnings: Vec<Warning> = Vec::new();
    let mut stray = false;
    let mut pos = start;
    loop
        invariant
            t == toks(ts),
            start <= pos <= ts@.len(),
            spec_terminated::<T>(t, start as int) == join_items(
                view_vals(vals@),
                view_warnings(warnings@),
                stray,
                spec_terminated::<T>(t, pos as int),
            ),
        decreases ts@.len() - pos,
    {
        let ghost vs0 = view_vals(vals@);
        let ghost ws0 = view_warnings(warnings@);
        if pos >= ts.len() {
            assert(vs0 + Seq::<T::V>::empty() == vs0);
            assert(ws0 + Seq::<WarningV>::empty() == ws0);
            return (Ok((vals, stray)), warnings);
        }
        proof {
            T::lemma_item_bounds(t, pos as int);
        }
        match T::parse_item(ts, pos) {
            Err(e) => {
                assert(ws0 + Seq::<WarningV>::empty() == ws0);
                return (Err(e), warnings);
            },
            Ok((v, e, ws, s)) => {
                let ghost vv = v@;
                let ghost wsv = view_warnings(ws@);
                let ghost st0 = stray;
                let mut ws = ws;
                proof {
                    lemma_view_warnings_append(warnings@, ws@);
                }
                vals.push(v);
                warnings.append(&mut ws);
                stray = stray || s;
                assert(view_vals(vals@) == vs0.push(vv));
                assert(vs0.push(vv) == vs0 + seq![vv]);
                assert(view_warnings(warnings@) == ws0 + wsv);
                if e >= ts.len() {
                    return (Ok((vals, stray)), warnings);
                }
                if !peek_punct(ts, e, ',') {
                    return (Err(AttrError::ExpectedComma), warnings);
                }
                pos = e + 1;
                proof {
                    let rest = spec_terminated::<T>(t, pos as int);
                    assert(ws0 + (wsv + rest.1) == (ws0 + wsv) + rest.1);
                    match rest.0 {
                        Ok((vs2, s2)) => {
                            assert(vs0 + (seq![vv] + vs2) == (vs0 + seq![vv]) + vs2);
                        },
                        Err(_) => {},
                    }
                }
            },
        }
    }
}

/// The contents of the parenthesized group at `pos`, if there is one.
fn paren_body(ts: &Vec<TokenTree>, pos: usize) -> (r: Option<&Vec<TokenTree>>)
    ensures
        r is Some <==> at_group(toks(ts), pos as int, Delimiter::Parenthesis),
        r matches Some(b) ==> toks(b) == group_body(toks(ts), pos as int),
{
    if pos < ts.len() {
        match &ts[pos] {
            TokenTree::Group(d, inner) => if *d == Delimiter::Parenthesis {
                Some(inner)
            } else {
                None
            },
            _ => None,
        }
    } else {
        None
    }
}

/// An attribute of a struct field.
#[derive(Debug)]
pub enum FieldAttr {
    Embed(Ident),
    ColumnName(Ident, Ident),
    SqlType(Ident, Type),
    SerializeAs(Ident, Type),
    DeserializeAs(Ident, Type),
}

pub enum FieldAttrV {
    Embed(Seq<char>),
    ColumnName(Seq<char>, Seq<char>),
    SqlType(Seq<char>, Seq<char>),
    SerializeAs(Seq<char>, Seq<char>),
    DeserializeAs(Seq<char>, Seq<char>),
}

impl View for FieldAttr {
    type V = FieldAttrV;

    open spec fn view(&self) -> FieldAttrV {
        match self {
            FieldAttr::Embed(n) => FieldAttrV::Embed(n@),
            FieldAttr::ColumnName(n, c) => FieldAttrV::ColumnName(n@, c@),
            FieldAttr::SqlType(n, t) => FieldAttrV::SqlType(n@, t@),
            FieldAttr::SerializeAs(n, t) => FieldAttrV::SerializeAs(n@, t@),
            FieldAttr::DeserializeAs(n, t) => FieldAttrV::DeserializeAs(n@, t@),
        }
    }
}

/// A field attribute at `pos`: `embed`, `column_name = <ident>`, or one of
/// `sql_type`, `serialize_as`, `deserialize_as` followed by `= <type>`.
pub open spec fn spec_field_attr(ts: Seq<Tok>, pos: int) -> Result<(FieldAttrV, int), AttrErrorV> {
    match spec_ident(ts, pos) {
        Err(e) => Err(e),
        Ok((name, p1)) => if at_punct(ts, p1, '=') {
            if name == "column_name"@ {
                match spec_ident(ts, p1 + 1) {
                    Ok((c, e)) => Ok((FieldAttrV::ColumnName(name, c), e)),
                    Err(x) => Err(x),
                }
            } else if name == "sql_type"@ {
                match spec_type(ts, p1 + 1) {
                    Ok((t, e)) => Ok((FieldAttrV::SqlType(name, t), e)),
                    Err(x) => Err(x),
                }
            } else if name == "serialize_as"@ {
                match spec_type(ts, p1 + 1) {
                    Ok((t, e)) => Ok((FieldAttrV::SerializeAs(name, t), e)),
                    Err(x) => Err(x),
                }
            } else if name == "deserialize_as"@ {
                match spec_type(ts, p1 + 1) {
                    Ok((t, e)) => Ok((FieldAttrV::DeserializeAs(name, t), e)),
                    Err(x) => Err(x),
                }
            } else {
                Err(AttrErrorV::UnknownOption(name))
            }
        } else if name == "embed"@ {
            Ok((FieldAttrV::Embed(name), p1))
        } else {
            Err(AttrErrorV::UnknownOption(name))
        },
    }
}

impl Parse for FieldAttr {
    open spec fn spec_item(ts: Seq<Tok>, pos: int) -> Result<(FieldAttrV, int, Seq<WarningV>, bool), AttrErrorV> {
        match spec_field_attr(ts, pos) {
            Ok((v, e)) => Ok((v, e, Seq::empty(), false)),
            Err(x) => Err(x),
        }
    }

    proof fn lemma_item_bounds(ts: Seq<Tok>, pos: int) {
        if pos + 2 <= ts.len() {
            crate::syntax::lemma_value_run_bounds(crate::syntax::RunKind::Type, ts, pos + 2);
            crate::syntax::lemma_value_run_bounds(crate::syntax::RunKind::Path, ts, pos + 2);
        }
    }

    fn parse_item(ts: &Vec<TokenTree>, pos: usize) -> (r: Result<(FieldAttr, usize, Vec<Warning>, bool), AttrError>) {
        let ws: Vec<Warning> = Vec::new();
        assert(view_warnings(ws@) == Seq::<WarningV>::empty());
        let (name, p1) = match parse_ident(ts, pos) {
            Ok(x) => x,
            Err(e) => return Err(e),
        };
        if peek_punct(ts, p1, '=') {
            assert(p1 < ts.len());
            let p2 = p1 + 1;
            if text_is(&name.0, "column_name") {
                match parse_ident(ts, p2) {
                    Ok((c, e)) => Ok((FieldAttr::ColumnName(name, c), e, ws, false)),
                    Err(x) => Err(x),
                }
            } else if text_is(&name.0, "sql_type") {
                match parse_type(ts, p2) {
                    Ok((t, e)) => Ok((FieldAttr::SqlType(name, t), e, ws, false)),
                    Err(x) => Err(x),
                }
            } else if text_is(&name.0, "serialize_as") {
                match parse_type(ts, p2) {
                    Ok((t, e)) => Ok((FieldAttr::SerializeAs(name, t), e, ws, false)),
                    Err(x) => Err(x),
                }
            } else if text_is(&name.0, "deserialize_as") {
                match parse_type(ts, p2) {
                    Ok((t, e)) => Ok((FieldAttr::DeserializeAs(name, t), e, ws, false)),
                    Err(x) => Err(x),
                }
            } else {
                Err(suggest_attribute(&name))
            }
        } else if text_is(&name.0, "embed") {
            Ok((FieldAttr::Embed(name), p1, ws, false))
        } else {
            Err(suggest_attribute(&name))
        }
    }
}

/// An attribute of a struct.
#[derive(Debug)]
pub enum StructAttr {
    Aggregate(Ident),
    NotSized(Ident),
    ForeignDerive(Ident),
    TableName(Ident, Path),
    SqlType(Ident, Type),
    ChangesetOptions(Ident, ChangesetOptions),
    PrimaryKey(Ident, Vec<Ident>),
    BelongsTo(Ident, BelongsTo),
    MysqlType(Ident, MysqlType),
    SqliteType(Ident, SqliteType),
    PostgresType(Ident, PostgresType),
}

pub enum StructAttrV {
    Aggregate(Seq<char>),
    NotSized(Seq<char>),
    ForeignDerive(Seq<char>),
    TableName(Seq<char>, Seq<char>),
    SqlType(Seq<char>, Seq<char>),
    ChangesetOptions(Seq<char>, Option<bool>),
    PrimaryKey(Seq<char>, Seq<Seq<char>>),
    BelongsTo(Seq<char>, (Seq<char>, Option<Seq<char>>)),
    MysqlType(Seq<char>, Seq<char>),
    SqliteType(Seq<char>, Seq<char>),
    PostgresType(Seq<char>, PostgresTypeV),
}

impl View for StructAttr {
    type V = StructAttrV;

    open spec fn view(&self) -> StructAttrV {
        match self {
            StructAttr::Aggregate(n) => StructAttrV::Aggregate(n@),
            StructAttr::NotSized(n) => StructAttrV::NotSized(n@),
            StructAttr::ForeignDerive(n) => StructAttrV::ForeignDerive(n@),
            StructAttr::TableName(n, p) => StructAttrV::TableName(n@, p@),
            StructAttr::SqlType(n, t) => StructAttrV::SqlType(n@, t@),
            StructAttr::ChangesetOptions(n, c) => StructAttrV::ChangesetOptions(n@, c@),
            StructAttr::PrimaryKey(n, ks) => StructAttrV::PrimaryKey(n@, view_vals(ks@)),
            StructAttr::BelongsTo(n, b) => StructAttrV::BelongsTo(n@, b@),
            StructAttr::MysqlType(n, m) => StructAttrV::MysqlType(n@, m@),
            StructAttr::SqliteType(n, m) => StructAttrV::SqliteType(n@, m@),
            StructAttr::PostgresType(n, p) => StructAttrV::PostgresType(n@, p@),
        }
    }
}

/// A struct attribute at `pos`: `table_name = <path>` or `sql_type = <type>`;
/// one of `primary_key`, `changeset_options`, `belongs_to`, `mysql_type`,
/// `sqlite_type`, `postgres_type` followed by a parenthesized group; or one
/// of `aggregate`, `not_sized`, `foreign_derive` alone. Gives the attribute,
/// the position after it, its warnings, and whether the `belongs_to` group
/// was left partly unread.
pub open spec fn spec_struct_attr(ts: Seq<Tok>, pos: int) -> Result<(StructAttrV, int, Seq<WarningV>, bool), AttrErrorV> {
    match spec_ident(ts, pos) {
        Err(e) => Err(e),
        Ok((name, p1)) => if at_punct(ts, p1, '=') {
            if name == "table_name"@ {
                match spec_path(ts, p1 + 1) {
                    Ok((p, e)) => Ok((StructAttrV::TableName(name, p), e, Seq::empty(), false)),
                    Err(x) => Err(x),
                }
            } else if name == "sql_type"@ {
                match spec_type(ts, p1 + 1) {
                    Ok((t, e)) => Ok((StructAttrV::SqlType(name, t), e, Seq::empty(), false)),
                    Err(x) => Err(x),
                }
            } else {
                Err(AttrErrorV::UnknownOption(name))
            }
        } else if at_group(ts, p1, Delimiter::Parenthesis) {
            let body = group_body(ts, p1);
            let e = p1 + 1;
            if name == "primary_key"@ {
                match spec_terminated::<Ident>(body, 0).0 {
                    Ok((keys, _)) => Ok((StructAttrV::PrimaryKey(name, keys), e, Seq::empty(), false)),
                    Err(x) => Err(x),
                }
            } else if name == "changeset_options"@ {
                match spec_changeset_options(body) {
                    Ok(c) => Ok((StructAttrV::ChangesetOptions(name, c), e, Seq::empty(), false)),
                    Err(x) => Err(x),
                }
            } else if name == "belongs_to"@ {
                match spec_belongs_to(body) {
                    Ok((b, be)) => Ok((StructAttrV::BelongsTo(name, b), e, Seq::empty(), be < body.len())),
                    Err(x) => Err(x),
                }
            } else if name == "mysql_type"@ {
                match spec_named_type(body, OptionTable::MysqlType) {
                    Ok(m) => Ok((StructAttrV::MysqlType(name, m), e, Seq::empty(), false)),
                    Err(x) => Err(x),
                }
            } else if name == "sqlite_type"@ {
                match spec_named_type(body, OptionTable::SqliteType) {
                    Ok(m) => Ok((StructAttrV::SqliteType(name, m), e, Seq::empty(), false)),
                    Err(x) => Err(x),
                }
            } else if name == "postgres_type"@ {
                match spec_postgres_type(body) {
                    Ok((p, ws)) => Ok((StructAttrV::PostgresType(name, p), e, ws, false)),
                    Err(x) => Err(x),
                }
            } else {
                Err(AttrErrorV::UnknownOption(name))
            }
        } else if name == "aggregate"@ {
            Ok((StructAttrV::Aggregate(name), p1, Seq::empty(), false))
        } else if name == "not_sized"@ {
            Ok((StructAttrV::NotSized(name), p1, Seq::empty(), false))
        } else if name == "foreign_derive"@ {
            Ok((StructAttrV::ForeignDerive(name), p1, Seq::empty(), false))
        } else {
            Err(AttrErrorV::UnknownOption(name))
        },
    }
}

fn no_warnings() -> (ws: Vec<Warning>)
    ensures
        view_warnings(ws@) == Seq::<WarningV>::empty(),
{
    let ws: Vec<Warning> = Vec::new();
    assert(view_warnings(ws@) == Seq::<WarningV>::empty());
    ws
}

impl Parse for StructAttr {
    open spec fn spec_item(ts: Seq<Tok>, pos: int) -> Result<(StructAttrV, int, Seq<WarningV>, bool), AttrErrorV> {
        spec_struct_attr(ts, pos)
    }

    proof fn lemma_item_bounds(ts: Seq<Tok>, pos: int) {
        if pos + 2 <= ts.len() {
            crate::syntax::lemma_value_run_bounds(crate::syntax::RunKind::Type, ts, pos + 2);
            crate::syntax::lemma_value_run_bounds(crate::syntax::RunKind::Path, ts, pos + 2);
        }
    }

    fn parse_item(ts: &Vec<TokenTree>, pos: usize) -> (r: Result<(StructAttr, usize, Vec<Warning>, bool), AttrError>) {
        let (name, p1) = match parse_ident(ts, pos) {
            Ok(x) => x,
            Err(e) => return Err(e),
        };
        if peek_punct(ts, p1, '=') {
            assert(p1 < ts.len());
            let p2 = p1 + 1;
            if text_is(&name.0, "table_name") {
                match parse_path(ts, p2) {
                    Ok((p, e)) => Ok((StructAttr::TableName(name, p), e, no_warnings(), false)),
                    Err(x) => Err(x),
                }
            } else if text_is(&name.0, "sql_type") {
                match parse_type(ts, p2) {
                    Ok((t, e)) => Ok((StructAttr::SqlType(name, t), e, no_warnings(), false)),
                    Err(x) => Err(x),
                }
            } else {
                Err(suggest_attribute(&name))
            }
        } else if let Some(body) = paren_body(ts, p1) {
            assert(p1 < ts.len());
            let e = p1 + 1;
            if text_is(&name.0, "primary_key") {
                let (keys, _) = parse_terminated::<Ident>(body, 0);
                match keys {
                    Ok((keys, _)) => Ok((StructAttr::PrimaryKey(name, keys), e, no_warnings(), false)),
                    Err(x) => Err(x),
                }
            } else if text_is(&name.0, "changeset_options") {
                match ChangesetOptions::parse(body) {
                    Ok(c) => Ok((StructAttr::ChangesetOptions(name, c), e, no_warnings(), false)),
                    Err(x) => Err(x),
                }
            } else if text_is(&name.0, "belongs_to") {
                match BelongsTo::parse(body) {
                    Ok((b, be)) => {
                        let stray = be < body.len();
                        Ok((StructAttr::BelongsTo(name, b), e, no_warnings(), stray))
                    },
                    Err(x) => Err(x),
                }
            } else if text_is(&name.0, "mysql_type") {
                match MysqlType::parse(body) {
                    Ok(m) => Ok((StructAttr::MysqlType(name, m), e, no_warnings(), false)),
                    Err(x) => Err(x),
                }
            } else if text_is(&name.0, "sqlite_type") {
                match SqliteType::parse(body) {
                    Ok(m) => Ok((StructAttr::SqliteType(name, m), e, no_warnings(), false)),
                    Err(x) => Err(x),
                }
            } else if text_is(&name.0, "postgres_type") {
                match PostgresType::parse(body) {
                    Ok((p, ws)) => Ok((StructAttr::PostgresType(name, p), e, ws, false)),
                    Err(x) => Err(x),
                }
            } else {
                Err(suggest_attribute(&name))
            }
        } else if text_is(&name.0, "aggregate") {
            Ok((StructAttr::Aggregate(name), p1, no_warnings(), false))
        } else if text_is(&name.0, "not_sized") {
            Ok((StructAttr::NotSized(name), p1, no_warnings(), false))
        } else if text_is(&name.0, "foreign_derive") {
            Ok((StructAttr::ForeignDerive(name), p1, no_warnings(), false))
        } else {
            Err(suggest_attribute(&name))
        }
    }
}

/// An attribute as the derive logic reads it: the identifier that its path
/// consists of (when the path is a single identifier without arguments or a
/// leading `::`), and the tokens that follow the path.
#[derive(Debug)]
pub struct Attribute {
    pub path_ident: Option<String>,
    pub tokens: Vec<TokenTree>,
}

impl View for Attribute {
    type V = (Option<Seq<char>>, Seq<Tok>);

    open spec fn view(&self) -> (Option<Seq<char>>, Seq<Tok>) {
        (
            match self.path_ident {
                Some(s) => Some(s@),
                None => None,
            },
            toks(&self.tokens),
        )
    }
}

/// The view of a list of items read from attributes, with the warnings
/// emitted on the way.
pub open spec fn list_res<T: View>(r: (Result<Vec<T>, AttrError>, Vec<Warning>)) -> (Result<Seq<T::V>, AttrErrorV>, Seq<WarningV>) {
    (
        match r.0 {
            Ok(vs) => Ok(view_vals(vs@)),
            Err(e) => Err(e@),
        },
        view_warnings(r.1@),
    )
}

/// The arguments of `#[diesel(...)]`: exactly one delimited group after the
/// path, holding items separated by commas. A group inside an item that was
/// left partly unread makes the whole list fail.
pub open spec fn spec_args<T: Parse>(ts: Seq<Tok>) -> (Result<Seq<T::V>, AttrErrorV>, Seq<WarningV>) {
    if ts.len() == 0 {
        (Err(AttrErrorV::ExpectedArguments), Seq::empty())
    } else if tok_punct(ts[0], '=') {
        (Err(AttrErrorV::ExpectedParentheses), Seq::empty())
    } else {
        match ts[0] {
            Tok::Group(_, body) => if ts.len() > 1 {
                (Err(AttrErrorV::UnexpectedArgumentToken), Seq::empty())
            } else {
                let (r, ws) = spec_terminated::<T>(body, 0);
                (
                    match r {
                        Ok((vs, stray)) => if stray {
                            Err(AttrErrorV::UnexpectedToken)
                        } else {
                            Ok(vs)
                        },
                        Err(e) => Err(e),
                    },
                    ws,
                )
            },
            _ => (Err(AttrErrorV::UnexpectedArgumentToken), Seq::empty()),
        }
    }
}

fn parse_args<T: Parse>(ts: &Vec<TokenTree>) -> (r: (Result<Vec<T>, AttrError>, Vec<Warning>))
    ensures
        list_res(r) == spec_args::<T>(toks(ts)),
{
    if ts.len() == 0 {
        return (Err(AttrError::ExpectedArguments), no_warnings());
    }
    if peek_punct(ts, 0, '=') {
        return (Err(AttrError::ExpectedParentheses), no_warnings());
    }
    match &ts[0] {
        TokenTree::Group(_, body) => {
            if ts.len() > 1 {
                return (Err(AttrError::UnexpectedArgumentToken), no_warnings());
            }
            let (r, ws) = parse_terminated::<T>(body, 0);
            match r {
                Ok((vs, stray)) => if stray {
                    (Err(AttrError::UnexpectedToken), ws)
                } else {
                    (Ok(vs), ws)
                },
                Err(e) => (Err(e), ws),
            }
        },
        _ => (Err(AttrError::UnexpectedArgumentToken), no_warnings()),
    }
}

/// The option names that may still be written in the old `#[name ...]` form.
pub open spec fn deprecated_form(name: Seq<char>) -> bool {
    name == "table_name"@ || name == "primary_key"@ || name == "column_name"@ || name
        == "sql_type"@ || name == "changeset_options"@
}

fn is_deprecated_form(name: &String) -> (r: bool)
    ensures
        r == deprecated_form(name@),
{
    text_is(name, "table_name") || text_is(name, "primary_key") || text_is(name, "column_name")
        || text_is(name, "sql_type") || text_is(name, "changeset_options")
}

/// The tokens after the name in an old-form attribute, with a value that is
/// spelled in a string literal (`#[table_name = "users"]`) replaced by the
/// text it spells, read as the words of that text.
pub open spec fn old_form_value(ts: Seq<Tok>) -> Seq<Tok> {
    if ts.len() == 2 && tok_punct(ts[0], '=') {
        match spelled_text(ts[1]) {
            Some(v) => seq![ts[0], Tok::Ident(v)],
            None => ts,
        }
    } else {
        ts
    }
}

/// An attribute in the old form: for the listed names, a deprecation warning,
/// then one item read from the path's identifier followed by the attribute's
/// tokens (a value in a string literal read as the text it spells), which it
/// must use up. Other attributes give nothing.
pub open spec fn spec_old_attribute<T: Parse>(name: Option<Seq<char>>, ts: Seq<Tok>) -> (Result<Seq<T::V>, AttrErrorV>, Seq<WarningV>) {
    match name {
        Some(id) => if deprecated_form(id) {
            let whole = seq![Tok::Ident(id)] + old_form_value(ts);
            let w = seq![WarningV::DeprecatedForm(id)];
            match T::spec_item(whole, 0) {
                Err(e) => (Err(e), w),
                Ok((v, e, ws, stray)) => (
                    if stray || e < whole.len() {
                        Err(AttrErrorV::UnexpectedToken)
                    } else {
                        Ok(seq![v])
                    },
                    w + ws,
                ),
            }
        } else {
            (Ok(Seq::empty()), Seq::empty())
        },
        None => (Ok(Seq::empty()), Seq::empty()),
    }
}

fn nothing<T>() -> (r: Vec<T>)
    ensures
        r@ == Seq::<T>::empty(),
{
    Vec::new()
}

/// A copy of the tokens after the name in an old-form attribute, with a value
/// spelled in a string literal replaced by the text it spells.
fn spell_old_form_value(ts: &Vec<TokenTree>) -> (r: Vec<TokenTree>)
    ensures
        toks(&r) == old_form_value(toks(ts)),
{
    let mut rest = clone_trees(ts);
    if rest.len() == 2 && peek_punct(&rest, 0, '=') {
        match spelled(&rest[1]) {
            Some(v) => {
                let ghost first = rest@[0];
                rest.set(1, TokenTree::Ident(v));
                assert(toks(&rest) =~= seq![view_tree(first), Tok::Ident(v@)]);
            },
            None => {},
        }
    }
    rest
}

/// Reads an attribute written in the old form, such as `#[table_name = users]`.
pub fn parse_old_attribute<T: Parse>(attr: &Attribute) -> (r: (Result<Vec<T>, AttrError>, Vec<Warning>))
    ensures
        list_res(r) == spec_old_attribute::<T>(attr@.0, attr@.1),
{
    match &attr.path_ident {
        Some(id) => {
            if is_deprecated_form(id) {
                let mut whole: Vec<TokenTree> = Vec::new();
                whole.push(TokenTree::Ident(id.clone()));
                let mut rest = spell_old_form_value(&attr.tokens);
                let ghost rest_v = rest@;
                let ghost value = old_form_value(toks(&attr.tokens));
                assert(view_trees(rest_v) == value);
                whole.append(&mut rest);
                assert(toks(&whole) =~= seq![Tok::Ident(id@)] + value) by {
                    assert forall|k: int| 0 <= k < value.len() implies toks(&whole)[k + 1] == value[k] by {
                        assert(whole@[k + 1] == rest_v[k]);
                        assert(view_trees(rest_v)[k] == value[k]);
                    }
                }
                let mut warnings: Vec<Warning> = Vec::new();
                warnings.push(Warning::DeprecatedForm(id.clone()));
                assert(view_warnings(warnings@) == seq![WarningV::DeprecatedForm(id@)]);
                match T::parse_item(&whole, 0) {
                    Err(e) => (Err(e), warnings),
                    Ok((v, e, ws, stray)) => {
                        let mut ws = ws;
                        proof {
                            lemma_view_warnings_append(warnings@, ws@);
                        }
                        warnings.append(&mut ws);
                        if stray || e < whole.len() {
                            (Err(AttrError::UnexpectedToken), warnings)
                        } else {
                            let mut out: Vec<T> = Vec::new();
                            out.push(v);
                            assert(view_vals(out@) == seq![v@]);
                            (Ok(out), warnings)
                        }
                    },
                }
            } else {
                let out: Vec<T> = nothing();
                assert(view_vals(out@) == Seq::<T::V>::empty());
                (Ok(out), no_warnings())
            }
        },
        None => {
            let out: Vec<T> = nothing();
            assert(view_vals(out@) == Seq::<T::V>::empty());
            (Ok(out), no_warnings())
        },
    }
}

/// One attribute: `#[diesel(...)]` lists, or the old form.
pub open spec fn spec_attribute<T: Parse>(a: (Option<Seq<char>>, Seq<Tok>)) -> (Result<Seq<T::V>, AttrErrorV>, Seq<WarningV>) {
    if a.0 == Some("diesel"@) {
        spec_args::<T>(a.1)
    } else {
        spec_old_attribute::<T>(a.0, a.1)
    }
}

fn parse_attribute<T: Parse>(attr: &Attribute) -> (r: (Result<Vec<T>, AttrError>, Vec<Warning>))
    ensures
        list_res(r) == spec_attribute::<T>(attr@),
{
    let is_diesel = match &attr.path_ident {
        Some(id) => text_is(id, "diesel"),
        None => false,
    };
    if is_diesel {
        parse_args::<T>(&attr.tokens)
    } else {
        parse_old_attribute::<T>(attr)
    }
}

/// All the items of a list of attributes, in order; the first error stops
/// the reading, and comes with the warnings emitted before it.
pub open spec fn spec_attributes<T: Parse>(attrs: Seq<(Option<Seq<char>>, Seq<Tok>)>) -> (Result<Seq<T::V>, AttrErrorV>, Seq<WarningV>)
    decreases attrs.len(),
{
    if attrs.len() == 0 {
        (Ok(Seq::empty()), Seq::empty())
    } else {
        let (r1, w1) = spec_attribute::<T>(attrs[0]);
        match r1 {
            Err(e) => (Err(e), w1),
            Ok(v1) => {
                let (r2, w2) = spec_attributes::<T>(attrs.drop_first());
                (
                    match r2 {
                        Ok(vs) => Ok(v1 + vs),
                        Err(e) => Err(e),
                    },
                    w1 + w2,
                )
            },
        }
    }
}

pub open spec fn join_list<V>(
    vs: Seq<V>,
    ws: Seq<WarningV>,
    rest: (Result<Seq<V>, AttrErrorV>, Seq<WarningV>),
) -> (Result<Seq<V>, AttrErrorV>, Seq<WarningV>) {
    (
        match rest.0 {
            Ok(v2) => Ok(vs + v2),
            Err(e) => Err(e),
        },
        ws + rest.1,
    )
}

proof fn lemma_view_vals_append<T: View>(a: Seq<T>, b: Seq<T>)
    ensures
        view_vals(a + b) == view_vals(a) + view_vals(b),
{
    assert(view_vals(a + b) =~= view_vals(a) + view_vals(b));
}

/// Reads the items of all `attrs`, as the derive macros do for the
/// attributes of a struct or of a field.
pub fn parse_attributes<T: Parse>(attrs: &[Attribute]) -> (r: (Result<Vec<T>, AttrError>, Vec<Warning>))
    ensures
        list_res(r) == spec_attributes::<T>(view_vals(attrs@)),
{
    let ghost all = view_vals(attrs@);
    let mut out: Vec<T> = Vec::new();
    let mut warnings: Vec<Warning> = Vec::new();
    let mut i: usize = 0;
    assert(all.skip(0) == all);
    while i < attrs.len()
        invariant
            i <= attrs@.len(),
            all == view_vals(attrs@),
            spec_attributes::<T>(all) == join_list(
                view_vals(out@),
                view_warnings(warnings@),
                spec_attributes::<T>(all.skip(i as int)),
            ),
        decreases attrs@.len() - i,
    {
        let ghost vs0 = view_vals(out@);
        let ghost ws0 = view_warnings(warnings@);
        let ghost rest = all.skip(i as int);
        assert(rest[0] == attrs@[i as int]@);
        assert(rest.drop_first() == all.skip(i as int + 1));
        let (r, ws) = parse_attribute::<T>(&attrs[i]);
        let ghost w1 = view_warnings(ws@);
        let mut ws = ws;
        proof {
            lemma_view_warnings_append(warnings@, ws@);
        }
        warnings.append(&mut ws);
        match r {
            Err(e) => {
                return (Err(e), warnings);
            },
            Ok(vs) => {
                let ghost v1 = view_vals(vs@);
                let mut vs = vs;
                proof {
                    lemma_view_vals_append(out@, vs@);
                }
                out.append(&mut vs);
                proof {
                    let next = spec_attributes::<T>(all.skip(i as int + 1));
                    assert(ws0 + (w1 + next.1) == (ws0 + w1) + next.1);
                    match next.0 {
                        Ok(v2) => {
                            assert(vs0 + (v1 + v2) == (vs0 + v1) + v2);
                        },
                        Err(_) => {},
                    }
                }
            },
        }
        i = i + 1;
    }
    assert(all.skip(i as int) == Seq::<(Option<Seq<char>>, Seq<Tok>)>::empty());
    assert(view_vals(out@) + Seq::<T::V>::empty() == view_vals(out@));
    assert(view_warnings(warnings@) + Seq::<WarningV>::empty() == view_warnings(warnings@));
    (Ok(out), warnings)
}

/// An option written in the old form means what it means inside
/// `#[diesel(...)]`: where `#[name tokens]` reads an item, `#[diesel(name
/// tokens)]` reads the same item with the same warnings, less the
/// deprecation warning that the old form adds first. A value that the old
/// form spells in a string literal is written out in the `#[diesel(...)]` form.
pub proof fn lemma_old_form_reads_as_diesel_list<T: Parse>(name: Seq<char>, ts: Seq<Tok>, d: Delimiter)
    requires
        deprecated_form(name),
        spec_old_attribute::<T>(Some(name), ts).0 is Ok,
    ensures
        spec_attribute::<T>((Some("diesel"@), seq![Tok::Group(d, seq![Tok::Ident(name)] + old_form_value(ts))])) == (
            spec_old_attribute::<T>(Some(name), ts).0,
            spec_old_attribute::<T>(Some(name), ts).1.drop_first(),
        ),
        spec_old_attribute::<T>(Some(name), ts).1[0] == WarningV::DeprecatedForm(name),
{
    let whole = seq![Tok::Ident(name)] + old_form_value(ts);
    T::lemma_item_bounds(whole, 0);
    match T::spec_item(whole, 0) {
        Ok((v, e, ws, stray)) => {
            assert(e >= whole.len());
            assert((seq![WarningV::DeprecatedForm(name)] + ws).drop_first() == ws);
        },
        Err(_) => {},
    }
}

/// Reading the attributes `a` followed by `b` reads `a` first: when `a` is
/// read without error, its items and warnings come before those of `b`;
/// otherwise `b` is not read at all.
pub proof fn lemma_attributes_concat<T: Parse>(
    a: Seq<(Option<Seq<char>>, Seq<Tok>)>,
    b: Seq<(Option<Seq<char>>, Seq<Tok>)>,
)
    ensures
        spec_attributes::<T>(a + b) == match spec_attributes::<T>(a).0 {
            Ok(va) => join_list(va, spec_attributes::<T>(a).1, spec_attributes::<T>(b)),
            Err(_) => spec_attributes::<T>(a),
        },
    decreases a.len(),
{
    let rb = spec_attributes::<T>(b);
    if a.len() == 0 {
        assert(a + b == b);
        assert(Seq::<WarningV>::empty() + rb.1 == rb.1);
        match rb.0 {
            Ok(vb) => {
                assert(Seq::<T::V>::empty() + vb == vb);
            },
            Err(_) => {},
        }
    } else {
        assert((a + b)[0] == a[0]);
        assert((a + b).drop_first() == a.drop_first() + b);
        lemma_attributes_concat::<T>(a.drop_first(), b);
        let (r1, w1) = spec_attribute::<T>(a[0]);
        match r1 {
            Err(_) => {},
            Ok(v1) => {
                let rest = spec_attributes::<T>(a.drop_first());
                match rest.0 {
                    Err(_) => {},
                    Ok(v2) => {
                        assert(w1 + (rest.1 + rb.1) == (w1 + rest.1) + rb.1);
                        match rb.0 {
                            Ok(vb) => {
                                assert(v1 + (v2 + vb) == (v1 + v2) + vb);
                            },
                            Err(_) => {},
                        }
                    },
                }
            },
        }
    }
}

/// The option names of struct attributes are told apart by length or by a letter.
proof fn lemma_struct_option_names()
    ensures
        "table_name"@.len() == 10,
        "sql_type"@.len() == 8,
        "primary_key"@.len() == 11,
        "changeset_options"@.len() == 17,
        "belongs_to"@.len() == 10,
        "mysql_type"@.len() == 10,
        "sqlite_type"@.len() == 11,
        "postgres_type"@.len() == 13,
        "aggregate"@.len() == 9,
        "not_sized"@.len() == 9,
        "foreign_derive"@.len() == 14,
        "table_name"@[0] != "belongs_to"@[0],
        "table_name"@[0] != "mysql_type"@[0],
        "primary_key"@[0] != "sqlite_type"@[0],
        "belongs_to"@[0] != "mysql_type"@[0],
        "aggregate"@[0] != "not_sized"@[0],
{
    reveal_strlit("table_name");
    reveal_strlit("sql_type");
    reveal_strlit("primary_key");
    reveal_strlit("changeset_options");
    reveal_strlit("belongs_to");
    reveal_strlit("mysql_type");
    reveal_strlit("sqlite_type");
    reveal_strlit("postgres_type");
    reveal_strlit("aggregate");
    reveal_strlit("not_sized");
    reveal_strlit("foreign_derive");
}

/// The option names of field attributes are told apart by length or by a letter.
proof fn lemma_field_option_names()
    ensures
        "column_name"@.len() == 11,
        "sql_type"@.len() == 8,
        "serialize_as"@.len() == 12,
        "deserialize_as"@.len() == 14,
        "embed"@.len() == 5,
{
    reveal_strlit("column_name");
    reveal_strlit("sql_type");
    reveal_strlit("serialize_as");
    reveal_strlit("deserialize_as");
    reveal_strlit("embed");
}

/// A struct option written `key = ...` is read by what `key` names: after
/// `sql_type =` a type, giving `SqlType` with the type's text; after
/// `table_name =` a path, giving `TableName` with the path's text; either ends
/// where the value ends, with no warning. Any other name before `=` is
/// refused as an unknown option.
pub proof fn lemma_struct_assignment_option(ts: Seq<Tok>, pos: int, key: Seq<char>)
    requires
        0 <= pos,
        pos + 1 < ts.len(),
        ts[pos] == Tok::Ident(key),
        syn_accepts_ident(key),
        tok_punct(ts[pos + 1], '='),
    ensures
        key == "sql_type"@ ==> match spec_type(ts, pos + 2) {
            Ok((t, e)) => spec_struct_attr(ts, pos) == Ok::<_, AttrErrorV>(
                (StructAttrV::SqlType(key, t), e, Seq::<WarningV>::empty(), false),
            ),
            Err(x) => spec_struct_attr(ts, pos) == Err::<(StructAttrV, int, Seq<WarningV>, bool), _>(x),
        },
        key == "table_name"@ ==> match spec_path(ts, pos + 2) {
            Ok((p, e)) => spec_struct_attr(ts, pos) == Ok::<_, AttrErrorV>(
                (StructAttrV::TableName(key, p), e, Seq::<WarningV>::empty(), false),
            ),
            Err(x) => spec_struct_attr(ts, pos) == Err::<(StructAttrV, int, Seq<WarningV>, bool), _>(x),
        },
        key != "sql_type"@ && key != "table_name"@ ==> spec_struct_attr(ts, pos) == Err::<
            (StructAttrV, int, Seq<WarningV>, bool),
            _,
        >(AttrErrorV::UnknownOption(key)),
{
    lemma_struct_option_names();
}

/// A struct option written `key(...)` is read by what `key` names, from the
/// tokens inside the parentheses, and ends after the group: `primary_key`
/// gives the identifiers listed, `changeset_options`, `belongs_to`,
/// `mysql_type`, `sqlite_type` and `postgres_type` give what their option
/// groups read (the warnings too, for `postgres_type`). Any other name before
/// a group is refused as an unknown option.
pub proof fn lemma_struct_group_option(ts: Seq<Tok>, pos: int, key: Seq<char>, body: Seq<Tok>)
    requires
        0 <= pos,
        pos + 1 < ts.len(),
        ts[pos] == Tok::Ident(key),
        syn_accepts_ident(key),
        ts[pos + 1] == Tok::Group(Delimiter::Parenthesis, body),
    ensures
        key == "primary_key"@ ==> match spec_terminated::<Ident>(body, 0).0 {
            Ok((keys, _)) => spec_struct_attr(ts, pos) == Ok::<_, AttrErrorV>(
                (StructAttrV::PrimaryKey(key, keys), pos + 2, Seq::<WarningV>::empty(), false),
            ),
            Err(x) => spec_struct_attr(ts, pos) == Err::<(StructAttrV, int, Seq<WarningV>, bool), _>(x),
        },
        key == "changeset_options"@ ==> match spec_changeset_options(body) {
            Ok(c) => spec_struct_attr(ts, pos) == Ok::<_, AttrErrorV>(
                (StructAttrV::ChangesetOptions(key, c), pos + 2, Seq::<WarningV>::empty(), false),
            ),
            Err(x) => spec_struct_attr(ts, pos) == Err::<(StructAttrV, int, Seq<WarningV>, bool), _>(x),
        },
        key == "belongs_to"@ ==> match spec_belongs_to(body) {
            Ok((b, be)) => spec_struct_attr(ts, pos) == Ok::<_, AttrErrorV>(
                (StructAttrV::BelongsTo(key, b), pos + 2, Seq::<WarningV>::empty(), be < body.len()),
            ),
            Err(x) => spec_struct_attr(ts, pos) == Err::<(StructAttrV, int, Seq<WarningV>, bool), _>(x),
        },
        key == "mysql_type"@ ==> match spec_named_type(body, OptionTable::MysqlType) {
            Ok(m) => spec_struct_attr(ts, pos) == Ok::<_, AttrErrorV>(
                (StructAttrV::MysqlType(key, m), pos + 2, Seq::<WarningV>::empty(), false),
            ),
            Err(x) => spec_struct_attr(ts, pos) == Err::<(StructAttrV, int, Seq<WarningV>, bool), _>(x),
        },
        key == "sqlite_type"@ ==> match spec_named_type(body, OptionTable::SqliteType) {
            Ok(m) => spec_struct_attr(ts, pos) == Ok::<_, AttrErrorV>(
                (StructAttrV::SqliteType(key, m), pos + 2, Seq::<WarningV>::empty(), false),
            ),
            Err(x) => spec_struct_attr(ts, pos) == Err::<(StructAttrV, int, Seq<WarningV>, bool), _>(x),
        },
        key == "postgres_type"@ ==> match spec_postgres_type(body) {
            Ok((p, ws)) => spec_struct_attr(ts, pos) == Ok::<_, AttrErrorV>(
                (StructAttrV::PostgresType(key, p), pos + 2, ws, false),
            ),
            Err(x) => spec_struct_attr(ts, pos) == Err::<(StructAttrV, int, Seq<WarningV>, bool), _>(x),
        },
        key != "primary_key"@ && key != "changeset_options"@ && key != "belongs_to"@ && key != "mysql_type"@
            && key != "sqlite_type"@ && key != "postgres_type"@ ==> spec_struct_attr(ts, pos) == Err::<
            (StructAttrV, int, Seq<WarningV>, bool),
            _,
        >(AttrErrorV::UnknownOption(key)),
{
    lemma_struct_option_names();
}

/// A struct option written as a bare name (followed by nothing, or by
/// neither `=` nor a parenthesized group) is a flag: `aggregate`, `not_sized`
/// and `foreign_derive` give the flag of that name and take one token; any
/// other bare name is refused as an unknown option.
pub proof fn lemma_struct_flag_option(ts: Seq<Tok>, pos: int, key: Seq<char>)
    requires
        0 <= pos < ts.len(),
        ts[pos] == Tok::Ident(key),
        syn_accepts_ident(key),
        !at_punct(ts, pos + 1, '='),
        !at_group(ts, pos + 1, Delimiter::Parenthesis),
    ensures
        key == "aggregate"@ ==> spec_struct_attr(ts, pos) == Ok::<_, AttrErrorV>(
            (StructAttrV::Aggregate(key), pos + 1, Seq::<WarningV>::empty(), false),
        ),
        key == "not_sized"@ ==> spec_struct_attr(ts, pos) == Ok::<_, AttrErrorV>(
            (StructAttrV::NotSized(key), pos + 1, Seq::<WarningV>::empty(), false),
        ),
        key == "foreign_derive"@ ==> spec_struct_attr(ts, pos) == Ok::<_, AttrErrorV>(
            (StructAttrV::ForeignDerive(key), pos + 1, Seq::<WarningV>::empty(), false),
        ),
        key != "aggregate"@ && key != "not_sized"@ && key != "foreign_derive"@ ==> spec_struct_attr(ts, pos)
            == Err::<(StructAttrV, int, Seq<WarningV>, bool), _>(AttrErrorV::UnknownOption(key)),
{
    lemma_struct_option_names();
}

/// `#[diesel(sql_type = T)]` on a struct, where the tokens of `T` read whole
/// as a type, gives exactly one attribute, `SqlType` with the type's text,
/// and no warning.
pub proof fn lemma_struct_sql_type_attribute(t: Seq<Tok>, eq: Tok, ty: Seq<char>)
    requires
        syn_accepts_ident("sql_type"@),
        tok_punct(eq, '='),
        spec_type(seq![Tok::Ident("sql_type"@), eq] + t, 2) == Ok::<_, AttrErrorV>((ty, t.len() + 2int)),
    ensures
        spec_attribute::<StructAttr>(
            (Some("diesel"@), seq![Tok::Group(Delimiter::Parenthesis, seq![Tok::Ident("sql_type"@), eq] + t)]),
        ) == (
            Ok::<_, AttrErrorV>(seq![StructAttrV::SqlType("sql_type"@, ty)]),
            Seq::<WarningV>::empty(),
        ),
{
    let body = seq![Tok::Ident("sql_type"@), eq] + t;
    assert(body[0] == Tok::Ident("sql_type"@));
    assert(body[1] == eq);
    lemma_struct_assignment_option(body, 0, "sql_type"@);
    assert(spec_terminated::<StructAttr>(body, 0) == (
        Ok::<_, AttrErrorV>((seq![StructAttrV::SqlType("sql_type"@, ty)], false)),
        Seq::<WarningV>::empty(),
    ));
}

/// A field option written `key = ...` is read by what `key` names:
/// `column_name` takes an identifier and gives `ColumnName`; `sql_type`,
/// `serialize_as` and `deserialize_as` take a type and give `SqlType`,
/// `SerializeAs` and `DeserializeAs` respectively, each with the type's
/// text; all end where the value ends. Any other name before `=` is refused
/// as an unknown option.
pub proof fn lemma_field_assignment_option(ts: Seq<Tok>, pos: int, key: Seq<char>)
    requires
        0 <= pos,
        pos + 1 < ts.len(),
        ts[pos] == Tok::Ident(key),
        syn_accepts_ident(key),
        tok_punct(ts[pos + 1], '='),
    ensures
        key == "column_name"@ ==> match spec_ident(ts, pos + 2) {
            Ok((c, e)) => spec_field_attr(ts, pos) == Ok::<_, AttrErrorV>((FieldAttrV::ColumnName(key, c), e)),
            Err(x) => spec_field_attr(ts, pos) == Err::<(FieldAttrV, int), _>(x),
        },
        key == "sql_type"@ ==> match spec_type(ts, pos + 2) {
            Ok((t, e)) => spec_field_attr(ts, pos) == Ok::<_, AttrErrorV>((FieldAttrV::SqlType(key, t), e)),
            Err(x) => spec_field_attr(ts, pos) == Err::<(FieldAttrV, int), _>(x),
        },
        key == "serialize_as"@ ==> match spec_type(ts, pos + 2) {
            Ok((t, e)) => spec_field_attr(ts, pos) == Ok::<_, AttrErrorV>((FieldAttrV::SerializeAs(key, t), e)),
            Err(x) => spec_field_attr(ts, pos) == Err::<(FieldAttrV, int), _>(x),
        },
        key == "deserialize_as"@ ==> match spec_type(ts, pos + 2) {
            Ok((t, e)) => spec_field_attr(ts, pos) == Ok::<_, AttrErrorV>((FieldAttrV::DeserializeAs(key, t), e)),
            Err(x) => spec_field_attr(ts, pos) == Err::<(FieldAttrV, int), _>(x),
        },
        key != "column_name"@ && key != "sql_type"@ && key != "serialize_as"@ && key != "deserialize_as"@
            ==> spec_field_attr(ts, pos) == Err::<(FieldAttrV, int), _>(AttrErrorV::UnknownOption(key)),
{
    lemma_field_option_names();
}

/// A field option written as a bare name (not followed by `=`) is `embed`,
/// taking one token; any other bare name is refused as an unknown option.
pub proof fn lemma_field_flag_option(ts: Seq<Tok>, pos: int, key: Seq<char>)
    requires
        0 <= pos < ts.len(),
        ts[pos] == Tok::Ident(key),
        syn_accepts_ident(key),
        !at_punct(ts, pos + 1, '='),
    ensures
        key == "embed"@ ==> spec_field_attr(ts, pos) == Ok::<_, AttrErrorV>((FieldAttrV::Embed(key), pos + 1)),
        key != "embed"@ ==> spec_field_attr(ts, pos) == Err::<(FieldAttrV, int), _>(AttrErrorV::UnknownOption(key)),
{
    lemma_field_option_names();
}

/// `#[diesel(key = T)]` on a field, where `key` is one of `sql_type`,
/// `serialize_as` and `deserialize_as` and the tokens of `T` read whole as a
/// type, gives exactly one attribute, the one `key` names, with the type's
/// text, and no warning.
pub proof fn lemma_field_type_attribute(key: Seq<char>, t: Seq<Tok>, eq: Tok, ty: Seq<char>)
    requires
        syn_accepts_ident(key),
        tok_punct(eq, '='),
        spec_type(seq![Tok::Ident(key), eq] + t, 2) == Ok::<_, AttrErrorV>((ty, t.len() + 2int)),
    ensures
        key == "sql_type"@ ==> spec_attribute::<FieldAttr>(
            (Some("diesel"@), seq![Tok::Group(Delimiter::Parenthesis, seq![Tok::Ident(key), eq] + t)]),
        ) == (Ok::<_, AttrErrorV>(seq![FieldAttrV::SqlType(key, ty)]), Seq::<WarningV>::empty()),
        key == "serialize_as"@ ==> spec_attribute::<FieldAttr>(
            (Some("diesel"@), seq![Tok::Group(Delimiter::Parenthesis, seq![Tok::Ident(key), eq] + t)]),
        ) == (Ok::<_, AttrErrorV>(seq![FieldAttrV::SerializeAs(key, ty)]), Seq::<WarningV>::empty()),
        key == "deserialize_as"@ ==> spec_attribute::<FieldAttr>(
            (Some("diesel"@), seq![Tok::Group(Delimiter::Parenthesis, seq![Tok::Ident(key), eq] + t)]),
        ) == (Ok::<_, AttrErrorV>(seq![FieldAttrV::DeserializeAs(key, ty)]), Seq::<WarningV>::empty()),
{
    let body = seq![Tok::Ident(key), eq] + t;
    assert(body[0] == Tok::Ident(key));
    assert(body[1] == eq);
    lemma_field_assignment_option(body, 0, key);
    if key == "sql_type"@ {
        assert(spec_terminated::<FieldAttr>(body, 0) == (
            Ok::<_, AttrErrorV>((seq![FieldAttrV::SqlType(key, ty)], false)),
            Seq::<WarningV>::empty(),
        ));
    } else if key == "serialize_as"@ {
        assert(spec_terminated::<FieldAttr>(body, 0) == (
            Ok::<_, AttrErrorV>((seq![FieldAttrV::SerializeAs(key, ty)], false)),
            Seq::<WarningV>::empty(),
        ));
    } else if key == "deserialize_as"@ {
        assert(spec_terminated::<FieldAttr>(body, 0) == (
            Ok::<_, AttrErrorV>((seq![FieldAttrV::DeserializeAs(key, ty)], false)),
            Seq::<WarningV>::empty(),
        ));
    }
}

} // verus!

